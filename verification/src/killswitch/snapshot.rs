//! Time-stamped snapshot of the observable system state (chain + domains) and its journal.

use vstd::prelude::*;

use super::sequence::Steps;
use super::KillSwitchError;
use crate::clock::now_unix;
use crate::json::{bool_text, push_bool, push_quoted, push_raw, quoted};
use crate::storage::events::{event_rows, record_system_event, same_except_events};
use crate::storage::StorageHandle;
use crate::text::{dec, owned, push_dec};

verus! {

#[derive(Debug, Clone)]
pub struct SubsystemSnapshot {
    pub name: String,
    pub active: bool,
}

#[derive(Debug, Clone)]
pub struct SystemSnapshot {
    pub timestamp_unix: u64,
    pub nftables_chain_present: bool,
    pub subsystems: Vec<SubsystemSnapshot>,
}

pub open spec fn sub_view(s: SubsystemSnapshot) -> (Seq<char>, bool) {
    (s.name@, s.active)
}

/// The state that a snapshot records: the chain and each domain's name and activity.
pub open spec fn snapshot_state(s: SystemSnapshot) -> (bool, Seq<(Seq<char>, bool)>) {
    (s.nftables_chain_present, s.subsystems@.map_values(|x: SubsystemSnapshot| sub_view(x)))
}

/// The state of the steps, in snapshot order (CA, PolarProxy, attribution, capture, keylog).
pub open spec fn steps_state(steps: Steps) -> (bool, Seq<(Seq<char>, bool)>) {
    (
        steps.on(1),
        seq![
            (steps.name_of(0), steps.on(0)),
            (steps.name_of(2), steps.on(2)),
            (steps.name_of(3), steps.on(3)),
            (steps.name_of(4), steps.on(4)),
            (steps.name_of(5), steps.on(5)),
        ],
    )
}

fn sub_snapshot(steps: &Steps, i: usize) -> (r: SubsystemSnapshot)
    requires
        i < 6,
    ensures
        sub_view(r) == (steps.name_of(i as int), steps.on(i as int)),
{
    SubsystemSnapshot { name: owned(steps.step_name(i)), active: steps.step_active(i) }
}

impl SystemSnapshot {
    /// Records the current state of the chain and of the domains of `steps`.
    pub fn capture(steps: &Steps) -> (r: SystemSnapshot)
        ensures
            snapshot_state(r) == steps_state(*steps),
    {
        let mut subsystems: Vec<SubsystemSnapshot> = Vec::new();
        let a = sub_snapshot(steps, 0);
        let b = sub_snapshot(steps, 2);
        let c = sub_snapshot(steps, 3);
        let d = sub_snapshot(steps, 4);
        let e = sub_snapshot(steps, 5);
        subsystems.push(a);
        subsystems.push(b);
        subsystems.push(c);
        subsystems.push(d);
        subsystems.push(e);
        assert(subsystems@ == seq![a, b, c, d, e]);
        let r = SystemSnapshot {
            timestamp_unix: now_unix(),
            nftables_chain_present: steps.step_active(1),
            subsystems,
        };
        assert(snapshot_state(r).1 =~= seq![sub_view(a), sub_view(b), sub_view(c), sub_view(d), sub_view(e)]);
        assert(snapshot_state(r).1 =~= steps_state(*steps).1);
        r
    }
}

/// A subsystem entry as JSON (`{"name":...,"active":...}`).
pub open spec fn sub_json(s: (Seq<char>, bool)) -> Seq<char> {
    "{\"name\":"@ + quoted(s.0) + ",\"active\":"@ + bool_text(s.1) + "}"@
}

pub open spec fn subs_json(subs: Seq<(Seq<char>, bool)>) -> Seq<char>
    decreases subs.len(),
{
    if subs.len() == 0 {
        Seq::empty()
    } else if subs.len() == 1 {
        sub_json(subs[0])
    } else {
        subs_json(subs.drop_last()) + ","@ + sub_json(subs.last())
    }
}

/// The snapshot as compact JSON, fields in declaration order.
pub open spec fn snapshot_json(s: SystemSnapshot) -> Seq<char> {
    "{\"timestamp_unix\":"@ + dec(s.timestamp_unix as nat) + ",\"nftables_chain_present\":"@
        + bool_text(s.nftables_chain_present) + ",\"subsystems\":["@ + subs_json(
        snapshot_state(s).1,
    ) + "]}"@
}

fn push_sub_json(out: &mut String, s: &SubsystemSnapshot)
    ensures
        final(out)@ == old(out)@ + sub_json(sub_view(*s)),
{
    let ghost start = out@;
    push_raw(out, "{\"name\":");
    push_quoted(out, s.name.as_str());
    push_raw(out, ",\"active\":");
    push_bool(out, s.active);
    push_raw(out, "}");
    assert(out@ =~= start + sub_json(sub_view(*s)));
}

/// Serializes a snapshot.
pub fn to_json(s: &SystemSnapshot) -> (r: String)
    ensures
        r@ == snapshot_json(*s),
{
    let mut out = owned("{\"timestamp_unix\":");
    push_dec(&mut out, s.timestamp_unix);
    push_raw(&mut out, ",\"nftables_chain_present\":");
    push_bool(&mut out, s.nftables_chain_present);
    push_raw(&mut out, ",\"subsystems\":[");
    let ghost head = out@;
    let ghost subs = snapshot_state(*s).1;
    let mut i: usize = 0;
    while i < s.subsystems.len()
        invariant
            0 <= i <= s.subsystems@.len(),
            subs == s.subsystems@.map_values(|x: SubsystemSnapshot| sub_view(x)),
            out@ == head + subs_json(subs.subrange(0, i as int)),
        decreases s.subsystems@.len() - i,
    {
        if i > 0 {
            push_raw(&mut out, ",");
        }
        push_sub_json(&mut out, &s.subsystems[i]);
        proof {
            let pre = subs.subrange(0, i + 1);
            assert(pre.drop_last() =~= subs.subrange(0, i as int));
            assert(pre.last() == sub_view(s.subsystems@[i as int]));
            if i == 0 {
                assert(subs.subrange(0, 0).len() == 0);
                assert(out@ =~= head + subs_json(pre));
            } else {
                assert(out@ =~= head + subs_json(pre));
            }
        }
        i += 1;
    }
    assert(subs.subrange(0, s.subsystems@.len() as int) =~= subs);
    push_raw(&mut out, "]}");
    assert(out@ =~= snapshot_json(*s));
    out
}

/// Appends a labelled snapshot to the system event journal.
pub fn append_event(storage: &mut StorageHandle, label: &str, snapshot: &SystemSnapshot) -> (r:
    Result<(), KillSwitchError>)
    ensures
        r is Ok,
        event_rows(*final(storage)).len() == event_rows(*old(storage)).len() + 1,
        event_rows(*final(storage)).drop_last() == event_rows(*old(storage)),
        event_rows(*final(storage)).last().1 == label@,
        event_rows(*final(storage)).last().2 == snapshot_json(*snapshot),
        same_except_events(*final(storage), *old(storage)),
{
    let json = to_json(snapshot);
    match record_system_event(storage, label, json.as_str()) {
        Ok(()) => Ok(()),
        Err(error) => Err(KillSwitchError::Persistence(error.message)),
    }
}

} // verus!
