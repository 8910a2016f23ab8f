//! Orchestrated life cycle of every domain, with snapshots before and after, and the
//! guarantee that turning the tool off leaves nothing behind (checked by a diff).

use vstd::prelude::*;

pub mod emergency;
pub mod error;
pub mod nftables;
pub mod sequence;
pub mod snapshot;
pub mod subsystem;
pub mod verify;

pub use error::{exec_error, is_exec_error, KillSwitchError};
pub use nftables::{FakeNftablesBackend, NftCommands, NftablesBackend, SystemNftablesBackend};
pub use subsystem::{Service, ServiceSubsystem, StubSubsystem, Subsystem};

use crate::shared::{strings_view, SubsystemStatus, SystemStatus, TeardownReport};
use crate::storage::events::event_rows;
use crate::clock::{hms, now_unix};
use crate::storage::StorageHandle;
use crate::text::{owned, str_eq};
use emergency::{emergency_order, unconfirmed_prefix};
use sequence::{
    gave_up, gave_up_in_order, start_failed_at, started_all, stops_down_to, DeactivationReport,
    Steps, NFTABLES_STEP,
};
use snapshot::{append_event, snapshot_state, steps_state, SystemSnapshot};
use verify::divergences;

verus! {

/// The identifier of status entry `i` (the same order as the steps).
pub open spec fn entry_id(i: int) -> Seq<char> {
    if i == 0 {
        "ca"@
    } else if i == 1 {
        "nftables"@
    } else if i == 2 {
        "polarproxy"@
    } else if i == 3 {
        "attribution"@
    } else if i == 4 {
        "capture"@
    } else {
        "keylog"@
    }
}

pub open spec fn entry_name(i: int) -> Seq<char> {
    if i == 0 {
        "CA installée"@
    } else if i == 1 {
        "Règles nftables"@
    } else if i == 2 {
        "Décryptage (PolarProxy)"@
    } else if i == 3 {
        "Attribution (OpenSnitch)"@
    } else if i == 4 {
        "Capture réseau"@
    } else {
        "Keylog SSLKEYLOGFILE"@
    }
}

pub open spec fn entry_detail(i: int) -> Seq<char> {
    if i == 0 {
        "Certificat racine dans le trust store"@
    } else if i == 1 {
        "Chaîne VITRAIL_REDIRECT active"@
    } else if i == 2 {
        "Intercepteur TLS/MITM local"@
    } else if i == 3 {
        "Daemon de corrélation processus/flux"@
    } else if i == 4 {
        "Capture AF_PACKET brute"@
    } else {
        "Export de clés par les applications"@
    }
}

fn entry_strings(i: usize) -> (r: (&'static str, &'static str, &'static str))
    requires
        i < 6,
    ensures
        r.0@ == entry_id(i as int),
        r.1@ == entry_name(i as int),
        r.2@ == entry_detail(i as int),
{
    if i == 0 {
        ("ca", "CA installée", "Certificat racine dans le trust store")
    } else if i == 1 {
        ("nftables", "Règles nftables", "Chaîne VITRAIL_REDIRECT active")
    } else if i == 2 {
        ("polarproxy", "Décryptage (PolarProxy)", "Intercepteur TLS/MITM local")
    } else if i == 3 {
        ("attribution", "Attribution (OpenSnitch)", "Daemon de corrélation processus/flux")
    } else if i == 4 {
        ("capture", "Capture réseau", "Capture AF_PACKET brute")
    } else {
        ("keylog", "Keylog SSLKEYLOGFILE", "Export de clés par les applications")
    }
}

/// `err` for the step that failed, else `ok` when running, else `off`.
pub open spec fn status_label(id: Seq<char>, active: bool, failed_step: Option<Seq<char>>) -> Seq<
    char,
> {
    if failed_step == Some(id) {
        "err"@
    } else if active {
        "ok"@
    } else {
        "off"@
    }
}

fn status_label_exec(id: &str, active: bool, failed_step: Option<&str>) -> (r: &'static str)
    ensures
        r@ == status_label(
            id@,
            active,
            match failed_step {
                Some(f) => Some(f@),
                None => None,
            },
        ),
{
    let is_failed = match failed_step {
        Some(f) => str_eq(f, id),
        None => false,
    };
    if is_failed {
        "err"
    } else if active {
        "ok"
    } else {
        "off"
    }
}

pub open spec fn status_entry_view(s: SubsystemStatus) -> (Seq<char>, Seq<char>, Seq<char>, Seq<char>) {
    (s.id@, s.name@, s.detail@, s.status@)
}

/// The six status entries for the steps' state.
pub open spec fn entries(steps: Steps, failed_step: Option<Seq<char>>) -> Seq<
    (Seq<char>, Seq<char>, Seq<char>, Seq<char>),
> {
    Seq::new(
        6,
        |i: int| (entry_id(i), entry_name(i), entry_detail(i), status_label(entry_id(i), steps.on(i), failed_step)),
    )
}

struct Inner {
    steps: Steps,
    pre_activation_snapshot: Option<SystemSnapshot>,
    active: bool,
    last_verification: Option<TeardownReport>,
    last_verification_clean: bool,
    storage: StorageHandle,
}

/// The kill switch: the single entry point of activation and deactivation.
pub struct KillSwitchState {
    inner: Inner,
}

/// After an activation that failed at step `k`: the steps before `k` run and the steps
/// after `k` are as they were.
pub open spec fn failed_at(before: Steps, after: Steps, k: int) -> bool {
    &&& 0 <= k < 6
    &&& forall|j: int| 0 <= j < k ==> #[trigger] after.on(j)
    &&& forall|j: int| k < j < 6 ==> #[trigger] after.on(j) == before.on(j)
}

/// No domain is active and the chain is absent, in a recorded state.
pub open spec fn state_all_off(s: (bool, Seq<(Seq<char>, bool)>)) -> bool {
    !s.0 && forall|i: int| 0 <= i < s.1.len() ==> !(#[trigger] s.1[i]).1
}

pub open spec fn opt_str(o: Option<&str>) -> Option<Seq<char>> {
    match o {
        Some(f) => Some(f@),
        None => None,
    }
}

/// What an activation does, from the kill switch `k0` to `k1` with the status `s`: the
/// state before is recorded, the steps are started in order up to the first failure, and the
/// status says which step failed, if one did.
pub open spec fn activation_outcome(k0: KillSwitchState, k1: KillSwitchState, s: SystemStatus) -> bool {
    &&& k1.steps().same_names(&k0.steps())
    &&& k1.steps().reliable() == k0.steps().reliable()
    &&& k0.steps().reliable() ==> k1.is_on()
    &&& k1.pre_snapshot() matches Some(p) && snapshot_state(p) == steps_state(k0.steps())
    &&& k1.is_on() ==> forall|i: int| 0 <= i < 6 ==> #[trigger] k1.steps().on(i)
    &&& k1.is_on() <==> started_all(k0.steps(), k1.steps())
    &&& k1.is_on() ==> k1.status_is(s, "active"@, None)
    &&& !k1.is_on() ==> exists|k: int|
        #[trigger] failed_at(k0.steps(), k1.steps(), k) && start_failed_at(k0.steps(), k1.steps(), k)
            && (k != NFTABLES_STEP ==> k1.steps().on(k) == k0.steps().on(k)) && k1.status_is(
            s,
            "degraded"@,
            Some(k0.steps().name_of(k)),
        )
    &&& k1.last_clean() == k0.last_clean()
    &&& k1.last_checked_at() == k0.last_checked_at()
    &&& event_rows(k1.store()).len() == event_rows(k0.store()).len() + 2
    &&& event_rows(k1.store()).subrange(0, event_rows(k0.store()).len() as int) == event_rows(k0.store())
    &&& event_rows(k1.store())[event_rows(k0.store()).len() as int].1 == "pre-activation"@
    &&& event_rows(k1.store()).last().1 == "post-activation"@
}

/// What an emergency stop does to the switch, from `k0` to `k1` with the status `s`: the
/// switch is off, and with reliable domains every step is stopped and the status says
/// `inactive`.
pub open spec fn emergency_outcome(k0: KillSwitchState, k1: KillSwitchState, s: SystemStatus) -> bool {
    &&& k1.steps().same_names(&k0.steps())
    &&& !k1.is_on()
    &&& k1.steps().reliable() == k0.steps().reliable()
    &&& k0.steps().reliable() ==> k1.steps().all_off() && k1.status_is(s, "inactive"@, None)
}

/// The calls that change or check the switch.
pub enum SwitchCall {
    Activate,
    Deactivate,
    EmergencyStop,
    VerifyTeardown,
}

/// The switch `k1` is what the call `c` can leave of `k0`.
pub open spec fn call_outcome(c: SwitchCall, k0: KillSwitchState, k1: KillSwitchState) -> bool {
    match c {
        SwitchCall::Activate => exists|s: SystemStatus| #[trigger] activation_outcome(k0, k1, s),
        SwitchCall::Deactivate => exists|s: SystemStatus| #[trigger] deactivation_outcome(k0, k1, s),
        SwitchCall::EmergencyStop => exists|s: SystemStatus| #[trigger] emergency_outcome(k0, k1, s),
        SwitchCall::VerifyTeardown => k1.steps() == k0.steps() && k1.is_on() == k0.is_on(),
    }
}

/// The last call among `calls` that turns the switch on or off is an activation, at index `i`
/// (only teardown checks come after it).
pub open spec fn last_switch_is_activation(calls: Seq<SwitchCall>, i: int) -> bool {
    &&& 0 <= i < calls.len()
    &&& calls[i] is Activate
    &&& forall|j: int| i < j < calls.len() ==> #[trigger] calls[j] is VerifyTeardown
}

/// What a deactivation does, from the kill switch `k0` to `k1` with the status `s`: every
/// step stopped in reverse activation order with retries, the state compared with the
/// snapshot taken before activation, and a status that says so.
pub open spec fn deactivation_outcome(k0: KillSwitchState, k1: KillSwitchState, s: SystemStatus) -> bool {
    let no_give_up = forall|i: int| 0 <= i < 6 ==> !#[trigger] gave_up(k0.steps(), k1.steps(), i);
    &&& k1.steps().same_names(&k0.steps())
    &&& k1.steps().reliable() == k0.steps().reliable()
    &&& k0.steps().reliable() ==> no_give_up
    &&& !k1.is_on()
    &&& forall|i: int| 0 <= i < 6 && i != NFTABLES_STEP ==> !#[trigger] k1.steps().on(i)
    &&& k1.steps().acts@ == k0.steps().acts@ + stops_down_to(k0.steps(), k1.steps(), 0)
    &&& no_give_up ==> k1.steps().all_off()
    &&& k1.pre_snapshot() == k0.pre_snapshot()
    &&& k1.last_clean() == match k0.pre_snapshot() {
        Some(p) => divergences(snapshot_state(p), steps_state(k1.steps())).len() == 0,
        None => false,
    }
    &&& (match k0.pre_snapshot() {
        Some(p) => state_all_off(snapshot_state(p)),
        None => false,
    }) && k1.steps().all_off() ==> k1.last_clean()
    &&& s.kill_switch_state@ == "inactive"@ ==> k1.steps().all_off() && k1.last_clean()
    &&& s.kill_switch_state@ == "inactive"@ || s.kill_switch_state@ == "degraded"@
    &&& no_give_up && k1.last_clean() ==> k1.status_is(s, "inactive"@, None)
    &&& no_give_up && !k1.last_clean() ==> k1.status_is(s, "degraded"@, None)
    &&& !no_give_up ==> exists|k: int|
        0 <= k < 6 && #[trigger] gave_up(k0.steps(), k1.steps(), k) && (forall|j: int|
            k < j < 6 ==> !#[trigger] gave_up(k0.steps(), k1.steps(), j)) && k1.status_is(
            s,
            "degraded"@,
            Some(k0.steps().name_of(k)),
        )
    &&& event_rows(k1.store()).len() == event_rows(k0.store()).len() + 1
    &&& event_rows(k1.store()).drop_last() == event_rows(k0.store())
    &&& event_rows(k1.store()).last().1 == "post-deactivation"@
}

impl KillSwitchState {
    pub closed spec fn steps(&self) -> Steps {
        self.inner.steps
    }

    pub closed spec fn pre_snapshot(&self) -> Option<SystemSnapshot> {
        self.inner.pre_activation_snapshot
    }

    pub closed spec fn is_on(&self) -> bool {
        self.inner.active
    }

    pub closed spec fn last_clean(&self) -> bool {
        self.inner.last_verification_clean
    }

    pub closed spec fn last_checked_at(&self) -> Option<Seq<char>> {
        match self.inner.last_verification {
            Some(r) => Some(r.checked_at@),
            None => None,
        }
    }

    pub closed spec fn store(&self) -> StorageHandle {
        self.inner.storage
    }

    /// The status that `build_status` gives for a label and a failed step.
    pub open spec fn status_is(
        &self,
        s: SystemStatus,
        label: Seq<char>,
        failed_step: Option<Seq<char>>,
    ) -> bool {
        &&& s.kill_switch_state@ == label
        &&& s.subsystems@.map_values(|e: SubsystemStatus| status_entry_view(e)) == entries(
            self.steps(),
            failed_step,
        )
        &&& match s.last_verification {
            Some(c) => self.last_checked_at() == Some(c@),
            None => self.last_checked_at() is None,
        }
        &&& s.last_verification_clean == self.last_clean()
    }

    /// A kill switch over the given backends, with the CA and PolarProxy steps held in memory.
    pub fn with_backend(
        nftables: Box<dyn NftablesBackend>,
        capture: Box<dyn Subsystem>,
        attribution: Box<dyn Subsystem>,
        keylog: Box<dyn Subsystem>,
        storage: StorageHandle,
    ) -> (r: KillSwitchState)
        ensures
            !r.is_on(),
            r.pre_snapshot() is None,
            r.last_clean(),
            r.last_checked_at() is None,
            r.store() == storage,
    {
        let ca: Box<dyn Subsystem> = Box::new(StubSubsystem::new("ca"));
        let polarproxy: Box<dyn Subsystem> = Box::new(StubSubsystem::new("polarproxy"));
        let steps = Steps {
            ca: ca,
            nftables: nftables,
            polarproxy: polarproxy,
            attribution: attribution,
            capture: capture,
            keylog: keylog,
            acts: Ghost(Seq::empty()),
            last_error: Ghost(None),
        };
        KillSwitchState {
            inner: Inner {
                steps: steps,
                pre_activation_snapshot: None,
                active: false,
                last_verification: None,
                last_verification_clean: true,
                storage,
            },
        }
    }

    /// The store shared with the settings commands.
    pub fn storage_handle(&self) -> (r: &StorageHandle)
        ensures
            *r == self.store(),
    {
        &self.inner.storage
    }

    fn build_status(&self, label: &str, failed_step: Option<&str>) -> (s: SystemStatus)
        ensures
            self.status_is(s, label@, opt_str(failed_step)),
    {
        let mut subsystems: Vec<SubsystemStatus> = Vec::new();
        let mut i: usize = 0;
        while i < 6
            invariant
                0 <= i <= 6,
                subsystems@.len() == i,
                forall|k: int|
                    0 <= k < i ==> status_entry_view(#[trigger] subsystems@[k]) == entries(
                        self.steps(),
                        opt_str(failed_step),
                    )[k],
            decreases 6 - i,
        {
            let (id, name, detail) = entry_strings(i);
            let active = if i == 0 {
                self.inner.steps.ca.is_active()
            } else if i == 1 {
                self.inner.steps.nftables.is_applied()
            } else if i == 2 {
                self.inner.steps.polarproxy.is_active()
            } else if i == 3 {
                self.inner.steps.attribution.is_active()
            } else if i == 4 {
                self.inner.steps.capture.is_active()
            } else {
                self.inner.steps.keylog.is_active()
            };
            let status = status_label_exec(id, active, failed_step);
            subsystems.push(
                SubsystemStatus {
                    id: owned(id),
                    name: owned(name),
                    detail: owned(detail),
                    status: owned(status),
                },
            );
            i += 1;
        }
        assert(subsystems@.map_values(|e: SubsystemStatus| status_entry_view(e)) =~= entries(
            self.steps(),
            opt_str(failed_step),
        ));
        let last_verification = match &self.inner.last_verification {
            Some(r) => Some(r.checked_at.clone()),
            None => None,
        };
        SystemStatus {
            kill_switch_state: owned(label),
            subsystems,
            last_verification,
            last_verification_clean: self.inner.last_verification_clean,
        }
    }

    /// Snapshot before, then the activation sequence (stopping at the first failure), then
    /// a snapshot after; both snapshots are journaled.
    pub fn activate(&mut self) -> (s: SystemStatus)
        ensures
            activation_outcome(*old(self), *final(self), s),
    {
        let ghost start_events = event_rows(self.inner.storage);
        let ghost steps0 = self.inner.steps;
        let pre = SystemSnapshot::capture(&self.inner.steps);
        let _ = append_event(&mut self.inner.storage, "pre-activation", &pre);
        let ghost mid_events = event_rows(self.inner.storage);
        self.inner.pre_activation_snapshot = Some(pre);
        let outcome = sequence::activate(&mut self.inner.steps);
        let failed_step: Option<String> = match &outcome {
            Err(KillSwitchError::ActivationFailed { step, reason: _ }) => Some(step.clone()),
            _ => None,
        };
        self.inner.active = outcome.is_ok();
        let ghost k: int = choose|k: int|
            sequence::stopped_at(steps0, self.inner.steps, k, outcome) && start_failed_at(
                steps0,
                self.inner.steps,
                k,
            );
        proof {
            if outcome is Err {
                assert(start_failed_at(steps0, self.inner.steps, k));
                if started_all(steps0, self.inner.steps) {
                    assert(self.inner.steps.calls(k) == steps0.calls(k).push((true, true)));
                    assert(self.inner.steps.calls(k).last() == (true, false));
                }
            }
        }
        let post = SystemSnapshot::capture(&self.inner.steps);
        let _ = append_event(&mut self.inner.storage, "post-activation", &post);
        proof {
            let e = event_rows(self.inner.storage);
            assert(e.drop_last() == mid_events);
            assert(mid_events.drop_last() == start_events);
            assert(e.subrange(0, start_events.len() as int) =~= start_events);
            assert(e[start_events.len() as int] == mid_events.last());
        }
        if self.inner.active {
            self.build_status("active", None)
        } else {
            let f = match &failed_step {
                Some(f) => Some(f.as_str()),
                None => None,
            };
            assert(opt_str(f) == Some(steps0.name_of(k)));
            let s = self.build_status("degraded", f);
            assert(failed_at(old(self).steps(), self.steps(), k));
            assert(self.status_is(s, "degraded"@, Some(old(self).steps().name_of(k))));
            s
        }
    }

    /// The deactivation sequence in reverse order (best effort), then a snapshot compared
    /// with the one taken before activation, checked now.
    pub fn deactivate(&mut self) -> (s: SystemStatus)
        ensures
            deactivation_outcome(*old(self), *final(self), s),
            exists|t: nat| final(self).last_checked_at() == Some(#[trigger] hms(t)),
    {
        let now = now_unix();
        self.deactivate_at(now)
    }

    /// The deactivation sequence in reverse order (best effort), then a snapshot compared
    /// with the one taken before activation; the check is dated `now`.
    pub fn deactivate_at(&mut self, now: u64) -> (s: SystemStatus)
        ensures
            deactivation_outcome(*old(self), *final(self), s),
            final(self).last_checked_at() == Some(hms(now as nat)),
    {
        proof {
            reveal_strlit("inactive");
            reveal_strlit("degraded");
        }
        let ghost steps0 = self.inner.steps;
        let report: DeactivationReport = sequence::deactivate(&mut self.inner.steps);
        let ghost idx = choose|idx: Seq<int>|
            #[trigger] gave_up_in_order(steps0, self.inner.steps, idx, report.failed_steps@);
        assert(gave_up_in_order(steps0, self.inner.steps, idx, report.failed_steps@));
        self.inner.active = false;
        let post = SystemSnapshot::capture(&self.inner.steps);
        let _ = append_event(&mut self.inner.storage, "post-deactivation", &post);
        let verification = match &self.inner.pre_activation_snapshot {
            Some(pre) => verify::diff_at(pre, &post, now),
            None => verify::no_prior_activation_at(now),
        };
        proof {
            if self.inner.pre_activation_snapshot is Some {
                let p = self.inner.pre_activation_snapshot->0;
                if state_all_off(snapshot_state(p)) && self.inner.steps.all_off() {
                    lemma_teardown_of_clean_activation_is_clean(
                        snapshot_state(p),
                        snapshot_state(post),
                    );
                }
            }
            assert(verification.clean ==> strings_view(verification.divergences@).len() == 0);
        }
        let clean = verification.clean;
        self.inner.last_verification_clean = clean;
        self.inner.last_verification = Some(verification);
        let nothing_failed = report.failed_steps.len() == 0;
        proof {
            if nothing_failed {
                assert(!self.inner.steps.on(NFTABLES_STEP as int));
                assert(self.inner.steps.all_off());
            }
        }
        proof {
            if nothing_failed {
                assert forall|i: int| 0 <= i < 6 implies !#[trigger] gave_up(steps0, self.inner.steps, i) by {
                    if gave_up(steps0, self.inner.steps, i) {
                        assert(idx.contains(i));
                    }
                }
            } else {
                assert(gave_up(steps0, self.inner.steps, idx[0]));
                assert forall|j: int| idx[0] < j < 6 implies !#[trigger] gave_up(
                    steps0,
                    self.inner.steps,
                    j,
                ) by {
                    if gave_up(steps0, self.inner.steps, j) {
                        let w = choose|w: int| 0 <= w < idx.len() && idx[w] == j;
                        if w > 0 {
                            assert(idx[0] > idx[w]);
                        }
                    }
                }
            }
        }
        if nothing_failed && clean {
            self.build_status("inactive", None)
        } else {
            let s = if report.failed_steps.len() > 0 {
                let s = self.build_status("degraded", Some(report.failed_steps[0].0.as_str()));
                assert(self.status_is(s, "degraded"@, Some(old(self).steps().name_of(idx[0]))));
                s
            } else {
                self.build_status("degraded", None)
            };
            assert(s.kill_switch_state@ != "inactive"@) by {
                assert(s.kill_switch_state@[0] != "inactive"@[0]);
            }
            s
        }
    }

    /// Out of sequence, best effort: the network first.
    pub fn emergency_stop(&mut self) -> (s: SystemStatus)
        ensures
            emergency_outcome(*old(self), *final(self), s),
            final(self).steps().same_names(&old(self).steps()),
            !final(self).is_on(),
            forall|i: int| 0 <= i < 6 && i != NFTABLES_STEP ==> !#[trigger] final(self).steps().on(i),
            !final(self).last_clean(),
            final(self).last_checked_at() is None,
            s.kill_switch_state@ == "inactive"@ ==> final(self).steps().all_off(),
            s.kill_switch_state@ == "inactive"@ || s.kill_switch_state@ == "degraded"@,
            unconfirmed_prefix(old(self).steps(), final(self).steps(), 6).len() == 0
                ==> final(self).status_is(s, "inactive"@, None),
            unconfirmed_prefix(old(self).steps(), final(self).steps(), 6).len() > 0
                ==> final(self).status_is(
                s,
                "degraded"@,
                Some(unconfirmed_prefix(old(self).steps(), final(self).steps(), 6)[0]),
            ),
            event_rows(final(self).store()).len() == event_rows(old(self).store()).len() + 1,
            event_rows(final(self).store()).drop_last() == event_rows(old(self).store()),
            event_rows(final(self).store()).last().1 == "emergency-stop"@,
            final(self).steps().acts@ == old(self).steps().acts@ + emergency_order(),
            final(self).steps().reliable() == old(self).steps().reliable(),
            old(self).steps().reliable() ==> final(self).steps().all_off()
                && final(self).status_is(s, "inactive"@, None),
            forall|i: int|
                0 <= i < 6 ==> #[trigger] final(self).steps().calls(i) == old(self).steps().calls(i).push(
                    (false, final(self).steps().calls(i).last().1),
                ),
    {
        proof {
            reveal_strlit("inactive");
            reveal_strlit("degraded");
        }
        let ghost steps0 = self.inner.steps;
        let report = emergency::emergency_stop(&mut self.inner.steps);
        let ghost names = unconfirmed_prefix(steps0, self.inner.steps, 6);
        assert(report.unconfirmed_steps@.map_values(|x: String| x@) == names);
        assert(report.unconfirmed_steps@.len() == names.len());
        self.inner.active = false;
        self.inner.last_verification = None;
        self.inner.last_verification_clean = false;
        let post = SystemSnapshot::capture(&self.inner.steps);
        let _ = append_event(&mut self.inner.storage, "emergency-stop", &post);
        if report.unconfirmed_steps.len() == 0 {
            assert(self.inner.steps.all_off());
            self.build_status("inactive", None)
        } else {
            assert(report.unconfirmed_steps@[0]@ == names[0]);
            let s = self.build_status("degraded", Some(report.unconfirmed_steps[0].as_str()));
            assert(s.kill_switch_state@ != "inactive"@) by {
                assert(s.kill_switch_state@[0] != "inactive"@[0]);
            }
            s
        }
    }

    pub fn current_status(&self) -> (s: SystemStatus)
        ensures
            self.status_is(
                s,
                if self.is_on() {
                    "active"@
                } else {
                    "inactive"@
                },
                None,
            ),
    {
        if self.inner.active {
            self.build_status("active", None)
        } else {
            self.build_status("inactive", None)
        }
    }

    /// Compares the current state with the last snapshot taken before activation.
    pub fn verify_teardown(&mut self) -> (r: TeardownReport)
        ensures
            final(self).steps() == old(self).steps(),
            final(self).is_on() == old(self).is_on(),
            final(self).pre_snapshot() == old(self).pre_snapshot(),
            final(self).store() == old(self).store(),
            r.clean == (match old(self).pre_snapshot() {
                Some(p) => divergences(snapshot_state(p), steps_state(old(self).steps())).len()
                    == 0,
                None => false,
            }),
            r.clean ==> strings_view(r.divergences@).len() == 0,
            r.divergences@.map_values(|d: String| d@) == match old(self).pre_snapshot() {
                Some(p) => divergences(snapshot_state(p), steps_state(old(self).steps())),
                None => seq![verify::no_prior_message()],
            },
            final(self).last_clean() == r.clean,
            final(self).last_checked_at() == Some(r.checked_at@),
            (match old(self).pre_snapshot() {
                Some(p) => state_all_off(snapshot_state(p)),
                None => false,
            }) && old(self).steps().all_off() ==> r.clean,
    {
        proof {
            if self.inner.pre_activation_snapshot is Some {
                let p = self.inner.pre_activation_snapshot->0;
                if state_all_off(snapshot_state(p)) && self.inner.steps.all_off() {
                    lemma_all_off_state(self.inner.steps);
                    lemma_teardown_of_clean_activation_is_clean(
                        snapshot_state(p),
                        steps_state(self.inner.steps),
                    );
                }
            }
        }
        let post = SystemSnapshot::capture(&self.inner.steps);
        let report = match &self.inner.pre_activation_snapshot {
            Some(pre) => verify::diff(pre, &post),
            None => verify::no_prior_activation(),
        };
        self.inner.last_verification_clean = report.clean;
        self.inner.last_verification = Some(report.dup());
        report
    }
}

/// Turning the tool off leaves nothing behind: when nothing was active and the chain was
/// absent before activation, and everything is stopped and the chain absent after
/// deactivation, the teardown check finds no divergence.
pub proof fn lemma_teardown_of_clean_activation_is_clean(
    pre: (bool, Seq<(Seq<char>, bool)>),
    post: (bool, Seq<(Seq<char>, bool)>),
)
    requires
        state_all_off(pre),
        state_all_off(post),
    ensures
        divergences(pre, post).len() == 0,
{
    lemma_sub_divergences_none(pre.1, post.1);
    assert(divergences(pre, post) =~= verify::sub_divergences(pre.1, post.1));
}

/// The recorded state of steps that are all stopped: no chain, no active domain.
pub proof fn lemma_all_off_state(steps: Steps)
    requires
        steps.all_off(),
    ensures
        state_all_off(steps_state(steps)),
{
    assert(!steps.on(0) && !steps.on(1) && !steps.on(2) && !steps.on(3) && !steps.on(4) && !steps.on(5));
    let st = steps_state(steps);
    assert forall|i: int| 0 <= i < st.1.len() implies !(#[trigger] st.1[i]).1 by {
        assert(i == 0 || i == 1 || i == 2 || i == 3 || i == 4);
    }
}

/// Cutting the tool leaves no residue: when nothing of Vitrail ran before the activation (the
/// state its snapshot records) and every step is stopped after the deactivation, the teardown
/// check finds no divergence.
pub proof fn lemma_cycle_leaves_no_residue(before: Steps, pre: SystemSnapshot, after: Steps)
    requires
        before.all_off(),
        snapshot_state(pre) == steps_state(before),
        after.all_off(),
    ensures
        divergences(snapshot_state(pre), steps_state(after)).len() == 0,
{
    lemma_all_off_state(before);
    lemma_all_off_state(after);
    lemma_teardown_of_clean_activation_is_clean(snapshot_state(pre), steps_state(after));
}

/// An activation of a switch whose domains all succeed turns it on, and reports the kill
/// switch `active` and every one of the six domains `ok`.
pub proof fn lemma_activation_reports_every_step_ok(
    k0: KillSwitchState,
    k1: KillSwitchState,
    s: SystemStatus,
)
    requires
        activation_outcome(k0, k1, s),
        k0.steps().reliable(),
    ensures
        k1.is_on(),
        s.kill_switch_state@ == "active"@,
        s.subsystems@.len() == 6,
        forall|i: int| 0 <= i < 6 ==> (#[trigger] s.subsystems@[i]).status@ == "ok"@,
{
    assert(k1.status_is(s, "active"@, None));
    let v = s.subsystems@.map_values(|e: SubsystemStatus| status_entry_view(e));
    assert(v == entries(k1.steps(), None));
    assert(v.len() == s.subsystems@.len());
    assert forall|i: int| 0 <= i < 6 implies (#[trigger] s.subsystems@[i]).status@ == "ok"@ by {
        assert(v[i] == status_entry_view(s.subsystems@[i]));
        assert(k1.steps().on(i));
        assert(entries(k1.steps(), None)[i].3 == status_label(entry_id(i), true, None));
    }
}

/// Deactivation undoes activation: from a state where nothing of Vitrail runs and whose
/// domains all succeed, an activation followed by a deactivation leaves every step stopped
/// and the chain absent, the teardown check clean, the kill switch `inactive`, and the domains
/// as reliable as before, so that the next cycle starts from the same kind of state.
pub proof fn lemma_deactivation_undoes_activation(
    k0: KillSwitchState,
    k1: KillSwitchState,
    s1: SystemStatus,
    k2: KillSwitchState,
    s2: SystemStatus,
)
    requires
        k0.steps().all_off(),
        k0.steps().reliable(),
        activation_outcome(k0, k1, s1),
        deactivation_outcome(k1, k2, s2),
    ensures
        k2.steps().all_off(),
        k2.steps().reliable(),
        !k2.is_on(),
        k2.last_clean(),
        k2.status_is(s2, "inactive"@, None),
        s2.kill_switch_state@ == "inactive"@,
{
    lemma_all_off_state(k0.steps());
}

/// Any number of activation and deactivation cycles on a switch whose domains all succeed,
/// from a state where nothing of Vitrail runs: every activation reports every domain `ok`,
/// and every deactivation reports `inactive` with every step stopped and a clean check.
pub proof fn lemma_cycles_leave_no_residue(ks: Seq<KillSwitchState>, ss: Seq<SystemStatus>)
    requires
        ks.len() == ss.len() + 1,
        ss.len() % 2 == 0,
        ks[0].steps().all_off(),
        ks[0].steps().reliable(),
        forall|i: int|
            0 <= i < ss.len() && i % 2 == 0 ==> activation_outcome(ks[i], ks[i + 1], #[trigger] ss[i]),
        forall|i: int|
            0 <= i < ss.len() && i % 2 == 1 ==> deactivation_outcome(ks[i], ks[i + 1], #[trigger] ss[i]),
    ensures
        forall|i: int|
            0 <= i < ss.len() && i % 2 == 0 ==> (#[trigger] ss[i]).kill_switch_state@ == "active"@
                && forall|k: int| 0 <= k < 6 ==> (#[trigger] ss[i].subsystems@[k]).status@ == "ok"@,
        forall|i: int|
            0 <= i < ss.len() && i % 2 == 1 ==> (#[trigger] ss[i]).kill_switch_state@ == "inactive"@
                && ks[i + 1].steps().all_off() && ks[i + 1].last_clean(),
    decreases ss.len(),
{
    if ss.len() > 0 {
        let n = ss.len() as int;
        let ks2 = ks.take(n - 1);
        let ss2 = ss.take(n - 2);
        assert forall|i: int| 0 <= i < ss2.len() && i % 2 == 0 implies activation_outcome(
            ks2[i],
            ks2[i + 1],
            #[trigger] ss2[i],
        ) by {
            let x = ss[i];
            assert(activation_outcome(ks[i], ks[i + 1], ss[i]));
        }
        assert forall|i: int| 0 <= i < ss2.len() && i % 2 == 1 implies deactivation_outcome(
            ks2[i],
            ks2[i + 1],
            #[trigger] ss2[i],
        ) by {
            let x = ss[i];
            assert(deactivation_outcome(ks[i], ks[i + 1], ss[i]));
        }
        lemma_cycles_leave_no_residue(ks2, ss2);
        let a = n - 2;
        let x = ss[a];
        let y = ss[a + 1];
        assert(activation_outcome(ks[a], ks[a + 1], ss[a]));
        assert(deactivation_outcome(ks[a + 1], ks[a + 2], ss[a + 1]));
        if a > 0 {
            assert(ss2[a - 1] == ss[a - 1]);
            assert(ks2[a] == ks[a]);
            lemma_reliable_kept(ks, ss, a);
        }
        assert(ks[a].steps().all_off() && ks[a].steps().reliable());
        lemma_activation_reports_every_step_ok(ks[a], ks[a + 1], ss[a]);
        lemma_deactivation_undoes_activation(ks[a], ks[a + 1], ss[a], ks[a + 2], ss[a + 1]);
        assert forall|i: int|
            0 <= i < ss.len() && i % 2 == 0 implies (#[trigger] ss[i]).kill_switch_state@ == "active"@
                && forall|k: int| 0 <= k < 6 ==> (#[trigger] ss[i].subsystems@[k]).status@ == "ok"@ by {
            if i < a {
                assert(ss2[i] == ss[i]);
            }
        }
        assert forall|i: int|
            0 <= i < ss.len() && i % 2 == 1 implies (#[trigger] ss[i]).kill_switch_state@ == "inactive"@
                && ks[i + 1].steps().all_off() && ks[i + 1].last_clean() by {
            if i < a {
                assert(ss2[i] == ss[i]);
                assert(ks2[i + 1] == ks[i + 1]);
            }
        }
    }
}

/// Along the cycles before index `a`, the domains stay reliable and every step ends stopped.
proof fn lemma_reliable_kept(ks: Seq<KillSwitchState>, ss: Seq<SystemStatus>, a: int)
    requires
        ks.len() == ss.len() + 1,
        0 <= a <= ss.len(),
        a % 2 == 0,
        ks[0].steps().all_off(),
        ks[0].steps().reliable(),
        forall|i: int|
            0 <= i < ss.len() && i % 2 == 0 ==> activation_outcome(ks[i], ks[i + 1], #[trigger] ss[i]),
        forall|i: int|
            0 <= i < ss.len() && i % 2 == 1 ==> deactivation_outcome(ks[i], ks[i + 1], #[trigger] ss[i]),
    ensures
        ks[a].steps().all_off(),
        ks[a].steps().reliable(),
    decreases a,
{
    if a > 0 {
        lemma_reliable_kept(ks, ss, a - 2);
        let x = ss[a - 2];
        let y = ss[a - 1];
        assert(activation_outcome(ks[a - 2], ks[a - 1], ss[a - 2]));
        assert(deactivation_outcome(ks[a - 1], ks[a], ss[a - 1]));
        lemma_deactivation_undoes_activation(ks[a - 2], ks[a - 1], ss[a - 2], ks[a], ss[a - 1]);
    }
}

/// The switch is on after any sequence of calls exactly when the last call that turns it on
/// or off was an activation that started every domain; with domains that all succeed, exactly
/// when that last call was an activation. The domains stay as reliable as they were. (The
/// status reports `active` exactly when the switch is on: see `current_status`.)
pub proof fn lemma_status_follows_calls(ks: Seq<KillSwitchState>, calls: Seq<SwitchCall>)
    requires
        ks.len() == calls.len() + 1,
        !ks[0].is_on(),
        forall|i: int| 0 <= i < calls.len() ==> call_outcome(#[trigger] calls[i], ks[i], ks[i + 1]),
    ensures
        ks.last().is_on() <==> exists|i: int|
            #[trigger] last_switch_is_activation(calls, i) && ks[i + 1].is_on(),
        ks.last().steps().reliable() == ks[0].steps().reliable(),
        ks[0].steps().reliable() ==> (ks.last().is_on() <==> exists|i: int|
            #[trigger] last_switch_is_activation(calls, i)),
    decreases calls.len(),
{
    let n = calls.len() as int;
    if n == 0 {
        assert forall|i: int| !#[trigger] last_switch_is_activation(calls, i) by {}
    } else {
        let ks2 = ks.take(n);
        let c2 = calls.take(n - 1);
        assert forall|i: int| 0 <= i < c2.len() implies call_outcome(#[trigger] c2[i], ks2[i], ks2[i + 1]) by {
            let x = calls[i];
            assert(call_outcome(calls[i], ks[i], ks[i + 1]));
        }
        lemma_status_follows_calls(ks2, c2);
        assert(ks2.last() == ks[n - 1]);
        let last = calls[n - 1];
        assert(call_outcome(calls[n - 1], ks[n - 1], ks[n]));
        assert(ks.last() == ks[n]);
        match calls[n - 1] {
            SwitchCall::Activate => {
                let s = choose|s: SystemStatus| #[trigger] activation_outcome(ks[n - 1], ks[n], s);
                assert(last_switch_is_activation(calls, n - 1));
                assert forall|i: int| #[trigger] last_switch_is_activation(calls, i) implies i == n - 1 by {}
                if ks[n].is_on() {
                    assert(last_switch_is_activation(calls, n - 1) && ks[n - 1 + 1].is_on());
                }
            },
            SwitchCall::Deactivate => {
                let s = choose|s: SystemStatus| #[trigger] deactivation_outcome(ks[n - 1], ks[n], s);
                assert forall|i: int| !#[trigger] last_switch_is_activation(calls, i) by {
                    if 0 <= i < n - 1 {
                        assert(!(calls[n - 1] is VerifyTeardown));
                    }
                }
            },
            SwitchCall::EmergencyStop => {
                let s = choose|s: SystemStatus| #[trigger] emergency_outcome(ks[n - 1], ks[n], s);
                assert forall|i: int| !#[trigger] last_switch_is_activation(calls, i) by {
                    if 0 <= i < n - 1 {
                        assert(!(calls[n - 1] is VerifyTeardown));
                    }
                }
            },
            SwitchCall::VerifyTeardown => {
                assert forall|i: int| #[trigger] last_switch_is_activation(calls, i) <==> (i < n - 1
                    && last_switch_is_activation(c2, i)) by {
                    if 0 <= i < n - 1 {
                        assert forall|j: int| i < j < n - 1 implies (#[trigger] calls[j] is VerifyTeardown
                            <==> c2[j] is VerifyTeardown) by {
                            assert(c2[j] == calls[j]);
                        }
                        assert(c2[i] == calls[i]);
                    }
                }
                assert forall|i: int| 0 <= i < n - 1 implies #[trigger] ks2[i + 1] == ks[i + 1] by {}
                if ks[n].is_on() {
                    let i = choose|i: int| #[trigger] last_switch_is_activation(c2, i) && ks2[i + 1].is_on();
                    assert(last_switch_is_activation(calls, i) && ks[i + 1].is_on());
                }
                if ks[0].steps().reliable() && ks[n].is_on() {
                    let i = choose|i: int| #[trigger] last_switch_is_activation(c2, i);
                    assert(last_switch_is_activation(calls, i));
                }
                if exists|i: int| #[trigger] last_switch_is_activation(calls, i) {
                    let i = choose|i: int| #[trigger] last_switch_is_activation(calls, i);
                    assert(last_switch_is_activation(c2, i));
                }
            },
        }
    }
}

proof fn lemma_was_active_false(pre: Seq<(Seq<char>, bool)>, name: Seq<char>)
    requires
        forall|i: int| 0 <= i < pre.len() ==> !(#[trigger] pre[i]).1,
    ensures
        !verify::was_active(pre, name),
    decreases pre.len(),
{
    if pre.len() > 0 && pre[0].0 != name {
        assert forall|i: int| 0 <= i < pre.drop_first().len() implies !(
        #[trigger] pre.drop_first()[i]).1 by {
            assert(pre.drop_first()[i] == pre[i + 1]);
        }
        lemma_was_active_false(pre.drop_first(), name);
    }
}

proof fn lemma_sub_divergences_none(pre: Seq<(Seq<char>, bool)>, post: Seq<(Seq<char>, bool)>)
    requires
        forall|i: int| 0 <= i < pre.len() ==> !(#[trigger] pre[i]).1,
        forall|i: int| 0 <= i < post.len() ==> !(#[trigger] post[i]).1,
    ensures
        verify::sub_divergences(pre, post).len() == 0,
    decreases post.len(),
{
    if post.len() > 0 {
        assert forall|i: int| 0 <= i < post.drop_last().len() implies !(
        #[trigger] post.drop_last()[i]).1 by {
            assert(post.drop_last()[i] == post[i]);
        }
        lemma_sub_divergences_none(pre, post.drop_last());
        lemma_was_active_false(pre, post.last().0);
        assert(!post.last().1);
    }
}

} // verus!
