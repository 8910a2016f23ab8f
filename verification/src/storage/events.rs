//! The system event journal and the capture packet table.

use vstd::prelude::*;

use super::{CapturePacketRecord, StorageError, StorageHandle, SystemEventRow};
use crate::clock::now_unix;

verus! {

pub open spec fn event_view(r: SystemEventRow) -> (i64, Seq<char>, Seq<char>) {
    (r.timestamp_unix, r.label@, r.snapshot_json@)
}

pub open spec fn event_rows(s: StorageHandle) -> Seq<(i64, Seq<char>, Seq<char>)> {
    s.system_events@.map_values(|r: SystemEventRow| event_view(r))
}

/// Every table but the event journal is the same in both stores.
pub open spec fn same_except_events(a: StorageHandle, b: StorageHandle) -> bool {
    &&& a.flows == b.flows
    &&& a.exclusions == b.exclusions
    &&& a.ca == b.ca
    &&& a.keylog_apps == b.keylog_apps
    &&& a.origin_sockets == b.origin_sockets
    &&& a.capture_packets == b.capture_packets
    &&& a.pinning_events == b.pinning_events
}

/// Appends an event to the journal with the given timestamp.
pub fn record_system_event_at(
    storage: &mut StorageHandle,
    label: &str,
    snapshot_json: &str,
    timestamp_unix: i64,
) -> (r: Result<(), StorageError>)
    ensures
        r is Ok,
        event_rows(*final(storage)) == event_rows(*old(storage)).push(
            (timestamp_unix, label@, snapshot_json@),
        ),
        same_except_events(*final(storage), *old(storage)),
{
    let ghost before = storage.system_events@;
    storage.system_events.push(
        SystemEventRow {
            timestamp_unix,
            label: label.to_owned(),
            snapshot_json: snapshot_json.to_owned(),
        },
    );
    assert(event_rows(*storage) =~= before.map_values(|r: SystemEventRow| event_view(r)).push(
        (timestamp_unix, label@, snapshot_json@),
    ));
    Ok(())
}

/// Appends an event to the journal, stamped with the current time.
pub fn record_system_event(storage: &mut StorageHandle, label: &str, snapshot_json: &str) -> (r:
    Result<(), StorageError>)
    ensures
        r is Ok,
        event_rows(*final(storage)).len() == event_rows(*old(storage)).len() + 1,
        event_rows(*final(storage)).drop_last() == event_rows(*old(storage)),
        event_rows(*final(storage)).last().1 == label@,
        event_rows(*final(storage)).last().2 == snapshot_json@,
        same_except_events(*final(storage), *old(storage)),
{
    let now = now_unix();
    let ts: i64 = if now <= i64::MAX as u64 {
        now as i64
    } else {
        i64::MAX
    };
    let r = record_system_event_at(storage, label, snapshot_json, ts);
    assert(event_rows(*storage).drop_last() =~= event_rows(*old(storage)));
    r
}

/// The `limit` most recent events, most recent first.
pub open spec fn recent_events(rows: Seq<(i64, Seq<char>, Seq<char>)>, limit: nat) -> Seq<
    (i64, Seq<char>, Seq<char>),
> {
    let n = if rows.len() < limit {
        rows.len()
    } else {
        limit
    };
    Seq::new(n, |i: int| rows[rows.len() - 1 - i])
}

pub fn list_system_events(storage: &StorageHandle, limit: u32) -> (r: Result<
    Vec<SystemEventRow>,
    StorageError,
>)
    ensures
        r matches Ok(v) && v@.map_values(|e: SystemEventRow| event_view(e)) == recent_events(
            event_rows(*storage),
            limit as nat,
        ),
{
    let n = storage.system_events.len();
    let ghost rows = event_rows(*storage);
    let mut out: Vec<SystemEventRow> = Vec::new();
    let mut i: usize = 0;
    while i < n && (i as u64) < (limit as u64)
        invariant
            n == storage.system_events@.len(),
            rows == event_rows(*storage),
            0 <= i <= n,
            i <= limit,
            out@.len() == i,
            forall|k: int| 0 <= k < i ==> event_view(#[trigger] out@[k]) == rows[n - 1 - k],
        decreases n - i,
    {
        let e = &storage.system_events[n - 1 - i];
        out.push(
            SystemEventRow {
                timestamp_unix: e.timestamp_unix,
                label: e.label.clone(),
                snapshot_json: e.snapshot_json.clone(),
            },
        );
        i += 1;
    }
    assert(out@.map_values(|e: SystemEventRow| event_view(e)) =~= recent_events(
        rows,
        limit as nat,
    ));
    Ok(out)
}

/// Appends a captured packet.
pub fn record_capture_packet(storage: &mut StorageHandle, record: CapturePacketRecord) -> (r:
    Result<(), StorageError>)
    ensures
        r is Ok,
        final(storage).capture_packets@ == old(storage).capture_packets@.push(record),
        final(storage).flows == old(storage).flows,
        final(storage).system_events == old(storage).system_events,
{
    storage.capture_packets.push(record);
    Ok(())
}

} // verus!
