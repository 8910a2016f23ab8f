//! The flows table: what correlation emitted, most recent last.

use vstd::prelude::*;

use super::{StorageError, StorageHandle, StoredFlow};
use crate::shared::{Flow, FlowView};
use crate::text::str_eq;

verus! {

/// The flows table as `(flow, recorded_at)` pairs in insertion order.
pub open spec fn flow_rows(s: StorageHandle) -> Seq<(FlowView, u64)> {
    s.flows@.map_values(|r: StoredFlow| (r.flow@, r.recorded_at))
}

/// Every table but the flows table is the same in both stores.
pub open spec fn same_except_flows(a: StorageHandle, b: StorageHandle) -> bool {
    &&& a.system_events == b.system_events
    &&& a.exclusions == b.exclusions
    &&& a.ca == b.ca
    &&& a.keylog_apps == b.keylog_apps
    &&& a.origin_sockets == b.origin_sockets
    &&& a.capture_packets == b.capture_packets
    &&& a.pinning_events == b.pinning_events
}

/// Records a flow at time `recorded_at` (Unix seconds).
pub fn insert_flow(storage: &mut StorageHandle, flow: &Flow, recorded_at: u64) -> (r: Result<
    (),
    StorageError,
>)
    ensures
        r is Ok,
        flow_rows(*final(storage)) == flow_rows(*old(storage)).push((flow@, recorded_at)),
        same_except_flows(*final(storage), *old(storage)),
{
    let row = StoredFlow { flow: flow.dup(), recorded_at };
    let ghost before = storage.flows@;
    storage.flows.push(row);
    assert(storage.flows@.map_values(|r: StoredFlow| (r.flow@, r.recorded_at)) =~= before.map_values(
        |r: StoredFlow| (r.flow@, r.recorded_at),
    ).push((flow@, recorded_at)));
    Ok(())
}

/// The `limit` most recent flows, most recent first.
pub open spec fn recent(rows: Seq<(FlowView, u64)>, limit: nat) -> Seq<FlowView> {
    let n = if rows.len() < limit {
        rows.len()
    } else {
        limit
    };
    Seq::new(n, |i: int| rows[rows.len() - 1 - i].0)
}

pub fn list_flows(storage: &StorageHandle, limit: u32) -> (r: Result<Vec<Flow>, StorageError>)
    ensures
        r matches Ok(v) && v@.map_values(|f: Flow| f@) == recent(flow_rows(*storage), limit as nat),
{
    let n = storage.flows.len();
    let mut out: Vec<Flow> = Vec::new();
    let mut i: usize = 0;
    let ghost rows = flow_rows(*storage);
    while i < n && (i as u64) < (limit as u64)
        invariant
            n == storage.flows@.len(),
            rows == flow_rows(*storage),
            0 <= i <= n,
            i <= limit,
            out@.len() == i,
            forall|k: int| 0 <= k < i ==> (#[trigger] out@[k])@ == rows[n - 1 - k].0,
        decreases n - i,
    {
        let f = storage.flows[n - 1 - i].flow.dup();
        out.push(f);
        i += 1;
    }
    assert(out@.map_values(|f: Flow| f@) =~= recent(rows, limit as nat));
    Ok(out)
}

/// Whether row `i` holds the flow with identifier `id`.
pub open spec fn has_id(rows: Seq<(FlowView, u64)>, i: int, id: Seq<char>) -> bool {
    0 <= i < rows.len() && rows[i].0.id == id
}

/// The most recent flow with the given identifier.
pub fn get_flow(storage: &StorageHandle, id: &str) -> (r: Result<Option<Flow>, StorageError>)
    ensures
        r is Ok,
        r matches Ok(Some(f)) ==> exists|i: int|
            has_id(flow_rows(*storage), i, id@) && f@ == flow_rows(*storage)[i].0 && forall|j: int|
                i < j < flow_rows(*storage).len() ==> !has_id(flow_rows(*storage), j, id@),
        r matches Ok(None) ==> forall|i: int| !has_id(flow_rows(*storage), i, id@),
{
    let ghost rows = flow_rows(*storage);
    let mut i: usize = storage.flows.len();
    while i > 0
        invariant
            rows == flow_rows(*storage),
            0 <= i <= rows.len(),
            forall|j: int| i <= j < rows.len() ==> !has_id(rows, j, id@),
        decreases i,
    {
        if str_eq(storage.flows[i - 1].flow.id.as_str(), id) {
            let f = storage.flows[i - 1].flow.dup();
            assert(rows[i - 1] == (storage.flows@[i - 1].flow@, storage.flows@[i - 1].recorded_at));
            assert(has_id(rows, i - 1, id@));
            return Ok(Some(f));
        }
        i -= 1;
    }
    Ok(None)
}

/// Whether row `i` is a flow of the given 4-tuple recorded no more than `window` seconds
/// before `now`.
pub open spec fn recent_match(
    rows: Seq<(FlowView, u64)>,
    i: int,
    dst_ip: Seq<char>,
    dst_port: u16,
    src_ip: Seq<char>,
    src_port: u16,
    window: int,
    now: int,
) -> bool {
    &&& 0 <= i < rows.len()
    &&& rows[i].0.ip == dst_ip
    &&& rows[i].0.port == dst_port
    &&& rows[i].0.source_ip == src_ip
    &&& rows[i].0.source_port == src_port
    &&& now - rows[i].1 <= window
}

/// The last of the first `n` rows that `recent_match` accepts.
pub open spec fn latest_match(
    rows: Seq<(FlowView, u64)>,
    dst_ip: Seq<char>,
    dst_port: u16,
    src_ip: Seq<char>,
    src_port: u16,
    window: int,
    now: int,
    n: int,
) -> Option<int>
    decreases n,
{
    if n <= 0 {
        None
    } else if recent_match(rows, n - 1, dst_ip, dst_port, src_ip, src_port, window, now) {
        Some(n - 1)
    } else {
        latest_match(rows, dst_ip, dst_port, src_ip, src_port, window, now, n - 1)
    }
}

/// The most recent flow of the given destination and source recorded in the last
/// `window_secs` seconds before `now`.
pub fn find_recent_by_five_tuple(
    storage: &StorageHandle,
    dst_ip: &str,
    dst_port: u16,
    src_ip: &str,
    src_port: u16,
    window_secs: i64,
    now: u64,
) -> (r: Result<Option<Flow>, StorageError>)
    ensures
        ({
            let rows = flow_rows(*storage);
            match latest_match(
                rows,
                dst_ip@,
                dst_port,
                src_ip@,
                src_port,
                window_secs as int,
                now as int,
                rows.len() as int,
            ) {
                Some(i) => match r {
                    Ok(Some(f)) => f@ == rows[i].0,
                    _ => false,
                },
                None => r matches Ok(None),
            }
        }),
{
    let ghost rows = flow_rows(*storage);
    let ghost target = latest_match(
        rows,
        dst_ip@,
        dst_port,
        src_ip@,
        src_port,
        window_secs as int,
        now as int,
        rows.len() as int,
    );
    let mut i: usize = storage.flows.len();
    while i > 0
        invariant
            rows == flow_rows(*storage),
            0 <= i <= rows.len(),
            target == latest_match(
                rows,
                dst_ip@,
                dst_port,
                src_ip@,
                src_port,
                window_secs as int,
                now as int,
                rows.len() as int,
            ),
            target == latest_match(
                rows,
                dst_ip@,
                dst_port,
                src_ip@,
                src_port,
                window_secs as int,
                now as int,
                i as int,
            ),
        decreases i,
    {
        let row = &storage.flows[i - 1];
        assert(rows[i - 1] == (storage.flows@[i - 1].flow@, storage.flows@[i - 1].recorded_at));
        let age_ok = (now as i128) - (row.recorded_at as i128) <= (window_secs as i128);
        if age_ok && str_eq(row.flow.ip.as_str(), dst_ip) && row.flow.port == dst_port && str_eq(
            row.flow.source_ip.as_str(),
            src_ip,
        ) && row.flow.source_port == src_port {
            let f = row.flow.dup();
            assert(recent_match(
                rows,
                i - 1,
                dst_ip@,
                dst_port,
                src_ip@,
                src_port,
                window_secs as int,
                now as int,
            ));

            return Ok(Some(f));
        }
        i -= 1;
    }
    Ok(None)
}

/// Replaces every recorded flow that has the identifier of `flow` (its record time is kept).
pub fn update_flow(storage: &mut StorageHandle, flow: &Flow) -> (r: Result<(), StorageError>)
    ensures
        r is Ok,
        flow_rows(*final(storage)).len() == flow_rows(*old(storage)).len(),
        forall|i: int|
            0 <= i < flow_rows(*old(storage)).len() ==> #[trigger] flow_rows(*final(storage))[i]
                == (if flow_rows(*old(storage))[i].0.id == flow@.id {
                (flow@, flow_rows(*old(storage))[i].1)
            } else {
                flow_rows(*old(storage))[i]
            }),
        same_except_flows(*final(storage), *old(storage)),
{
    let ghost before = flow_rows(*storage);
    let n = storage.flows.len();
    let mut rows: Vec<StoredFlow> = Vec::new();
    let mut i: usize = 0;
    while i < n
        invariant
            n == storage.flows@.len(),
            before == flow_rows(*storage),
            0 <= i <= n,
            rows@.len() == i,
            forall|k: int|
                0 <= k < i ==> ((#[trigger] rows@[k]).flow@, rows@[k].recorded_at) == (if before[k].0.id
                    == flow@.id {
                    (flow@, before[k].1)
                } else {
                    before[k]
                }),
        decreases n - i,
    {
        let row = &storage.flows[i];
        let replaced = if str_eq(row.flow.id.as_str(), flow.id.as_str()) {
            StoredFlow { flow: flow.dup(), recorded_at: row.recorded_at }
        } else {
            StoredFlow { flow: row.flow.dup(), recorded_at: row.recorded_at }
        };
        rows.push(replaced);
        i += 1;
    }
    storage.flows = rows;
    Ok(())
}

} // verus!
