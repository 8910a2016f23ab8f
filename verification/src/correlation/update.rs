//! Late decrypted content for a connection whose flow was already emitted: the flow is
//! enriched in place, never duplicated.

use vstd::prelude::*;

use crate::attribution::FiveTuple;
use crate::clock::now_unix;
use crate::keylog::DecryptedFragment;
use crate::shared::{
    cert_opt_view, headers_view, opt_view, sources_view, CorrelationSource, Flow, FlowView,
    FlowVisibility,
};
use crate::storage::flows::{find_recent_by_five_tuple, flow_rows, latest_match, update_flow, same_except_flows};
use crate::storage::StorageHandle;
use crate::text::{owned, str_eq};

use super::builder::DecryptionContent;

verus! {

/// How far back (seconds) an emitted flow is looked for: wider than the correlation window,
/// since tshark may finish after several sweeps.
pub const RECENT_FLOW_WINDOW_SECS: i64 = 30;

pub open spec fn keylog_detail_late() -> Seq<char> {
    "Fragment déchiffré reçu via tshark (SSLKEYLOGFILE), enrichi a posteriori"@
}

/// The source entries with the key log marked as the provider of the content.
pub open spec fn mark_keylog(s: Seq<(Seq<char>, Seq<char>, Seq<char>)>) -> Seq<
    (Seq<char>, Seq<char>, Seq<char>),
> {
    Seq::new(
        s.len(),
        |i: int|
            if s[i].0 == "Keylog"@ {
                (s[i].0, "ok"@, keylog_detail_late())
            } else {
                s[i]
            },
    )
}

/// A flow enriched with decrypted content: fully visible, the decrypted host (when there is
/// one) as destination, the exchange's fields from the fragment; identity, process and
/// network fields unchanged.
pub open spec fn enrich(f: FlowView, d: DecryptedFragment) -> FlowView {
    FlowView {
        visibility: FlowVisibility::Fully,
        destination: match d.host {
            Some(h) => h@,
            None => f.destination,
        },
        method: opt_view(d.method),
        path: opt_view(d.path),
        status: d.status,
        request_headers: headers_view(d.request_headers@),
        response_headers: headers_view(d.response_headers@),
        body_preview: opt_view(d.body_preview),
        content_type: opt_view(d.content_type),
        certificate: cert_opt_view(d.certificate),
        sources: mark_keylog(f.sources),
        ..f
    }
}

fn mark_keylog_source_ok(sources: &mut Vec<CorrelationSource>)
    ensures
        sources_view(final(sources)@) == mark_keylog(sources_view(old(sources)@)),
{
    let ghost before = sources_view(sources@);
    let mut out: Vec<CorrelationSource> = Vec::new();
    let mut i: usize = 0;
    while i < sources.len()
        invariant
            before == sources_view(sources@),
            0 <= i <= sources@.len(),
            out@.len() == i,
            forall|k: int|
                0 <= k < i ==> sources_view(out@)[k] == mark_keylog(before)[k],
        decreases sources@.len() - i,
    {
        let s = &sources[i];
        let entry = if str_eq(s.name.as_str(), "Keylog") {
            CorrelationSource {
                name: s.name.clone(),
                status: owned("ok"),
                detail: owned("Fragment déchiffré reçu via tshark (SSLKEYLOGFILE), enrichi a posteriori"),
            }
        } else {
            CorrelationSource { name: s.name.clone(), status: s.status.clone(), detail: s.detail.clone() }
        };
        let ghost prev = out@;
        out.push(entry);
        proof {
            assert forall|k: int| 0 <= k <= i implies sources_view(out@)[k] == mark_keylog(before)[k] by {
                if k < i {
                    assert(out@[k] == prev[k]);
                }
            }
        }
        i += 1;
    }
    assert(sources_view(out@) =~= mark_keylog(before));
    *sources = out;
}

/// Puts the decrypted content of `fragment` into `flow`.
pub fn apply_decryption(flow: &mut Flow, fragment: &DecryptedFragment)
    ensures
        final(flow)@ == enrich(old(flow)@, *fragment),
{
    let content = DecryptionContent::from_fragment(fragment);
    flow.visibility = FlowVisibility::Fully;
    if let Some(host) = content.host {
        flow.destination = host;
    }
    flow.method = content.method;
    flow.path = content.path;
    flow.status = content.status;
    flow.request_headers = content.request_headers;
    flow.response_headers = content.response_headers;
    flow.body_preview = content.body_preview;
    flow.content_type = content.content_type;
    flow.certificate = content.certificate;
    mark_keylog_source_ok(&mut flow.sources);
    assert(flow@ =~= enrich(old(flow)@, *fragment));
}

/// The most recent flow of the connection recorded in the enrichment window before `now`.
pub open spec fn emitted_match(s: StorageHandle, t: FiveTuple, now: nat) -> Option<int> {
    let rows = flow_rows(s);
    let v = t@;
    latest_match(
        rows,
        v.dst_ip,
        v.dst_port,
        v.src_ip,
        v.src_port,
        RECENT_FLOW_WINDOW_SECS as int,
        now as int,
        rows.len() as int,
    )
}

/// The flows table after the flow `f` replaced every row with its identifier.
pub open spec fn replaced(rows: Seq<(FlowView, u64)>, f: FlowView) -> Seq<(FlowView, u64)> {
    Seq::new(
        rows.len(),
        |i: int|
            if rows[i].0.id == f.id {
                (f, rows[i].1)
            } else {
                rows[i]
            },
    )
}

/// What an enrichment attempt does: when a flow of the connection was recorded in the window
/// before `now`, the most recent one is enriched, rewritten in place and returned; otherwise
/// nothing changes.
pub open spec fn enriched(
    before: StorageHandle,
    after: StorageHandle,
    t: FiveTuple,
    d: DecryptedFragment,
    now: nat,
    r: Option<Flow>,
) -> bool {
    match emitted_match(before, t, now) {
        Some(i) => {
            &&& r matches Some(f) && f@ == enrich(flow_rows(before)[i].0, d)
            &&& flow_rows(after) == replaced(flow_rows(before), r->0@)
            &&& same_except_flows(after, before)
        },
        None => r is None && after == before,
    }
}

/// Looks for the flow already emitted for `five_tuple` (by addresses and ports: the flow's
/// protocol is the detected application protocol, not the transport) and enriches it.
pub fn try_enrich_already_emitted_at(
    five_tuple: &FiveTuple,
    fragment: &DecryptedFragment,
    storage: &mut StorageHandle,
    now: u64,
) -> (r: Option<Flow>)
    ensures
        enriched(*old(storage), *final(storage), *five_tuple, *fragment, now as nat, r),
{
    let existing = find_recent_by_five_tuple(
        storage,
        five_tuple.dst_ip.as_str(),
        five_tuple.dst_port,
        five_tuple.src_ip.as_str(),
        five_tuple.src_port,
        RECENT_FLOW_WINDOW_SECS,
        now,
    );
    match existing {
        Ok(Some(found)) => {
            let mut flow = found;
            apply_decryption(&mut flow, fragment);
            let ghost before = flow_rows(*storage);
            let _ = update_flow(storage, &flow);
            assert(flow_rows(*storage) =~= replaced(before, flow@));
            Some(flow)
        },
        _ => None,
    }
}

/// Looks for the flow already emitted for `five_tuple` in the window before the current time
/// and enriches it.
pub fn try_enrich_already_emitted(
    five_tuple: &FiveTuple,
    fragment: &DecryptedFragment,
    storage: &mut StorageHandle,
) -> (r: Option<Flow>)
    ensures
        exists|now: nat| #[trigger] enriched(*old(storage), *final(storage), *five_tuple, *fragment, now, r),
{
    try_enrich_already_emitted_at(five_tuple, fragment, storage, now_unix())
}

} // verus!
