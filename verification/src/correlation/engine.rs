//! The correlation buffer: fragments wait under their connection's key until the sources
//! that make a flow have all reported, or until the correlation window has passed. Each
//! connection yields one flow, never two.

use vstd::prelude::*;

use crate::attribution::{FiveTuple, TupleView};
use crate::clock::now_unix_ms;
use crate::shared::{Flow, FlowView};
use crate::storage::flows::{flow_rows, insert_flow, same_except_flows};
use crate::storage::StorageHandle;

use super::builder::{build_flow_at, flow_of, PendingFlow, PendingView};
use super::event::{event_five_tuple, key_of, CorrelationEvent};
use super::update::{emitted_match, enriched, try_enrich_already_emitted_at};

verus! {

/// How long (milliseconds) fragments of one connection wait for each other: capture and
/// attribution never report at exactly the same time.
pub const CORRELATION_WINDOW_MS: u64 = 5000;

/// No two pending entries share a key.
pub open spec fn distinct_keys(s: Seq<PendingView>) -> bool {
    forall|i: int, j: int| 0 <= i < j < s.len() ==> (#[trigger] s[i]).key != (#[trigger] s[j]).key
}

pub open spec fn has_key(s: Seq<PendingView>, k: TupleView) -> bool {
    exists|i: int| 0 <= i < s.len() && (#[trigger] s[i]).key == k
}

/// The position of the entry with key `k` (meaningful when there is one).
pub open spec fn key_index(s: Seq<PendingView>, k: TupleView) -> int {
    choose|i: int| 0 <= i < s.len() && (#[trigger] s[i]).key == k
}

/// A pending connection with one more fragment.
pub open spec fn apply_event(p: PendingView, e: CorrelationEvent) -> PendingView {
    match e {
        CorrelationEvent::Capture(c) => PendingView { capture: Some(c), ..p },
        CorrelationEvent::Attribution(a) => PendingView { attribution: Some(a), ..p },
        CorrelationEvent::Decryption(d) => PendingView { decryption: Some(d), ..p },
    }
}

/// A connection is complete when decrypted content arrived, or when both capture and
/// attribution did.
pub open spec fn ready(p: PendingView) -> bool {
    p.decryption is Some || (p.capture is Some && p.attribution is Some)
}

/// The pending entry of key `k` once event `e` is added: the existing entry of that key, or
/// a new one first seen at `now_ms`.
pub open spec fn merged(s: Seq<PendingView>, k: TupleView, e: CorrelationEvent, now_ms: u64) -> PendingView {
    let base = if has_key(s, k) {
        s[key_index(s, k)]
    } else {
        PendingView { key: k, capture: None, attribution: None, decryption: None, first_seen_ms: now_ms }
    };
    apply_event(base, e)
}

/// The buffer without the entry of key `k`.
pub open spec fn without_key(s: Seq<PendingView>, k: TupleView) -> Seq<PendingView> {
    if has_key(s, k) {
        s.remove(key_index(s, k))
    } else {
        s
    }
}

/// The buffer with `m` as the entry of key `k` (in place, or last when new).
pub open spec fn with_entry(s: Seq<PendingView>, k: TupleView, m: PendingView) -> Seq<PendingView> {
    if has_key(s, k) {
        s.update(key_index(s, k), m)
    } else {
        s.push(m)
    }
}

/// A decrypted fragment for a connection that is not pending but whose flow was recorded in
/// the enrichment window: it enriches that flow.
pub open spec fn late(s: Seq<PendingView>, store: StorageHandle, e: CorrelationEvent, now_secs: nat) -> bool {
    match e {
        CorrelationEvent::Decryption(d) => !has_key(s, d.five_tuple@) && emitted_match(
            store,
            d.five_tuple,
            now_secs,
        ) is Some,
        _ => false,
    }
}

/// The successor of a sequence number, wrapping to 0.
pub open spec fn wrap_inc(q: u64) -> u64 {
    if q == u64::MAX {
        0
    } else {
        (q + 1) as u64
    }
}

/// What one report does at time `now_ms`: a report without a key changes nothing; a late
/// decrypted fragment enriches the flow already recorded; otherwise the fragment joins its
/// connection's entry, which is emitted as a flow (recorded, numbered `q0`) once complete.
pub open spec fn ingested(
    b0: Seq<PendingView>,
    b1: Seq<PendingView>,
    s0: StorageHandle,
    s1: StorageHandle,
    q0: u64,
    q1: u64,
    e: CorrelationEvent,
    now_ms: u64,
    r: Option<Flow>,
) -> bool {
    let now_secs = (now_ms / 1000) as u64;
    match key_of(e) {
        None => b1 == b0 && s1 == s0 && q1 == q0 && r is None,
        Some(k) => if late(b0, s0, e, now_secs as nat) {
            &&& b1 == b0
            &&& q1 == q0
            &&& e matches CorrelationEvent::Decryption(d) && enriched(
                s0,
                s1,
                d.five_tuple,
                d,
                now_secs as nat,
                r,
            )
        } else {
            let m = merged(b0, k, e, now_ms);
            if ready(m) {
                &&& b1 == without_key(b0, k)
                &&& q1 == wrap_inc(q0)
                &&& r matches Some(f) && f@ == flow_of(m, q0, now_secs as nat)
                &&& flow_rows(s1) == flow_rows(s0).push((r->0@, now_secs))
                &&& same_except_flows(s1, s0)
            } else {
                &&& b1 == with_entry(b0, k, m)
                &&& q1 == q0
                &&& s1 == s0
                &&& r is None
            }
        },
    }
}

/// An entry is expired once the window has passed since its first fragment.
pub open spec fn expired(p: PendingView, now_ms: u64) -> bool {
    now_ms as int - p.first_seen_ms as int >= CORRELATION_WINDOW_MS as int
}

/// The entries that a sweep at `now_ms` keeps, in order.
pub open spec fn kept(s: Seq<PendingView>, now_ms: u64) -> Seq<PendingView>
    decreases s.len(),
{
    if s.len() == 0 {
        s
    } else if expired(s.last(), now_ms) {
        kept(s.drop_last(), now_ms)
    } else {
        kept(s.drop_last(), now_ms).push(s.last())
    }
}

/// How many entries a sweep at `now_ms` emits.
pub open spec fn gone_count(s: Seq<PendingView>, now_ms: u64) -> nat
    decreases s.len(),
{
    if s.len() == 0 {
        0
    } else if expired(s.last(), now_ms) {
        gone_count(s.drop_last(), now_ms) + 1
    } else {
        gone_count(s.drop_last(), now_ms)
    }
}

/// The sequence number `n` steps after `q`.
pub open spec fn seq_after(q: u64, n: nat) -> u64
    decreases n,
{
    if n == 0 {
        q
    } else {
        wrap_inc(seq_after(q, (n - 1) as nat))
    }
}

/// The flows that a sweep at `now_ms` emits, in buffer order, numbered from `q0`.
pub open spec fn swept_flows(s: Seq<PendingView>, now_ms: u64, q0: u64) -> Seq<FlowView>
    decreases s.len(),
{
    if s.len() == 0 {
        Seq::empty()
    } else if expired(s.last(), now_ms) {
        swept_flows(s.drop_last(), now_ms, q0).push(
            flow_of(
                s.last(),
                seq_after(q0, gone_count(s.drop_last(), now_ms)),
                (now_ms / 1000) as nat,
            ),
        )
    } else {
        swept_flows(s.drop_last(), now_ms, q0)
    }
}

pub open spec fn flows_view(v: Seq<Flow>) -> Seq<FlowView> {
    v.map_values(|f: Flow| f@)
}

/// Flows as rows of the flows table, recorded at `t`.
pub open spec fn rows_at(fs: Seq<FlowView>, t: u64) -> Seq<(FlowView, u64)> {
    fs.map_values(|f: FlowView| (f, t))
}

/// The connections waiting for their other sources.
pub struct CorrelationBuffer {
    entries: Vec<PendingFlow>,
}

impl CorrelationBuffer {
    pub closed spec fn entries(&self) -> Seq<PendingView> {
        self.entries@.map_values(|p: PendingFlow| p@)
    }

    /// At most one entry per connection.
    pub open spec fn wf(&self) -> bool {
        distinct_keys(self.entries())
    }

    pub fn new() -> (b: CorrelationBuffer)
        ensures
            b.entries() == Seq::<PendingView>::empty(),
            b.wf(),
    {
        let b = CorrelationBuffer { entries: Vec::new() };
        assert(b.entries() =~= Seq::<PendingView>::empty());
        b
    }

    pub fn len(&self) -> (n: usize)
        ensures
            n == self.entries().len(),
    {
        self.entries.len()
    }

    pub fn is_empty(&self) -> (b: bool)
        ensures
            b == (self.entries().len() == 0),
    {
        self.entries.len() == 0
    }

    fn index_of(&self, key: &FiveTuple) -> (r: Option<usize>)
        requires
            self.wf(),
        ensures
            match r {
                Some(i) => i < self.entries().len() && i == key_index(self.entries(), key@)
                    && has_key(self.entries(), key@),
                None => !has_key(self.entries(), key@),
            },
    {
        let ghost s = self.entries();
        let mut i: usize = 0;
        while i < self.entries.len()
            invariant
                s == self.entries(),
                distinct_keys(s),
                0 <= i <= self.entries@.len(),
                forall|j: int| 0 <= j < i ==> (#[trigger] s[j]).key != key@,
            decreases self.entries@.len() - i,
        {
            assert(s[i as int] == self.entries@[i as int]@);
            if self.entries[i].five_tuple.same(key) {
                proof {
                    assert(has_key(s, key@));
                    let c = key_index(s, key@);
                    assert(s[c].key == key@);
                    if c != i {
                        if c < i {
                            assert(s[c].key != s[i as int].key);
                        } else {
                            assert(s[i as int].key != s[c].key);
                        }
                    }
                }
                return Some(i);
            }
            i += 1;
        }
        None
    }

    /// Whether a connection of that key is pending.
    pub fn contains_key(&self, key: &FiveTuple) -> (b: bool)
        requires
            self.wf(),
        ensures
            b == has_key(self.entries(), key@),
    {
        self.index_of(key).is_some()
    }
}

fn with_event(p: PendingFlow, event: CorrelationEvent) -> (r: PendingFlow)
    ensures
        r@ == apply_event(p@, event),
{
    let mut p = p;
    match event {
        CorrelationEvent::Capture(packet) => p.capture = Some(packet),
        CorrelationEvent::Attribution(attribution_event) => p.attribution = Some(attribution_event),
        CorrelationEvent::Decryption(fragment) => p.decryption = Some(fragment),
    }
    p
}

/// Emits a pending connection: its flow is numbered with the current sequence number,
/// recorded at `now_secs`, and returned; the sequence number moves on.
pub fn emit_flow(pending: PendingFlow, storage: &mut StorageHandle, sequence: &mut u64, now_secs: u64) -> (f:
    Flow)
    ensures
        f@ == flow_of(pending@, *old(sequence), now_secs as nat),
        flow_rows(*final(storage)) == flow_rows(*old(storage)).push((f@, now_secs)),
        same_except_flows(*final(storage), *old(storage)),
        *final(sequence) == wrap_inc(*old(sequence)),
{
    let seq = *sequence;
    *sequence = if seq == u64::MAX {
        0
    } else {
        seq + 1
    };
    let flow = build_flow_at(&pending, seq, now_secs);
    let _ = insert_flow(storage, &flow, now_secs);
    flow
}

proof fn lemma_remove_distinct(s: Seq<PendingView>, i: int)
    requires
        distinct_keys(s),
        0 <= i < s.len(),
    ensures
        distinct_keys(s.remove(i)),
{
    let t = s.remove(i);
    assert forall|a: int, b: int| 0 <= a < b < t.len() implies (#[trigger] t[a]).key != (
    #[trigger] t[b]).key by {
        let a2 = if a < i {
            a
        } else {
            a + 1
        };
        let b2 = if b < i {
            b
        } else {
            b + 1
        };
        assert(t[a] == s[a2]);
        assert(t[b] == s[b2]);
        assert(s[a2].key != s[b2].key);
    }
}

/// Takes one report at time `now_ms` (milliseconds since the Unix epoch) and returns the
/// flow it emitted, if any: a new flow once a connection is complete, or an already
/// recorded flow enriched by late decrypted content.
pub fn ingest_at(
    buffer: &mut CorrelationBuffer,
    event: CorrelationEvent,
    storage: &mut StorageHandle,
    sequence: &mut u64,
    now_ms: u64,
) -> (r: Option<Flow>)
    requires
        old(buffer).wf(),
    ensures
        final(buffer).wf(),
        ingested(
            old(buffer).entries(),
            final(buffer).entries(),
            *old(storage),
            *final(storage),
            *old(sequence),
            *final(sequence),
            event,
            now_ms,
            r,
        ),
{
    let now_secs = now_ms / 1000;
    let key = match event_five_tuple(&event) {
        Some(k) => k,
        None => {
            return None;
        },
    };
    let ghost k = key@;
    let ghost b0 = buffer.entries();
    let idx = buffer.index_of(&key);
    if let CorrelationEvent::Decryption(fragment) = &event {
        if idx.is_none() {
            let enrichment = try_enrich_already_emitted_at(&key, fragment, storage, now_secs);
            if enrichment.is_some() {
                return enrichment;
            }
        }
    }
    let ghost m = merged(b0, k, event, now_ms);
    let base = match idx {
        Some(i) => buffer.entries.remove(i),
        None => PendingFlow::new_at(key, now_ms),
    };
    let p = with_event(base, event);
    assert(p@ == m);
    if p.decryption.is_some() || (p.capture.is_some() && p.attribution.is_some()) {
        proof {
            if has_key(b0, k) {
                lemma_remove_distinct(b0, key_index(b0, k));
                assert(buffer.entries() =~= b0.remove(key_index(b0, k)));
            }
        }
        let f = emit_flow(p, storage, sequence, now_secs);
        Some(f)
    } else {
        match idx {
            Some(i) => {
                buffer.entries.insert(i, p);
                assert(buffer.entries() =~= b0.update(i as int, m));
                proof {
                    let s = buffer.entries();
                    assert forall|a: int, b: int| 0 <= a < b < s.len() implies (#[trigger] s[a]).key
                        != (#[trigger] s[b]).key by {
                        if a != i && b != i {
                            assert(s[a] == b0[a] && s[b] == b0[b]);
                        } else if a == i {
                            assert(s[b] == b0[b]);
                            assert(b0[a].key != b0[b].key);
                        } else {
                            assert(s[a] == b0[a]);
                            assert(b0[a].key != b0[b].key);
                        }
                    }
                }
            },
            None => {
                buffer.entries.push(p);
                assert(buffer.entries() =~= b0.push(m));
                proof {
                    let s = buffer.entries();
                    assert forall|a: int, b: int| 0 <= a < b < s.len() implies (#[trigger] s[a]).key
                        != (#[trigger] s[b]).key by {
                        if b == s.len() - 1 {
                            assert(s[a] == b0[a]);
                            if s[a].key == k {
                                assert(has_key(b0, k));
                            }
                        } else {
                            assert(s[a] == b0[a] && s[b] == b0[b]);
                        }
                    }
                }
            },
        }
        None
    }
}

/// Takes one report at the current time.
pub fn ingest(
    buffer: &mut CorrelationBuffer,
    event: CorrelationEvent,
    storage: &mut StorageHandle,
    sequence: &mut u64,
) -> (r: Option<Flow>)
    requires
        old(buffer).wf(),
    ensures
        final(buffer).wf(),
        exists|now_ms: u64|
            #[trigger] ingested(
                old(buffer).entries(),
                final(buffer).entries(),
                *old(storage),
                *final(storage),
                *old(sequence),
                *final(sequence),
                event,
                now_ms,
                r,
            ),
{
    ingest_at(buffer, event, storage, sequence, now_unix_ms())
}

proof fn lemma_kept_keys(s: Seq<PendingView>, now_ms: u64, k: TupleView)
    requires
        has_key(kept(s, now_ms), k),
    ensures
        has_key(s, k),
    decreases s.len(),
{
    if s.len() > 0 {
        let t = s.drop_last();
        let ks = kept(s, now_ms);
        let j = choose|j: int| 0 <= j < ks.len() && (#[trigger] ks[j]).key == k;
        if !expired(s.last(), now_ms) && j == ks.len() - 1 {
            assert(s[s.len() - 1].key == k);
        } else {
            assert(ks[j] == kept(t, now_ms)[j]);
            assert(has_key(kept(t, now_ms), k));
            lemma_kept_keys(t, now_ms, k);
            let i = choose|i: int| 0 <= i < t.len() && (#[trigger] t[i]).key == k;
            assert(s[i] == t[i]);
        }
    }
}

/// What a sweep keeps has at most one entry per connection when the buffer had.
proof fn lemma_kept_distinct(s: Seq<PendingView>, now_ms: u64)
    requires
        distinct_keys(s),
    ensures
        distinct_keys(kept(s, now_ms)),
    decreases s.len(),
{
    if s.len() > 0 {
        let t = s.drop_last();
        assert forall|a: int, b: int| 0 <= a < b < t.len() implies (#[trigger] t[a]).key != (
        #[trigger] t[b]).key by {
            assert(t[a] == s[a] && t[b] == s[b]);
        }
        lemma_kept_distinct(t, now_ms);
        if !expired(s.last(), now_ms) {
            let kt = kept(t, now_ms);
            let ks = kept(s, now_ms);
            assert forall|a: int, b: int| 0 <= a < b < ks.len() implies (#[trigger] ks[a]).key != (
            #[trigger] ks[b]).key by {
                if b == ks.len() - 1 {
                    assert(ks[a] == kt[a]);
                    if kt[a].key == s.last().key {
                        assert(has_key(kt, s.last().key));
                        lemma_kept_keys(t, now_ms, s.last().key);
                        let i = choose|i: int| 0 <= i < t.len() && (#[trigger] t[i]).key == s.last().key;
                        assert(s[i].key != s[s.len() - 1].key);
                    }
                } else {
                    assert(ks[a] == kt[a] && ks[b] == kt[b]);
                }
            }
        }
    }
}

/// What a sweep at `now_ms` does: it keeps the entries still in their window, emits the
/// others in buffer order (numbered from the current sequence number, recorded at `now_ms`),
/// and moves the sequence number on by the number of emitted flows.
pub open spec fn swept(
    b0: Seq<PendingView>,
    b1: Seq<PendingView>,
    s0: StorageHandle,
    s1: StorageHandle,
    q0: u64,
    q1: u64,
    now_ms: u64,
    r: Seq<Flow>,
) -> bool {
    &&& b1 == kept(b0, now_ms)
    &&& flows_view(r) == swept_flows(b0, now_ms, q0)
    &&& flow_rows(s1) == flow_rows(s0) + rows_at(swept_flows(b0, now_ms, q0), (now_ms / 1000) as u64)
    &&& same_except_flows(s1, s0)
    &&& q1 == seq_after(q0, gone_count(b0, now_ms))
}

/// Emits every entry whose window has passed at `now_ms` and returns the emitted flows.
pub fn sweep_expired_at(
    buffer: &mut CorrelationBuffer,
    storage: &mut StorageHandle,
    sequence: &mut u64,
    now_ms: u64,
) -> (r: Vec<Flow>)
    requires
        old(buffer).wf(),
    ensures
        final(buffer).wf(),
        swept(
            old(buffer).entries(),
            final(buffer).entries(),
            *old(storage),
            *final(storage),
            *old(sequence),
            *final(sequence),
            now_ms,
            r@,
        ),
{
    let now_secs = now_ms / 1000;
    let ghost orig = buffer.entries();
    let ghost s0 = *storage;
    let ghost q0 = *sequence;
    let mut pending: Vec<PendingFlow> = Vec::new();
    std::mem::swap(&mut pending, &mut buffer.entries);
    let n = pending.len();
    let mut out: Vec<Flow> = Vec::new();
    let mut i: usize = 0;
    assert(orig.take(0) =~= Seq::<PendingView>::empty());
    assert(buffer.entries() =~= Seq::<PendingView>::empty());
    while i < n
        invariant
            n == orig.len(),
            0 <= i <= n,
            distinct_keys(orig),
            pending@.len() == n - i,
            forall|j: int| 0 <= j < n - i ==> (#[trigger] pending@[j])@ == orig[i + j],
            buffer.entries() == kept(orig.take(i as int), now_ms),
            flows_view(out@) == swept_flows(orig.take(i as int), now_ms, q0),
            flow_rows(*storage) == flow_rows(s0) + rows_at(
                swept_flows(orig.take(i as int), now_ms, q0),
                now_secs,
            ),
            same_except_flows(*storage, s0),
            *sequence == seq_after(q0, gone_count(orig.take(i as int), now_ms)),
            now_secs == now_ms / 1000,
        decreases n - i,
    {
        let ghost pre = orig.take(i as int);
        let ghost post = orig.take(i + 1);
        assert(post.drop_last() =~= pre);
        assert(post.last() == orig[i as int]);
        let ghost before_pending = pending@;
        let p = pending.remove(0);
        assert(p@ == orig[i as int]);
        assert forall|j: int| 0 <= j < n - (i + 1) implies (#[trigger] pending@[j])@ == orig[(i + 1) + j] by {
            assert(pending@[j] == before_pending[j + 1]);
        }
        let is_expired = now_ms >= p.first_seen_ms && now_ms - p.first_seen_ms >= CORRELATION_WINDOW_MS;
        assert(is_expired == expired(orig[i as int], now_ms));
        if is_expired {
            let ghost rows_before = flow_rows(*storage);
            let ghost out_before = out@;
            let f = emit_flow(p, storage, sequence, now_secs);
            out.push(f);
            proof {
                let sw = swept_flows(pre, now_ms, q0);
                assert(swept_flows(post, now_ms, q0) == sw.push(f@));
                assert(flows_view(out@) =~= flows_view(out_before).push(f@));
                assert(rows_at(sw.push(f@), now_secs) =~= rows_at(sw, now_secs).push((f@, now_secs)));
                assert(flow_rows(*storage) =~= flow_rows(s0) + rows_at(sw.push(f@), now_secs));
            }
        } else {
            let ghost kept_before = buffer.entries();
            buffer.entries.push(p);
            assert(buffer.entries() =~= kept_before.push(orig[i as int]));
        }
        i += 1;
    }
    assert(orig.take(n as int) =~= orig);
    proof {
        lemma_kept_distinct(orig, now_ms);
    }
    out
}

/// Emits every entry whose window has passed at the current time.
pub fn sweep_expired(buffer: &mut CorrelationBuffer, storage: &mut StorageHandle, sequence: &mut u64) -> (r:
    Vec<Flow>)
    requires
        old(buffer).wf(),
    ensures
        final(buffer).wf(),
        exists|now_ms: u64|
            #[trigger] swept(
                old(buffer).entries(),
                final(buffer).entries(),
                *old(storage),
                *final(storage),
                *old(sequence),
                *final(sequence),
                now_ms,
                r@,
            ),
{
    sweep_expired_at(buffer, storage, sequence, now_unix_ms())
}

/// A report about a connection that is already pending never opens a second entry: the
/// buffer does not grow.
pub proof fn lemma_pending_connection_adds_no_entry(
    b0: Seq<PendingView>,
    b1: Seq<PendingView>,
    s0: StorageHandle,
    s1: StorageHandle,
    q0: u64,
    q1: u64,
    e: CorrelationEvent,
    now_ms: u64,
    r: Option<Flow>,
)
    requires
        distinct_keys(b0),
        ingested(b0, b1, s0, s1, q0, q1, e, now_ms, r),
        key_of(e) matches Some(k) && has_key(b0, k),
    ensures
        b1.len() <= b0.len(),
{
}

/// Once a connection is complete (decrypted content, or both capture and attribution), its
/// flow is emitted at once and the connection leaves the buffer.
pub proof fn lemma_complete_connection_leaves_buffer(
    b0: Seq<PendingView>,
    b1: Seq<PendingView>,
    s0: StorageHandle,
    s1: StorageHandle,
    q0: u64,
    q1: u64,
    e: CorrelationEvent,
    now_ms: u64,
    r: Option<Flow>,
)
    requires
        distinct_keys(b0),
        ingested(b0, b1, s0, s1, q0, q1, e, now_ms, r),
        key_of(e) matches Some(k) && !late(b0, s0, e, (now_ms / 1000) as nat) && ready(
            merged(b0, k, e, now_ms),
        ),
    ensures
        key_of(e) matches Some(k) && !has_key(b1, k),
        r is Some,
        flow_rows(s1).len() == flow_rows(s0).len() + 1,
{
    let k = key_of(e)->0;
    if has_key(b0, k) {
        let i = key_index(b0, k);
        if has_key(b1, k) {
            let j = choose|j: int| 0 <= j < b1.len() && (#[trigger] b1[j]).key == k;
            if j < i {
                assert(b1[j] == b0[j]);
                assert(b0[j].key != b0[i].key);
            } else {
                assert(b1[j] == b0[j + 1]);
                assert(b0[i].key != b0[j + 1].key);
            }
        }
    }
}

/// Decrypted content that arrives after its connection's flow was emitted rewrites that
/// flow in place: the flows table keeps its number of rows and nothing enters the buffer.
pub proof fn lemma_late_content_adds_no_row(
    b0: Seq<PendingView>,
    b1: Seq<PendingView>,
    s0: StorageHandle,
    s1: StorageHandle,
    q0: u64,
    q1: u64,
    e: CorrelationEvent,
    now_ms: u64,
    r: Option<Flow>,
)
    requires
        ingested(b0, b1, s0, s1, q0, q1, e, now_ms, r),
        key_of(e) is Some,
        late(b0, s0, e, (now_ms / 1000) as nat),
    ensures
        b1 == b0,
        q1 == q0,
        r is Some,
        flow_rows(s1).len() == flow_rows(s0).len(),
{
}

} // verus!
