//! What PolarProxy reports besides decrypted content: its log of intercepted sessions. A
//! session with no decrypted fragment seen for its connection is a probable certificate
//! pinning signal (a heuristic: PolarProxy has no dedicated signal).

use vstd::prelude::*;

use crate::attribution::{FiveTuple, TupleView};
use crate::clock::{now_unix, now_unix_ms};
use crate::shared::opt_view;
use crate::storage::decryption::record_pinning_event;
use crate::storage::{PinningEvent, StorageHandle};
use crate::text::{
    chars_of, find_last, last_index_of, lowercase, parse_unsigned, parse_unsigned_chars,
    split_whitespace, split_ws, substring, to_lowercase,
};

verus! {

/// How long (milliseconds) a decrypted fragment vouches for its connection.
pub const PINNING_WINDOW_MS: u64 = 10000;

/// How long (milliseconds) a seen fragment is remembered: six windows.
pub const SEEN_RETENTION_MS: u64 = 60000;

/// An intercepted session of PolarProxy's log: its connection and its domain, if any.
pub struct FlowLogEntry {
    pub five_tuple: FiveTuple,
    pub host: Option<String>,
}

/// `host:port` split at the last `:`, the port read as a `u16`.
pub open spec fn host_port(raw: Seq<char>) -> Option<(Seq<char>, u16)> {
    match last_index_of(raw, ':') {
        None => None,
        Some(i) => match parse_unsigned(raw.subrange(i + 1, raw.len() as int), 65535) {
            Some(p) => Some((raw.subrange(0, i), p as u16)),
            None => None,
        },
    }
}

pub fn split_host_port(raw: &str) -> (r: Option<(String, u16)>)
    ensures
        match r {
            Some((h, p)) => host_port(raw@) == Some((h@, p)),
            None => host_port(raw@) is None,
        },
{
    let chars = chars_of(raw);
    let n = chars.len();
    let colon = match find_last(&chars, ':') {
        Some(i) => i,
        None => {
            return None;
        },
    };
    assert(colon < n);
    let port = match parse_unsigned_chars(&chars, colon + 1, n, 65535) {
        Some(p) => p,
        None => {
            return None;
        },
    };
    Some((substring(&chars, 0, colon), port as u16))
}

/// A line of the session log, whitespace-separated: timestamp, transport protocol, source
/// `ip:port`, destination `ip:port`, domain (`-` for none), and at least one more field.
pub open spec fn flowlog_entry(line: Seq<char>) -> Option<(TupleView, Option<Seq<char>>)> {
    let f = split_ws(line);
    if f.len() < 6 {
        None
    } else {
        match (host_port(f[2]), host_port(f[3])) {
            (Some(src), Some(dst)) => Some(
                (
                    TupleView {
                        protocol: lowercase(f[1]),
                        src_ip: src.0,
                        src_port: src.1,
                        dst_ip: dst.0,
                        dst_port: dst.1,
                    },
                    if f[4] == "-"@ {
                        None
                    } else {
                        Some(f[4])
                    },
                ),
            ),
            _ => None,
        }
    }
}

/// Reads one line of PolarProxy's session log; addresses are taken as written.
pub fn parse_flowlog_line(line: &str) -> (r: Option<FlowLogEntry>)
    ensures
        match r {
            Some(e) => flowlog_entry(line@) == Some((e.five_tuple@, opt_view(e.host))),
            None => flowlog_entry(line@) is None,
        },
{
    proof {
        reveal_strlit("-");
    }
    let fields = split_whitespace(line);
    let ghost fv = fields@.map_values(|w: Vec<char>| w@);
    if fields.len() < 6 {
        return None;
    }
    let protocol_text = substring(&fields[1], 0, fields[1].len());
    assert(fields@[1]@.subrange(0, fields@[1]@.len() as int) =~= fields@[1]@);
    let protocol = to_lowercase(protocol_text.as_str());
    let src_text = substring(&fields[2], 0, fields[2].len());
    assert(fields@[2]@.subrange(0, fields@[2]@.len() as int) =~= fields@[2]@);
    let dst_text = substring(&fields[3], 0, fields[3].len());
    assert(fields@[3]@.subrange(0, fields@[3]@.len() as int) =~= fields@[3]@);
    let (src_ip, src_port) = match split_host_port(src_text.as_str()) {
        Some(x) => x,
        None => {
            return None;
        },
    };
    let (dst_ip, dst_port) = match split_host_port(dst_text.as_str()) {
        Some(x) => x,
        None => {
            return None;
        },
    };
    let host_field = &fields[4];
    let host = if host_field.len() == 1 && host_field[0] == '-' {
        assert(host_field@ =~= "-"@);
        None
    } else {
        assert(host_field@ != "-"@);
        assert(host_field@.subrange(0, host_field@.len() as int) =~= host_field@);
        Some(substring(host_field, 0, host_field.len()))
    };
    let e = FlowLogEntry {
        five_tuple: FiveTuple { protocol, src_ip, src_port, dst_ip, dst_port },
        host,
    };
    assert(e.five_tuple@ =~= (flowlog_entry(line@)->0).0);
    Some(e)
}

/// A seen fragment is still remembered at `now_ms` (a time stamp in the future counts as
/// just seen).
pub open spec fn retained(seen_at: u64, now_ms: u64) -> bool {
    (now_ms as int - seen_at as int) < (SEEN_RETENTION_MS as int)
}

pub open spec fn seen_has(s: Seq<(TupleView, u64)>, k: TupleView) -> bool {
    exists|i: int| 0 <= i < s.len() && (#[trigger] s[i]).0 == k
}

/// The entries after marking `k` seen at `now_ms` (in place, or last when new), then
/// forgetting those no longer retained.
pub open spec fn marked_stored(s: Seq<(TupleView, u64)>, k: TupleView, now_ms: u64) -> Seq<(TupleView, u64)> {
    if seen_has(s, k) {
        s.map_values(
            |e: (TupleView, u64)|
                if e.0 == k {
                    (k, now_ms)
                } else {
                    e
                },
        )
    } else {
        s.push((k, now_ms))
    }
}

pub open spec fn marked(s: Seq<(TupleView, u64)>, k: TupleView, now_ms: u64) -> Seq<(TupleView, u64)> {
    marked_stored(s, k, now_ms).filter(|e: (TupleView, u64)| retained(e.1, now_ms))
}

/// A connection just marked seen is recognized, and nothing older than the retention is
/// remembered.
pub proof fn lemma_marked_then_seen(s: Seq<(TupleView, u64)>, k: TupleView, now_ms: u64)
    ensures
        seen_has(marked(s, k, now_ms), k),
        forall|i: int|
            0 <= i < marked(s, k, now_ms).len() ==> retained(#[trigger] marked(s, k, now_ms)[i].1, now_ms),
{
    let stored = marked_stored(s, k, now_ms);
    let j: int = if seen_has(s, k) {
        choose|i: int| 0 <= i < s.len() && (#[trigger] s[i]).0 == k
    } else {
        s.len() as int
    };
    assert(stored[j] == (k, now_ms));
    stored.lemma_filter_contains(|e: (TupleView, u64)| retained(e.1, now_ms), j);
    let f = marked(s, k, now_ms);
    assert(f.contains((k, now_ms)));
    let w = choose|w: int| 0 <= w < f.len() && f[w] == (k, now_ms);
    assert(f[w].0 == k);
    assert forall|i: int| 0 <= i < f.len() implies retained(#[trigger] f[i].1, now_ms) by {
        stored.lemma_filter_pred(|e: (TupleView, u64)| retained(e.1, now_ms), i);
    }
}

/// The connections for which a decrypted fragment was seen recently.
pub struct SeenFragments {
    entries: Vec<(FiveTuple, u64)>,
}

impl SeenFragments {
    pub closed spec fn entries(&self) -> Seq<(TupleView, u64)> {
        self.entries@.map_values(|e: (FiveTuple, u64)| (e.0@, e.1))
    }

    pub fn new() -> (s: SeenFragments)
        ensures
            s.entries() == Seq::<(TupleView, u64)>::empty(),
    {
        let s = SeenFragments { entries: Vec::new() };
        assert(s.entries() =~= Seq::<(TupleView, u64)>::empty());
        s
    }

    /// Whether a fragment of that connection was seen.
    pub fn contains(&self, key: &FiveTuple) -> (b: bool)
        ensures
            b == seen_has(self.entries(), key@),
    {
        let ghost s = self.entries();
        let mut i: usize = 0;
        while i < self.entries.len()
            invariant
                s == self.entries(),
                0 <= i <= self.entries@.len(),
                forall|j: int| 0 <= j < i ==> (#[trigger] s[j]).0 != key@,
            decreases self.entries@.len() - i,
        {
            assert(s[i as int].0 == self.entries@[i as int].0@);
            if self.entries[i].0.same(key) {
                return true;
            }
            i += 1;
        }
        false
    }

    /// Marks a connection as seen at `now_ms` and forgets what is no longer retained.
    pub fn mark_seen_at(&mut self, key: &FiveTuple, now_ms: u64)
        ensures
            final(self).entries() == marked(old(self).entries(), key@, now_ms),
    {
        let ghost s = self.entries();
        let found = self.contains(key);
        let n = self.entries.len();
        let mut stored: Vec<(FiveTuple, u64)> = Vec::new();
        let mut i: usize = 0;
        let ghost target = if found {
            s.map_values(
                |e: (TupleView, u64)|
                    if e.0 == key@ {
                        (key@, now_ms)
                    } else {
                        e
                    },
            )
        } else {
            s.push((key@, now_ms))
        };
        while i < n
            invariant
                n == self.entries@.len(),
                s == self.entries(),
                0 <= i <= n,
                stored@.len() == i,
                forall|k: int|
                    0 <= k < i ==> ((#[trigger] stored@[k]).0@, stored@[k].1) == (if s[k].0 == key@ {
                        (key@, now_ms)
                    } else {
                        s[k]
                    }),
            decreases n - i,
        {
            let e = &self.entries[i];
            assert(s[i as int] == (e.0@, e.1));
            if e.0.same(key) {
                stored.push((key.dup(), now_ms));
            } else {
                stored.push((e.0.dup(), e.1));
            }
            i += 1;
        }
        if !found {
            stored.push((key.dup(), now_ms));
        }
        let ghost sv = stored@.map_values(|e: (FiveTuple, u64)| (e.0@, e.1));
        assert(sv =~= target);
        let mut kept: Vec<(FiveTuple, u64)> = Vec::new();
        let mut j: usize = 0;
        let m = stored.len();
        assert(sv.subrange(0, 0).filter(|e: (TupleView, u64)| retained(e.1, now_ms)) =~= Seq::<
            (TupleView, u64),
        >::empty()) by {
            reveal(Seq::filter);
        }
        while j < m
            invariant
                m == stored@.len(),
                sv == stored@.map_values(|e: (FiveTuple, u64)| (e.0@, e.1)),
                0 <= j <= m,
                kept@.map_values(|e: (FiveTuple, u64)| (e.0@, e.1)) == sv.subrange(0, j as int).filter(
                    |e: (TupleView, u64)| retained(e.1, now_ms),
                ),
            decreases m - j,
        {
            let ghost before = kept@.map_values(|e: (FiveTuple, u64)| (e.0@, e.1));
            proof {
                reveal(Seq::filter);
                assert(sv.subrange(0, j + 1).drop_last() =~= sv.subrange(0, j as int));
                assert(sv.subrange(0, j + 1).last() == sv[j as int]);
            }
            let t = stored[j].1;
            let keep = !(now_ms >= t && now_ms - t >= SEEN_RETENTION_MS);
            if keep {
                kept.push((stored[j].0.dup(), t));
                assert(kept@.map_values(|e: (FiveTuple, u64)| (e.0@, e.1)) =~= before.push(sv[j as int]));
            }
            j += 1;
        }
        assert(sv.subrange(0, m as int) =~= sv);
        self.entries = kept;
    }

    /// Marks a connection as seen now.
    pub fn mark_seen(&mut self, key: &FiveTuple)
        ensures
            exists|now_ms: u64| final(self).entries() == #[trigger] marked(old(self).entries(), key@, now_ms),
    {
        self.mark_seen_at(key, now_unix_ms());
    }
}

/// The pinning signal of a session, recorded at `now`.
pub open spec fn pinning_of(e: PinningEvent, t: TupleView, host: Option<Seq<char>>, now: i64) -> bool {
    &&& e.timestamp_unix == now
    &&& e.protocol@ == t.protocol
    &&& e.src_ip@ == t.src_ip
    &&& e.src_port == t.src_port
    &&& e.dst_ip@ == t.dst_ip
    &&& e.dst_port == t.dst_port
    &&& opt_view(e.host) == host
}

/// Records a parsed session of the log at `now` (Unix seconds) as a probable pinning signal,
/// unless a decrypted fragment was seen for its connection. Whether one was recorded.
pub fn record_flowlog_entry_at(entry: FlowLogEntry, storage: &mut StorageHandle, seen: &SeenFragments, now: i64) -> (r:
    bool)
    ensures
        r <==> !seen_has(seen.entries(), entry.five_tuple@),
        !r ==> *final(storage) == *old(storage),
        r ==> final(storage).pinning_events@.len() == old(storage).pinning_events@.len() + 1
            && final(storage).pinning_events@.drop_last() == old(storage).pinning_events@
            && pinning_of(final(storage).pinning_events@.last(), entry.five_tuple@, opt_view(entry.host), now),
        final(storage).flows == old(storage).flows,
{
    if seen.contains(&entry.five_tuple) {
        return false;
    }
    let event = PinningEvent {
        timestamp_unix: now,
        protocol: entry.five_tuple.protocol,
        src_ip: entry.five_tuple.src_ip,
        src_port: entry.five_tuple.src_port,
        dst_ip: entry.five_tuple.dst_ip,
        dst_port: entry.five_tuple.dst_port,
        host: entry.host,
    };
    let _ = record_pinning_event(storage, event);
    assert(storage.pinning_events@.drop_last() =~= old(storage).pinning_events@);
    true
}

/// The current time in Unix seconds, as a signed timestamp.
fn now_seconds() -> i64 {
    let secs = now_unix();
    if secs <= i64::MAX as u64 {
        secs as i64
    } else {
        i64::MAX
    }
}

/// Records a parsed session of the log now; see `record_flowlog_entry_at`.
pub fn record_flowlog_entry(entry: FlowLogEntry, storage: &mut StorageHandle, seen: &SeenFragments) -> (r: bool)
    ensures
        r <==> !seen_has(seen.entries(), entry.five_tuple@),
        !r ==> *final(storage) == *old(storage),
        r ==> final(storage).pinning_events@.len() == old(storage).pinning_events@.len() + 1
            && final(storage).pinning_events@.drop_last() == old(storage).pinning_events@
            && exists|now: i64|
            pinning_of(#[trigger] final(storage).pinning_events@.last(), entry.five_tuple@, opt_view(entry.host), now),
        final(storage).flows == old(storage).flows,
{
    record_flowlog_entry_at(entry, storage, seen, now_seconds())
}

/// Handles one line of the session log at `now` (Unix seconds): a session whose connection
/// has no decrypted fragment seen is recorded as a probable pinning signal. Whether one was
/// recorded.
pub fn handle_flowlog_line_at(line: &str, storage: &mut StorageHandle, seen: &SeenFragments, now: i64) -> (r:
    bool)
    ensures
        r <==> (flowlog_entry(line@) matches Some((t, _)) && !seen_has(seen.entries(), t)),
        !r ==> *final(storage) == *old(storage),
        r ==> final(storage).pinning_events@.len() == old(storage).pinning_events@.len() + 1
            && final(storage).pinning_events@.drop_last() == old(storage).pinning_events@
            && pinning_of(
            final(storage).pinning_events@.last(),
            (flowlog_entry(line@)->0).0,
            (flowlog_entry(line@)->0).1,
            now,
        ),
        final(storage).flows == old(storage).flows,
{
    match parse_flowlog_line(line) {
        Some(entry) => record_flowlog_entry_at(entry, storage, seen, now),
        None => false,
    }
}

/// Handles one line of the session log now; see `handle_flowlog_line_at`.
pub fn handle_flowlog_line(line: &str, storage: &mut StorageHandle, seen: &SeenFragments) -> (r: bool)
    ensures
        r <==> (flowlog_entry(line@) matches Some((t, _)) && !seen_has(seen.entries(), t)),
        !r ==> *final(storage) == *old(storage),
        r ==> final(storage).pinning_events@.len() == old(storage).pinning_events@.len() + 1
            && final(storage).pinning_events@.drop_last() == old(storage).pinning_events@
            && exists|now: i64|
            pinning_of(
                #[trigger] final(storage).pinning_events@.last(),
                (flowlog_entry(line@)->0).0,
                (flowlog_entry(line@)->0).1,
                now,
            ),
        final(storage).flows == old(storage).flows,
{
    handle_flowlog_line_at(line, storage, seen, now_seconds())
}

} // verus!
