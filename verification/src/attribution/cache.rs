//! The executable of each process, keyed by `(pid, start_time)`: a recycled pid is a
//! different key, never a stale hit.

use vstd::prelude::*;

use crate::text::{chars_of, find_last, parse_unsigned, parse_unsigned_chars, split_ws, split_whitespace};

verus! {

#[derive(Debug, Clone)]
pub struct ProcessEntry {
    pub exe_path: String,
}

/// Whether `s` holds an entry for the key.
pub open spec fn cache_has(s: Seq<(u32, u64, Seq<char>)>, pid: u32, start_time: u64) -> bool {
    exists|i: int| 0 <= i < s.len() && (#[trigger] s[i]).0 == pid && s[i].1 == start_time
}

/// The position of the entry of the key (meaningful when there is one).
pub open spec fn cache_index(s: Seq<(u32, u64, Seq<char>)>, pid: u32, start_time: u64) -> int {
    choose|i: int| 0 <= i < s.len() && (#[trigger] s[i]).0 == pid && s[i].1 == start_time
}

pub open spec fn cache_distinct(s: Seq<(u32, u64, Seq<char>)>) -> bool {
    forall|i: int, j: int|
        0 <= i < j < s.len() ==> (#[trigger] s[i]).0 != (#[trigger] s[j]).0 || s[i].1 != s[j].1
}

/// What a lookup gives on the entries `s`.
pub open spec fn cache_lookup(s: Seq<(u32, u64, Seq<char>)>, pid: u32, start_time: u64) -> Option<
    Seq<char>,
> {
    if cache_has(s, pid, start_time) {
        Some(s[cache_index(s, pid, start_time)].2)
    } else {
        None
    }
}

/// The entries after storing `exe` under the key: replaced in place, or added last.
pub open spec fn cache_store(s: Seq<(u32, u64, Seq<char>)>, pid: u32, start_time: u64, exe: Seq<char>) -> Seq<
    (u32, u64, Seq<char>),
> {
    if cache_has(s, pid, start_time) {
        s.update(cache_index(s, pid, start_time), (pid, start_time, exe))
    } else {
        s.push((pid, start_time, exe))
    }
}

pub struct ProcessCache {
    entries: Vec<(u32, u64, ProcessEntry)>,
}

impl ProcessCache {
    /// The entries, one per key, in insertion order.
    pub closed spec fn entries(&self) -> Seq<(u32, u64, Seq<char>)> {
        self.entries@.map_values(|e: (u32, u64, ProcessEntry)| (e.0, e.1, e.2.exe_path@))
    }

    pub open spec fn wf(&self) -> bool {
        cache_distinct(self.entries())
    }

    pub fn new() -> (c: ProcessCache)
        ensures
            c.entries() == Seq::<(u32, u64, Seq<char>)>::empty(),
            c.wf(),
    {
        let c = ProcessCache { entries: Vec::new() };
        assert(c.entries() =~= Seq::<(u32, u64, Seq<char>)>::empty());
        c
    }

    fn index_of(&self, pid: u32, start_time: u64) -> (r: Option<usize>)
        requires
            self.wf(),
        ensures
            match r {
                Some(i) => i < self.entries().len() && cache_has(self.entries(), pid, start_time)
                    && i == cache_index(self.entries(), pid, start_time),
                None => !cache_has(self.entries(), pid, start_time),
            },
    {
        let ghost s = self.entries();
        let mut i: usize = 0;
        while i < self.entries.len()
            invariant
                s == self.entries(),
                cache_distinct(s),
                0 <= i <= self.entries@.len(),
                forall|j: int| 0 <= j < i ==> (#[trigger] s[j]).0 != pid || s[j].1 != start_time,
            decreases self.entries@.len() - i,
        {
            assert(s[i as int].0 == self.entries@[i as int].0 && s[i as int].1 == self.entries@[i as int].1);
            if self.entries[i].0 == pid && self.entries[i].1 == start_time {
                proof {
                    assert(cache_has(s, pid, start_time));
                    let c = cache_index(s, pid, start_time);
                    if c < i {
                        assert(s[c].0 != s[i as int].0 || s[c].1 != s[i as int].1);
                    } else if c > i {
                        assert(s[i as int].0 != s[c].0 || s[i as int].1 != s[c].1);
                    }
                }
                return Some(i);
            }
            i += 1;
        }
        None
    }

    /// Records the executable of the process `(pid, start_time)`.
    pub fn insert(&mut self, pid: u32, start_time: u64, exe_path: String)
        requires
            old(self).wf(),
        ensures
            final(self).wf(),
            final(self).entries() == cache_store(old(self).entries(), pid, start_time, exe_path@),
    {
        let ghost s = self.entries();
        let entry = (pid, start_time, ProcessEntry { exe_path });
        match self.index_of(pid, start_time) {
            Some(i) => {
                let _ = self.entries.remove(i);
                self.entries.insert(i, entry);
                assert(self.entries() =~= s.update(i as int, (pid, start_time, exe_path@)));
                proof {
                    let t = self.entries();
                    assert forall|a: int, b: int| 0 <= a < b < t.len() implies (#[trigger] t[a]).0
                        != (#[trigger] t[b]).0 || t[a].1 != t[b].1 by {
                        if a != i && b != i {
                            assert(t[a] == s[a] && t[b] == s[b]);
                        } else if a == i {
                            assert(t[b] == s[b]);
                            assert(s[a].0 != s[b].0 || s[a].1 != s[b].1);
                        } else {
                            assert(t[a] == s[a]);
                            assert(s[a].0 != s[b].0 || s[a].1 != s[b].1);
                        }
                    }
                }
            },
            None => {
                self.entries.push(entry);
                assert(self.entries() =~= s.push((pid, start_time, exe_path@)));
                proof {
                    let t = self.entries();
                    assert forall|a: int, b: int| 0 <= a < b < t.len() implies (#[trigger] t[a]).0
                        != (#[trigger] t[b]).0 || t[a].1 != t[b].1 by {
                        if b == t.len() - 1 {
                            assert(t[a] == s[a]);
                            if s[a].0 == pid && s[a].1 == start_time {
                                assert(cache_has(s, pid, start_time));
                            }
                        } else {
                            assert(t[a] == s[a] && t[b] == s[b]);
                        }
                    }
                }
            },
        }
    }

    /// The executable recorded for the process `(pid, start_time)`.
    pub fn get(&self, pid: u32, start_time: u64) -> (r: Option<ProcessEntry>)
        requires
            self.wf(),
        ensures
            match r {
                Some(e) => cache_lookup(self.entries(), pid, start_time) == Some(e.exe_path@),
                None => cache_lookup(self.entries(), pid, start_time) is None,
            },
    {
        match self.index_of(pid, start_time) {
            Some(i) => Some(ProcessEntry { exe_path: self.entries[i].2.exe_path.clone() }),
            None => None,
        }
    }

    /// The number of processes recorded.
    pub fn len(&self) -> (n: usize)
        ensures
            n == self.entries().len(),
    {
        self.entries.len()
    }

    /// Keeps the entries whose liveness is `true` (one flag per entry, in order), in their
    /// order.
    pub fn retain_alive(&mut self, alive: &Vec<bool>)
        requires
            old(self).wf(),
            alive@.len() == old(self).entries().len(),
        ensures
            final(self).wf(),
            final(self).entries() == keep_alive(old(self).entries(), alive@),
    {
        let ghost s = self.entries();
        let mut old_entries: Vec<(u32, u64, ProcessEntry)> = Vec::new();
        std::mem::swap(&mut old_entries, &mut self.entries);
        let n = old_entries.len();
        let mut kept: Vec<(u32, u64, ProcessEntry)> = Vec::new();
        let mut i: usize = 0;
        assert(s.take(0) =~= Seq::<(u32, u64, Seq<char>)>::empty());
        assert(kept@.map_values(|e: (u32, u64, ProcessEntry)| (e.0, e.1, e.2.exe_path@)) =~= keep_alive(
            s.take(0),
            alive@,
        ));
        while i < n
            invariant
                n == old_entries@.len(),
                n == alive@.len(),
                s == old_entries@.map_values(|e: (u32, u64, ProcessEntry)| (e.0, e.1, e.2.exe_path@)),
                0 <= i <= n,
                kept@.map_values(|e: (u32, u64, ProcessEntry)| (e.0, e.1, e.2.exe_path@)) == keep_alive(
                    s.take(i as int),
                    alive@,
                ),
            decreases n - i,
        {
            let ghost before = kept@;
            assert(s.take(i + 1).drop_last() =~= s.take(i as int));
            assert(s.take(i + 1).last() == s[i as int]);
            if alive[i] {
                let e = &old_entries[i];
                kept.push((e.0, e.1, ProcessEntry { exe_path: e.2.exe_path.clone() }));
                assert(kept@.map_values(|e: (u32, u64, ProcessEntry)| (e.0, e.1, e.2.exe_path@))
                    =~= before.map_values(|e: (u32, u64, ProcessEntry)| (e.0, e.1, e.2.exe_path@)).push(
                    s[i as int],
                ));
            }
            i += 1;
        }
        assert(s.take(n as int) =~= s);
        proof {
            lemma_keep_alive_kept(s, alive@);
        }
        self.entries = kept;
    }

    /// Drops the entries whose process no longer exists, keeping the others in their order.
    /// Which processes exist is whatever the system says at the time: one answer per entry.
    pub fn evict_dead(&mut self)
        requires
            old(self).wf(),
        ensures
            final(self).wf(),
            exists|alive: Seq<bool>|
                alive.len() == old(self).entries().len() && #[trigger] keep_alive(
                    old(self).entries(),
                    alive,
                ) == final(self).entries(),
            final(self).entries().len() <= old(self).entries().len(),
            forall|k: int|
                0 <= k < final(self).entries().len() ==> old(self).entries().contains(
                    #[trigger] final(self).entries()[k],
                ),
    {
        let mut alive: Vec<bool> = Vec::new();
        let n = self.entries.len();
        let mut i: usize = 0;
        while i < n
            invariant
                n == self.entries@.len(),
                0 <= i <= n,
                alive@.len() == i,
            decreases n - i,
        {
            alive.push(process_exists(self.entries[i].0));
            i += 1;
        }
        let ghost s = self.entries();
        self.retain_alive(&alive);
        proof {
            lemma_keep_alive_kept(s, alive@);
        }
    }
}

/// The entries whose flag in `alive` is `true`, in their order.
pub open spec fn keep_alive(s: Seq<(u32, u64, Seq<char>)>, alive: Seq<bool>) -> Seq<(u32, u64, Seq<char>)>
    decreases s.len(),
{
    if s.len() == 0 {
        Seq::empty()
    } else if alive[s.len() - 1] {
        keep_alive(s.drop_last(), alive).push(s.last())
    } else {
        keep_alive(s.drop_last(), alive)
    }
}

/// What is kept is among the entries, no more of them, and keys distinct before stay
/// distinct.
pub proof fn lemma_keep_alive_kept(s: Seq<(u32, u64, Seq<char>)>, alive: Seq<bool>)
    ensures
        keep_alive(s, alive).len() <= s.len(),
        forall|k: int|
            0 <= k < keep_alive(s, alive).len() ==> s.contains(#[trigger] keep_alive(s, alive)[k]),
        cache_distinct(s) ==> cache_distinct(keep_alive(s, alive)),
    decreases s.len(),
{
    if s.len() > 0 {
        let t = s.drop_last();
        lemma_keep_alive_kept(t, alive);
        let kt = keep_alive(t, alive);
        assert forall|k: int| 0 <= k < kt.len() implies s.contains(#[trigger] kt[k]) by {
            let m = choose|m: int| 0 <= m < t.len() && t[m] == kt[k];
            assert(s[m] == kt[k]);
        }
        if alive[s.len() - 1] {
            let u = kt.push(s.last());
            assert forall|k: int| 0 <= k < u.len() implies s.contains(#[trigger] u[k]) by {
                if k == kt.len() {
                    assert(s[s.len() - 1] == u[k]);
                } else {
                    assert(u[k] == kt[k]);
                }
            }
            if cache_distinct(s) {
                assert(cache_distinct(t));
                assert forall|a: int, b: int| 0 <= a < b < u.len() implies (#[trigger] u[a]).0 != (
                #[trigger] u[b]).0 || u[a].1 != u[b].1 by {
                    if b == kt.len() {
                        assert(u[a] == kt[a]);
                        assert(t.contains(kt[a]));
                        let m = choose|m: int| 0 <= m < t.len() && t[m] == kt[a];
                        assert(s[m] == t[m]);
                        assert(s[m].0 != s[s.len() - 1].0 || s[m].1 != s[s.len() - 1].1);
                    } else {
                        assert(u[a] == kt[a] && u[b] == kt[b]);
                    }
                }
            }
        } else {
            if cache_distinct(s) {
                assert(cache_distinct(t));
            }
        }
    }
}

/// A recycled pid is a different key: after storing an executable under `(pid, t)`, the
/// lookup of `(pid, t)` gives it, and the lookup of any other key (the same pid with another
/// start time among them) is what it was; the keys stay distinct.
pub proof fn lemma_store_then_lookup(
    s: Seq<(u32, u64, Seq<char>)>,
    pid: u32,
    t: u64,
    exe: Seq<char>,
    other_pid: u32,
    other_t: u64,
)
    requires
        cache_distinct(s),
    ensures
        cache_distinct(cache_store(s, pid, t, exe)),
        cache_lookup(cache_store(s, pid, t, exe), pid, t) == Some(exe),
        other_pid != pid || other_t != t ==> cache_lookup(cache_store(s, pid, t, exe), other_pid, other_t)
            == cache_lookup(s, other_pid, other_t),
{
    let u = cache_store(s, pid, t, exe);
    if cache_has(s, pid, t) {
        let k = cache_index(s, pid, t);
        assert(u == s.update(k, (pid, t, exe)));
        assert forall|a: int, b: int| 0 <= a < b < u.len() implies (#[trigger] u[a]).0 != (
        #[trigger] u[b]).0 || u[a].1 != u[b].1 by {
            if a == k {
                assert(s[b].0 != s[k].0 || s[b].1 != s[k].1);
            } else if b == k {
                assert(s[a].0 != s[k].0 || s[a].1 != s[k].1);
            }
        }
        assert(u[k] == (pid, t, exe));
        assert(cache_has(u, pid, t));
        let j = cache_index(u, pid, t);
        if j != k {
            if j < k {
                assert(u[j].0 != u[k].0 || u[j].1 != u[k].1);
            } else {
                assert(u[k].0 != u[j].0 || u[k].1 != u[j].1);
            }
        }
        if other_pid != pid || other_t != t {
            if cache_has(s, other_pid, other_t) {
                let m = cache_index(s, other_pid, other_t);
                assert(u[m] == s[m]);
                assert(cache_has(u, other_pid, other_t));
                let n = cache_index(u, other_pid, other_t);
                assert(u[n] == s[n]);
                if n != m {
                    if n < m {
                        assert(s[n].0 != s[m].0 || s[n].1 != s[m].1);
                    } else {
                        assert(s[m].0 != s[n].0 || s[m].1 != s[n].1);
                    }
                }
            } else {
                if cache_has(u, other_pid, other_t) {
                    let n = cache_index(u, other_pid, other_t);
                    assert(u[n] == s[n]);
                    assert(cache_has(s, other_pid, other_t));
                }
            }
        }
    } else {
        assert(u == s.push((pid, t, exe)));
        let last = s.len() as int;
        assert(u[last] == (pid, t, exe));
        assert forall|a: int, b: int| 0 <= a < b < u.len() implies (#[trigger] u[a]).0 != (
        #[trigger] u[b]).0 || u[a].1 != u[b].1 by {
            if b == last {
                assert(u[a] == s[a]);
                if u[a].0 == pid && u[a].1 == t {
                    assert(cache_has(s, pid, t));
                }
            } else {
                assert(u[a] == s[a] && u[b] == s[b]);
            }
        }
        assert(cache_has(u, pid, t));
        let j = cache_index(u, pid, t);
        if j != last {
            assert(u[j] == s[j]);
            assert(cache_has(s, pid, t));
        }
        if other_pid != pid || other_t != t {
            if cache_has(s, other_pid, other_t) {
                let m = cache_index(s, other_pid, other_t);
                assert(u[m] == s[m]);
                assert(cache_has(u, other_pid, other_t));
                let n = cache_index(u, other_pid, other_t);
                assert(n != last);
                assert(u[n] == s[n]);
                if n != m {
                    if n < m {
                        assert(s[n].0 != s[m].0 || s[n].1 != s[m].1);
                    } else {
                        assert(s[m].0 != s[n].0 || s[m].1 != s[n].1);
                    }
                }
            } else {
                if cache_has(u, other_pid, other_t) {
                    let n = cache_index(u, other_pid, other_t);
                    assert(n != last);
                    assert(u[n] == s[n]);
                    assert(cache_has(s, other_pid, other_t));
                }
            }
        }
    }
}

/// Whether the process `pid` still exists (its `/proc` directory is there). Nothing is
/// stated of the answer: it is whatever the system says at the time of the call.
#[verifier::external_body]
fn process_exists(pid: u32) -> bool {
    std::path::Path::new(&format!("/proc/{}", pid)).exists()
}

/// The fields of `/proc/<pid>/stat` after the command name (which is in parentheses and
/// may itself hold spaces or parentheses, hence the cut at the last `)`).
pub open spec fn stat_fields(stat: Seq<char>) -> Option<Seq<Seq<char>>> {
    match crate::text::last_index_of(stat, ')') {
        Some(p) => Some(split_ws(stat.subrange(p + 1, stat.len() as int))),
        None => None,
    }
}

/// The start time (field 22 of `/proc/<pid>/stat`, in clock ticks since boot): the 20th
/// field after the command name, read as a `u64`.
pub open spec fn stat_start_time(stat: Seq<char>) -> Option<u64> {
    match stat_fields(stat) {
        Some(f) => if f.len() > 19 {
            match parse_unsigned(f[19], u64::MAX as int) {
                Some(v) => Some(v as u64),
                None => None,
            }
        } else {
            None
        },
        None => None,
    }
}

/// Reads the start time of a process from the text of its `/proc/<pid>/stat`.
pub fn parse_stat_start_time(stat: &str) -> (r: Option<u64>)
    ensures
        r == stat_start_time(stat@),
{
    let chars = chars_of(stat);
    let close = match find_last(&chars, ')') {
        Some(p) => p,
        None => {
            return None;
        },
    };
    let rest = crate::text::substring(&chars, close + 1, chars.len());
    let fields = split_whitespace(rest.as_str());
    assert(rest@ == stat@.subrange(close + 1, stat@.len() as int));
    if fields.len() <= 19 {
        return None;
    }
    let field = &fields[19];
    assert(field@ == split_ws(rest@)[19]);
    assert(field@.subrange(0, field@.len() as int) =~= field@);
    let v = parse_unsigned_chars(field, 0, field.len(), u64::MAX);
    match v {
        Some(x) => Some(x),
        None => None,
    }
}

} // verus!
