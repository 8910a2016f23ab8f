//! The display name of an application, from the `.desktop` entry whose `Exec=` line names
//! its binary. Display only: correlation always keys on the exact pid and executable.

use vstd::prelude::*;

use crate::text::{
    chars_of, contains, from_chars, has_prefix, has_substring, leading_ws, lines, lines_chars,
    owned, push_str, slice_vec, split_char, split_char_chars, starts_with, str_eq,
    trim_start,
};

verus! {

/// What `Path::file_name` gives for a path: its last component, none for a path that ends
/// in `..` or is a root.
pub uninterp spec fn file_name_of(path: Seq<char>) -> Option<Seq<char>>;

/// `Path::file_name` of `path`, as text; its result is named `file_name_of`.
#[verifier::external_body]
fn file_name(path: &str) -> (r: Option<String>)
    ensures
        match r {
            Some(n) => file_name_of(path@) == Some(n@),
            None => file_name_of(path@) is None,
        },
{
    std::path::Path::new(path).file_name().map(|n| n.to_string_lossy().to_string())
}

/// The binary's name, else the whole path.
pub open spec fn basename(exe_path: Seq<char>) -> Seq<char> {
    match file_name_of(exe_path) {
        Some(n) => n,
        None => exe_path,
    }
}

pub fn basename_of(exe_path: &str) -> (r: String)
    ensures
        r@ == basename(exe_path@),
{
    match file_name(exe_path) {
        Some(n) => n,
        None => owned(exe_path),
    }
}

/// Whether `exe_path` has a file name at all (`find_desktop_file` looks for nothing
/// otherwise), and that name.
pub fn file_name_text(exe_path: &str) -> (r: Option<String>)
    ensures
        match r {
            Some(n) => file_name_of(exe_path@) == Some(n@),
            None => file_name_of(exe_path@) is None,
        },
{
    file_name(exe_path)
}

/// The value after `key` (such as `Exec=`) at the start of a line, leading white space
/// ignored.
pub open spec fn key_value(line: Seq<char>, key: Seq<char>) -> Option<Seq<char>> {
    let t = trim_start(line);
    if starts_with(t, key) {
        Some(t.subrange(key.len() as int, t.len() as int))
    } else {
        None
    }
}

/// The line is an `Exec=` line that mentions `basename`.
pub open spec fn line_execs(line: Seq<char>, basename: Seq<char>) -> bool {
    match key_value(line, "Exec="@) {
        Some(e) => contains(e, basename),
        None => false,
    }
}

/// Some `Exec=` line of the entry mentions `basename`.
pub open spec fn exec_matches(content: Seq<char>, basename: Seq<char>) -> bool {
    exists|i: int| 0 <= i < lines(content).len() && #[trigger] line_execs(lines(content)[i], basename)
}

/// The value of the first `Name=` line.
pub open spec fn first_name(ls: Seq<Seq<char>>) -> Option<Seq<char>>
    decreases ls.len(),
{
    if ls.len() == 0 {
        None
    } else {
        match key_value(ls[0], "Name="@) {
            Some(n) => Some(n),
            None => first_name(ls.drop_first()),
        }
    }
}

/// The name that a `.desktop` entry gives to `basename`: its first `Name=` when one of its
/// `Exec=` lines mentions the binary.
pub open spec fn desktop_app_name(content: Seq<char>, basename: Seq<char>) -> Option<Seq<char>> {
    if exec_matches(content, basename) {
        first_name(lines(content))
    } else {
        None
    }
}

fn line_value(line: &Vec<char>, key: &Vec<char>) -> (r: Option<Vec<char>>)
    ensures
        match r {
            Some(v) => key_value(line@, key@) == Some(v@),
            None => key_value(line@, key@) is None,
        },
{
    let n = line.len();
    assert(line@.subrange(0, n as int) =~= line@);
    let k = leading_ws(line, 0, n);
    let t = slice_vec(line, k, n);
    if has_prefix(&t, key) {
        let v = slice_vec(&t, key.len(), t.len());
        Some(v)
    } else {
        None
    }
}

/// Whether one of the entry's `Exec=` lines mentions `basename`.
pub fn desktop_file_exec_matches(content: &str, basename: &str) -> (b: bool)
    ensures
        b == exec_matches(content@, basename@),
{
    proof {
        reveal_strlit("Exec=");
    }
    let ls = lines_chars(&chars_of(content));
    let key = chars_of("Exec=");
    let base = chars_of(basename);
    let ghost lv = ls@.map_values(|w: Vec<char>| w@);
    assert(lv == lines(content@));
    let mut i: usize = 0;
    while i < ls.len()
        invariant
            lv == ls@.map_values(|w: Vec<char>| w@),
            lv == lines(content@),
            key@ == "Exec="@,
            base@ == basename@,
            0 <= i <= ls@.len(),
            forall|j: int| 0 <= j < i ==> !#[trigger] line_execs(lv[j], basename@),
        decreases ls@.len() - i,
    {
        assert(lv[i as int] == ls@[i as int]@);
        match line_value(&ls[i], &key) {
            Some(e) => {
                if has_substring(&e, &base) {
                    assert(key_value(lv[i as int], "Exec="@) == Some(e@));
                    assert(line_execs(lv[i as int], basename@));
                    return true;
                }
            },
            None => {},
        }
        i += 1;
    }
    false
}

/// The name that the entry with text `content` gives to the binary `basename`.
pub fn check_desktop_file(content: &str, basename: &str) -> (r: Option<String>)
    ensures
        match r {
            Some(n) => desktop_app_name(content@, basename@) == Some(n@),
            None => desktop_app_name(content@, basename@) is None,
        },
{
    proof {
        reveal_strlit("Name=");
    }
    if !desktop_file_exec_matches(content, basename) {
        return None;
    }
    let ls = lines_chars(&chars_of(content));
    let key = chars_of("Name=");
    let ghost lv = ls@.map_values(|w: Vec<char>| w@);
    assert(lv == lines(content@));
    let mut i: usize = 0;
    assert(lv.subrange(0, lv.len() as int) =~= lv);
    while i < ls.len()
        invariant
            lv == ls@.map_values(|w: Vec<char>| w@),
            lv == lines(content@),
            key@ == "Name="@,
            exec_matches(content@, basename@),
            0 <= i <= ls@.len(),
            first_name(lv) == first_name(lv.subrange(i as int, lv.len() as int)),
        decreases ls@.len() - i,
    {
        assert(lv[i as int] == ls@[i as int]@);
        let ghost rest = lv.subrange(i as int, lv.len() as int);
        assert(rest[0] == lv[i as int]);
        match line_value(&ls[i], &key) {
            Some(v) => {
                return Some(from_chars(&v));
            },
            None => {},
        }
        assert(rest.drop_first() =~= lv.subrange(i + 1, lv.len() as int));
        i += 1;
    }
    None
}

/// The name given to `basename` by the first of the entries (texts of `.desktop` files, in
/// search order) that names it.
pub open spec fn first_desktop_name(contents: Seq<Seq<char>>, basename: Seq<char>) -> Option<Seq<char>>
    decreases contents.len(),
{
    if contents.len() == 0 {
        None
    } else {
        match desktop_app_name(contents[0], basename) {
            Some(n) => Some(n),
            None => first_desktop_name(contents.drop_first(), basename),
        }
    }
}

/// The display name of `exe_path`: the name of the first matching entry, else the binary's
/// name, else (no name at all) the path itself.
pub open spec fn resolved_app_name(exe_path: Seq<char>, contents: Seq<Seq<char>>) -> Seq<char> {
    let b = basename(exe_path);
    if b.len() == 0 {
        exe_path
    } else {
        match first_desktop_name(contents, b) {
            Some(n) => n,
            None => b,
        }
    }
}

/// The display name of `exe_path`, given the texts of the `.desktop` files of the
/// applications directories in search order.
pub fn resolve_app_name(exe_path: &str, desktop_contents: &Vec<String>) -> (r: String)
    ensures
        r@ == resolved_app_name(exe_path@, desktop_contents@.map_values(|c: String| c@)),
{
    proof {
        reveal_strlit("");
    }
    let ghost cv = desktop_contents@.map_values(|c: String| c@);
    let b = basename_of(exe_path);
    if chars_of(b.as_str()).len() == 0 {
        return owned(exe_path);
    }
    let mut i: usize = 0;
    assert(cv.subrange(0, cv.len() as int) =~= cv);
    while i < desktop_contents.len()
        invariant
            cv == desktop_contents@.map_values(|c: String| c@),
            b@ == basename(exe_path@),
            b@.len() > 0,
            0 <= i <= cv.len(),
            first_desktop_name(cv, b@) == first_desktop_name(cv.subrange(i as int, cv.len() as int), b@),
        decreases cv.len() - i,
    {
        let ghost rest = cv.subrange(i as int, cv.len() as int);
        assert(rest[0] == desktop_contents@[i as int]@);
        match check_desktop_file(desktop_contents[i].as_str(), b.as_str()) {
            Some(n) => {
                assert(first_desktop_name(rest, b@) == Some(n@));
                return n;
            },
            None => {},
        }
        assert(rest.drop_first() =~= cv.subrange(i + 1, cv.len() as int));
        i += 1;
    }
    assert(cv.subrange(i as int, cv.len() as int) =~= Seq::<Seq<char>>::empty());
    b
}

/// The first entry, among `(path, text)` pairs in search order, whose `Exec=` names
/// `basename`.
pub open spec fn first_exec_entry(entries: Seq<(Seq<char>, Seq<char>)>, basename: Seq<char>) -> Option<
    Seq<char>,
>
    decreases entries.len(),
{
    if entries.len() == 0 {
        None
    } else if exec_matches(entries[0].1, basename) {
        Some(entries[0].0)
    } else {
        first_exec_entry(entries.drop_first(), basename)
    }
}

/// The `.desktop` file for `exe_path`: none when the path has no file name (or an empty
/// one), else the first entry whose `Exec=` names it.
pub open spec fn desktop_file_for(exe_path: Seq<char>, entries: Seq<(Seq<char>, Seq<char>)>) -> Option<
    Seq<char>,
> {
    match file_name_of(exe_path) {
        Some(b) => if b.len() == 0 {
            None
        } else {
            first_exec_entry(entries, b)
        },
        None => None,
    }
}

/// The path of the `.desktop` file for `exe_path`, given the `(path, text)` of the
/// `.desktop` files of the applications directories in search order.
pub fn find_desktop_file(exe_path: &str, entries: &Vec<(String, String)>) -> (r: Option<String>)
    ensures
        match r {
            Some(p) => desktop_file_for(exe_path@, entries@.map_values(|e: (String, String)| (e.0@, e.1@)))
                == Some(p@),
            None => desktop_file_for(exe_path@, entries@.map_values(|e: (String, String)| (e.0@, e.1@)))
                is None,
        },
{
    proof {
        reveal_strlit("");
    }
    let ghost ev = entries@.map_values(|e: (String, String)| (e.0@, e.1@));
    let b = match file_name(exe_path) {
        Some(b) => b,
        None => {
            return None;
        },
    };
    if chars_of(b.as_str()).len() == 0 {
        return None;
    }
    let mut i: usize = 0;
    assert(ev.subrange(0, ev.len() as int) =~= ev);
    while i < entries.len()
        invariant
            ev == entries@.map_values(|e: (String, String)| (e.0@, e.1@)),
            file_name_of(exe_path@) == Some(b@),
            b@.len() > 0,
            0 <= i <= ev.len(),
            first_exec_entry(ev, b@) == first_exec_entry(ev.subrange(i as int, ev.len() as int), b@),
        decreases ev.len() - i,
    {
        let ghost rest = ev.subrange(i as int, ev.len() as int);
        assert(rest[0] == (entries@[i as int].0@, entries@[i as int].1@));
        if desktop_file_exec_matches(entries[i].1.as_str(), b.as_str()) {
            assert(first_exec_entry(rest, b@) == Some(entries@[i as int].0@));
            return Some(owned(entries[i].0.as_str()));
        }
        assert(rest.drop_first() =~= ev.subrange(i + 1, ev.len() as int));
        i += 1;
    }
    None
}

/// A directory joined with `applications` (no separator added after a trailing `/`).
pub open spec fn applications_dir(d: Seq<char>) -> Seq<char> {
    if d.len() == 0 {
        "applications"@
    } else if d.last() == '/' {
        d + "applications"@
    } else {
        d + "/applications"@
    }
}

fn join_applications(d: &Vec<char>) -> (r: String)
    ensures
        r@ == applications_dir(d@),
{
    proof {
        reveal_strlit("applications");
        reveal_strlit("/applications");
    }
    if d.len() == 0 {
        owned("applications")
    } else {
        let mut s = from_chars(d);
        if d[d.len() - 1] == '/' {
            push_str(&mut s, "applications");
        } else {
            push_str(&mut s, "/applications");
        }
        s
    }
}

/// The non-empty pieces of a `:`-separated list, each joined with `applications`.
pub open spec fn data_dirs_applications(pieces: Seq<Seq<char>>) -> Seq<Seq<char>>
    decreases pieces.len(),
{
    if pieces.len() == 0 {
        Seq::empty()
    } else {
        let rest = data_dirs_applications(pieces.drop_last());
        if pieces.last().len() == 0 {
            rest
        } else {
            rest.push(applications_dir(pieces.last()))
        }
    }
}

pub open spec fn default_data_dirs() -> Seq<char> {
    "/usr/local/share:/usr/share"@
}

/// Where `.desktop` entries are looked for: `$XDG_DATA_HOME/applications` first when it is
/// set, then the `applications` directory of each entry of `$XDG_DATA_DIRS` (by default
/// `/usr/local/share:/usr/share`).
pub open spec fn applications_dirs(data_dirs: Option<Seq<char>>, data_home: Option<Seq<char>>) -> Seq<
    Seq<char>,
> {
    let raw = match data_dirs {
        Some(d) => d,
        None => default_data_dirs(),
    };
    let dirs = data_dirs_applications(split_char(raw, ':'));
    match data_home {
        Some(h) => seq![applications_dir(h)] + dirs,
        None => dirs,
    }
}

/// The directories searched for `.desktop` entries, from the values of `XDG_DATA_DIRS`
/// and `XDG_DATA_HOME` (none when unset).
pub fn applications_dirs_from(data_dirs: Option<&str>, data_home: Option<&str>) -> (r: Vec<String>)
    ensures
        r@.map_values(|d: String| d@) == applications_dirs(
            match data_dirs {
                Some(d) => Some(d@),
                None => None,
            },
            match data_home {
                Some(h) => Some(h@),
                None => None,
            },
        ),
{
    let raw = match data_dirs {
        Some(d) => chars_of(d),
        None => chars_of("/usr/local/share:/usr/share"),
    };
    let pieces = split_char_chars(&raw, ':');
    let ghost pv = pieces@.map_values(|w: Vec<char>| w@);
    let mut r: Vec<String> = Vec::new();
    match data_home {
        Some(h) => {
            r.push(join_applications(&chars_of(h)));
        },
        None => {},
    }
    let ghost head = r@.map_values(|d: String| d@);
    let mut i: usize = 0;
    assert(pv.subrange(0, 0) =~= Seq::<Seq<char>>::empty());
    assert(r@.map_values(|d: String| d@) =~= head + data_dirs_applications(pv.subrange(0, 0)));
    while i < pieces.len()
        invariant
            pv == pieces@.map_values(|w: Vec<char>| w@),
            0 <= i <= pieces@.len(),
            r@.map_values(|d: String| d@) == head + data_dirs_applications(pv.subrange(0, i as int)),
        decreases pieces@.len() - i,
    {
        let ghost before = r@.map_values(|d: String| d@);
        let ghost sub = pv.subrange(0, i + 1);
        assert(sub.drop_last() =~= pv.subrange(0, i as int));
        assert(sub.last() == pieces@[i as int]@);
        if pieces[i].len() > 0 {
            let d = join_applications(&pieces[i]);
            r.push(d);
            assert(r@.map_values(|d: String| d@) =~= before.push(applications_dir(pieces@[i as int]@)));
        }
        i += 1;
    }
    assert(pv.subrange(0, pieces@.len() as int) =~= pv);
    proof {
        reveal_strlit("/usr/local/share:/usr/share");
    }
    assert(r@.map_values(|d: String| d@) =~= applications_dirs(
        match data_dirs {
            Some(d) => Some(d@),
            None => None,
        },
        match data_home {
            Some(h) => Some(h@),
            None => None,
        },
    ));
    r
}

/// Names of applications already resolved, keyed by executable path: filled in the
/// background so that the daemon's requests never wait on the disk.
pub struct AppNameCache {
    entries: Vec<(String, String)>,
}

pub open spec fn names_has(s: Seq<(Seq<char>, Seq<char>)>, k: Seq<char>) -> bool {
    exists|i: int| 0 <= i < s.len() && (#[trigger] s[i]).0 == k
}

pub open spec fn names_index(s: Seq<(Seq<char>, Seq<char>)>, k: Seq<char>) -> int {
    choose|i: int| 0 <= i < s.len() && (#[trigger] s[i]).0 == k
}

pub open spec fn names_distinct(s: Seq<(Seq<char>, Seq<char>)>) -> bool {
    forall|i: int, j: int| 0 <= i < j < s.len() ==> (#[trigger] s[i]).0 != (#[trigger] s[j]).0
}

pub open spec fn names_lookup(s: Seq<(Seq<char>, Seq<char>)>, k: Seq<char>) -> Option<Seq<char>> {
    if names_has(s, k) {
        Some(s[names_index(s, k)].1)
    } else {
        None
    }
}

pub open spec fn names_store(s: Seq<(Seq<char>, Seq<char>)>, k: Seq<char>, v: Seq<char>) -> Seq<
    (Seq<char>, Seq<char>),
> {
    if names_has(s, k) {
        s.update(names_index(s, k), (k, v))
    } else {
        s.push((k, v))
    }
}

/// What a lookup gives back of an insertion: after storing `name` for `k`, the lookup of `k`
/// gives `name` and the lookup of any other executable is what it was.
pub proof fn lemma_name_store_then_lookup(
    s: Seq<(Seq<char>, Seq<char>)>,
    k: Seq<char>,
    name: Seq<char>,
    other: Seq<char>,
)
    requires
        names_distinct(s),
    ensures
        names_distinct(names_store(s, k, name)),
        names_lookup(names_store(s, k, name), k) == Some(name),
        other != k ==> names_lookup(names_store(s, k, name), other) == names_lookup(s, other),
{
    let u = names_store(s, k, name);
    if names_has(s, k) {
        let x = names_index(s, k);
        assert(u == s.update(x, (k, name)));
        assert forall|a: int, b: int| 0 <= a < b < u.len() implies (#[trigger] u[a]).0 != (
        #[trigger] u[b]).0 by {
            if a == x {
                assert(s[b].0 != s[x].0);
            } else if b == x {
                assert(s[a].0 != s[x].0);
            }
        }
        assert(u[x] == (k, name));
        assert(names_has(u, k));
        let j = names_index(u, k);
        if j != x {
            if j < x {
                assert(u[j].0 != u[x].0);
            } else {
                assert(u[x].0 != u[j].0);
            }
        }
        if other != k {
            if names_has(s, other) {
                let m = names_index(s, other);
                assert(u[m] == s[m]);
                assert(names_has(u, other));
                let n = names_index(u, other);
                assert(u[n] == s[n]);
                if n != m {
                    if n < m {
                        assert(s[n].0 != s[m].0);
                    } else {
                        assert(s[m].0 != s[n].0);
                    }
                }
            } else if names_has(u, other) {
                let n = names_index(u, other);
                assert(u[n] == s[n]);
                assert(names_has(s, other));
            }
        }
    } else {
        assert(u == s.push((k, name)));
        let last = s.len() as int;
        assert(u[last] == (k, name));
        assert forall|a: int, b: int| 0 <= a < b < u.len() implies (#[trigger] u[a]).0 != (
        #[trigger] u[b]).0 by {
            if b == last {
                assert(u[a] == s[a]);
                if u[a].0 == k {
                    assert(names_has(s, k));
                }
            } else {
                assert(u[a] == s[a] && u[b] == s[b]);
            }
        }
        assert(names_has(u, k));
        let j = names_index(u, k);
        if j != last {
            assert(u[j] == s[j]);
            assert(names_has(s, k));
        }
        if other != k {
            if names_has(s, other) {
                let m = names_index(s, other);
                assert(u[m] == s[m]);
                assert(names_has(u, other));
                let n = names_index(u, other);
                assert(n != last);
                assert(u[n] == s[n]);
                if n != m {
                    if n < m {
                        assert(s[n].0 != s[m].0);
                    } else {
                        assert(s[m].0 != s[n].0);
                    }
                }
            } else if names_has(u, other) {
                let n = names_index(u, other);
                assert(n != last);
                assert(u[n] == s[n]);
                assert(names_has(s, other));
            }
        }
    }
}

impl AppNameCache {
    pub closed spec fn entries(&self) -> Seq<(Seq<char>, Seq<char>)> {
        self.entries@.map_values(|e: (String, String)| (e.0@, e.1@))
    }

    pub open spec fn wf(&self) -> bool {
        names_distinct(self.entries())
    }

    pub fn new() -> (c: AppNameCache)
        ensures
            c.entries() == Seq::<(Seq<char>, Seq<char>)>::empty(),
            c.wf(),
    {
        let c = AppNameCache { entries: Vec::new() };
        assert(c.entries() =~= Seq::<(Seq<char>, Seq<char>)>::empty());
        c
    }

    fn index_of(&self, exe_path: &str) -> (r: Option<usize>)
        requires
            self.wf(),
        ensures
            match r {
                Some(i) => i < self.entries().len() && names_has(self.entries(), exe_path@) && i
                    == names_index(self.entries(), exe_path@),
                None => !names_has(self.entries(), exe_path@),
            },
    {
        let ghost s = self.entries();
        let mut i: usize = 0;
        while i < self.entries.len()
            invariant
                s == self.entries(),
                names_distinct(s),
                0 <= i <= self.entries@.len(),
                forall|j: int| 0 <= j < i ==> (#[trigger] s[j]).0 != exe_path@,
            decreases self.entries@.len() - i,
        {
            assert(s[i as int].0 == self.entries@[i as int].0@);
            if str_eq(self.entries[i].0.as_str(), exe_path) {
                proof {
                    assert(names_has(s, exe_path@));
                    let c = names_index(s, exe_path@);
                    if c < i {
                        assert(s[c].0 != s[i as int].0);
                    } else if c > i {
                        assert(s[i as int].0 != s[c].0);
                    }
                }
                return Some(i);
            }
            i += 1;
        }
        None
    }

    pub fn get(&self, exe_path: &str) -> (r: Option<String>)
        requires
            self.wf(),
        ensures
            match r {
                Some(n) => names_lookup(self.entries(), exe_path@) == Some(n@),
                None => names_lookup(self.entries(), exe_path@) is None,
            },
    {
        match self.index_of(exe_path) {
            Some(i) => Some(self.entries[i].1.clone()),
            None => None,
        }
    }

    pub fn insert(&mut self, exe_path: String, name: String)
        requires
            old(self).wf(),
        ensures
            final(self).wf(),
            final(self).entries() == names_store(old(self).entries(), exe_path@, name@),
    {
        let ghost s = self.entries();
        let ghost k = exe_path@;
        let ghost v = name@;
        match self.index_of(exe_path.as_str()) {
            Some(i) => {
                let _ = self.entries.remove(i);
                self.entries.insert(i, (exe_path, name));
                assert(self.entries() =~= s.update(i as int, (k, v)));
                proof {
                    let t = self.entries();
                    assert forall|a: int, b: int| 0 <= a < b < t.len() implies (#[trigger] t[a]).0
                        != (#[trigger] t[b]).0 by {
                        if a != i && b != i {
                            assert(t[a] == s[a] && t[b] == s[b]);
                        } else if a == i {
                            assert(t[b] == s[b]);
                            assert(s[a].0 != s[b].0);
                        } else {
                            assert(t[a] == s[a]);
                            assert(s[a].0 != s[b].0);
                        }
                    }
                }
            },
            None => {
                self.entries.push((exe_path, name));
                assert(self.entries() =~= s.push((k, v)));
                proof {
                    let t = self.entries();
                    assert forall|a: int, b: int| 0 <= a < b < t.len() implies (#[trigger] t[a]).0
                        != (#[trigger] t[b]).0 by {
                        if b == t.len() - 1 {
                            assert(t[a] == s[a]);
                            if s[a].0 == k {
                                assert(names_has(s, k));
                            }
                        } else {
                            assert(t[a] == s[a] && t[b] == s[b]);
                        }
                    }
                }
            },
        }
    }
}


/// The first `Name=` value of a list of lines is that of the earliest line (in order) that
/// starts with `Name=` after leading whitespace; there is none exactly when no line does.
pub proof fn lemma_first_name_is_earliest(ls: Seq<Seq<char>>)
    ensures
        first_name(ls) matches Some(n) ==> exists|i: int|
            0 <= i < ls.len() && key_value(#[trigger] ls[i], "Name="@) == Some(n) && forall|j: int|
                0 <= j < i ==> key_value(#[trigger] ls[j], "Name="@) is None,
        first_name(ls) is None ==> forall|i: int| 0 <= i < ls.len() ==> key_value(#[trigger] ls[i], "Name="@) is None,
        forall|i: int|
            0 <= i < ls.len() && key_value(#[trigger] ls[i], "Name="@) is Some && (forall|j: int|
                0 <= j < i ==> key_value(#[trigger] ls[j], "Name="@) is None) ==> first_name(ls) == key_value(
                ls[i],
                "Name="@,
            ),
    decreases ls.len(),
{
    if ls.len() > 0 {
        let rest = ls.drop_first();
        lemma_first_name_is_earliest(rest);
        assert forall|i: int| 0 <= i < rest.len() implies #[trigger] rest[i] == ls[i + 1] by {}
        if key_value(ls[0], "Name="@) is None {
            if first_name(ls) is Some {
                let n = first_name(ls)->0;
                let i = choose|i: int|
                    0 <= i < rest.len() && key_value(#[trigger] rest[i], "Name="@) == Some(n) && forall|j: int|
                        0 <= j < i ==> key_value(#[trigger] rest[j], "Name="@) is None;
                assert(key_value(ls[i + 1], "Name="@) == Some(n));
                assert forall|j: int| 0 <= j < i + 1 implies key_value(#[trigger] ls[j], "Name="@) is None by {
                    if j > 0 {
                        assert(ls[j] == rest[j - 1]);
                    }
                }
            } else {
                assert forall|i: int| 0 <= i < ls.len() implies key_value(#[trigger] ls[i], "Name="@) is None by {
                    if i > 0 {
                        assert(ls[i] == rest[i - 1]);
                    }
                }
            }
            assert forall|i: int|
                0 <= i < ls.len() && key_value(#[trigger] ls[i], "Name="@) is Some && (forall|j: int|
                    0 <= j < i ==> key_value(#[trigger] ls[j], "Name="@) is None) implies first_name(ls)
                == key_value(ls[i], "Name="@) by {
                assert(i > 0);
                assert(ls[i] == rest[i - 1]);
                assert forall|j: int| 0 <= j < i - 1 implies key_value(#[trigger] rest[j], "Name="@) is None by {
                    assert(rest[j] == ls[j + 1]);
                }
            }
        } else {
            assert(key_value(ls[0], "Name="@) == first_name(ls));
        }
    }
}

/// The name an entry gives to a binary its `Exec=` lines mention is the value of its earliest
/// `Name=` line; an entry whose `Exec=` lines do not mention it gives none.
pub proof fn lemma_desktop_name_is_first_name_line(content: Seq<char>, basename: Seq<char>)
    ensures
        !exec_matches(content, basename) ==> desktop_app_name(content, basename) is None,
        exec_matches(content, basename) ==> forall|i: int|
            0 <= i < lines(content).len() && key_value(#[trigger] lines(content)[i], "Name="@) is Some
                && (forall|j: int| 0 <= j < i ==> key_value(#[trigger] lines(content)[j], "Name="@) is None)
                ==> desktop_app_name(content, basename) == key_value(lines(content)[i], "Name="@),
        desktop_app_name(content, basename) matches Some(n) ==> exists|i: int|
            0 <= i < lines(content).len() && key_value(#[trigger] lines(content)[i], "Name="@) == Some(n)
                && forall|j: int| 0 <= j < i ==> key_value(#[trigger] lines(content)[j], "Name="@) is None,
{
    lemma_first_name_is_earliest(lines(content));
}

} // verus!
