//! Whether tshark can decrypt anything here: installed, and allowed to capture on at least
//! one real interface. Absent or not allowed is an explicit degraded state.

use vstd::prelude::*;

use crate::shared::{opt_view, strings_view};
use crate::text::{
    ascii_lower, char_ascii_lower, chars_of, contains, find_first, first_index_of, has_substring,
    lines, lines_chars, owned, push_str, slice_vec, substring, trim, trim_bounds, trim_str,
};

verus! {

#[derive(Debug, Clone)]
pub struct TsharkAvailability {
    pub installed: bool,
    pub can_capture: bool,
    /// Interface identifiers usable with `-i` (the numbers of `tshark -D`), without the
    /// loopback and `any`.
    pub interfaces: Vec<String>,
    pub reason: Option<String>,
}

impl TsharkAvailability {
    /// A copy of this availability.
    pub fn dup(&self) -> (r: TsharkAvailability)
        ensures
            availability_view(r) == availability_view(*self),
    {
        TsharkAvailability {
            installed: self.installed,
            can_capture: self.can_capture,
            interfaces: crate::shared::dup_strings(&self.interfaces),
            reason: crate::shared::dup_opt(&self.reason),
        }
    }

    /// tshark is missing, for the given reason.
    pub fn unavailable(reason: &str) -> (a: TsharkAvailability)
        ensures
            !a.installed,
            !a.can_capture,
            a.interfaces@.len() == 0,
            opt_view(a.reason) == Some(reason@),
    {
        TsharkAvailability {
            installed: false,
            can_capture: false,
            interfaces: Vec::new(),
            reason: Some(owned(reason)),
        }
    }
}

/// ASCII case-insensitive equality (`str::eq_ignore_ascii_case`).
pub open spec fn eq_ignore_ascii_case(a: Seq<char>, b: Seq<char>) -> bool {
    a.len() == b.len() && forall|i: int| 0 <= i < a.len() ==> ascii_lower(a[i]) == ascii_lower(b[i])
}

fn chars_eq_ignore_ascii_case(a: &Vec<char>, b: &Vec<char>) -> (r: bool)
    ensures
        r == eq_ignore_ascii_case(a@, b@),
{
    if a.len() != b.len() {
        return false;
    }
    let mut i: usize = 0;
    while i < a.len()
        invariant
            a@.len() == b@.len(),
            0 <= i <= a@.len(),
            forall|j: int| 0 <= j < i ==> ascii_lower(a@[j]) == ascii_lower(b@[j]),
        decreases a@.len() - i,
    {
        if char_ascii_lower(a[i]) != char_ascii_lower(b[i]) {
            return false;
        }
        i += 1;
    }
    true
}

/// The interface of one line of `tshark -D` (`"1. wlan0"`): its number, unless the line is
/// blank, has no `.`, or names the loopback, `any`, or nothing.
pub open spec fn interface_entry(line: Seq<char>) -> Option<Seq<char>> {
    let t = trim(line);
    if t.len() == 0 {
        None
    } else {
        match first_index_of(t, '.') {
            None => None,
            Some(i) => {
                let name = trim(t.subrange(i + 1, t.len() as int));
                if name.len() == 0 || contains(name, "(Loopback)"@) || eq_ignore_ascii_case(
                    name,
                    "any"@,
                ) {
                    None
                } else {
                    Some(trim(t.subrange(0, i)))
                }
            },
        }
    }
}

pub open spec fn capturable(ls: Seq<Seq<char>>) -> Seq<Seq<char>>
    decreases ls.len(),
{
    if ls.len() == 0 {
        Seq::empty()
    } else {
        let r = capturable(ls.drop_last());
        match interface_entry(ls.last()) {
            Some(n) => r.push(n),
            None => r,
        }
    }
}

fn line_interface(line: &Vec<char>) -> (r: Option<String>)
    ensures
        match r {
            Some(n) => interface_entry(line@) == Some(n@),
            None => interface_entry(line@) is None,
        },
{
    proof {
        reveal_strlit("(Loopback)");
        reveal_strlit("any");
    }
    let n = line.len();
    assert(line@.subrange(0, n as int) =~= line@);
    let (a, b) = trim_bounds(line, 0, n);
    let t = slice_vec(line, a, b);
    if t.len() == 0 {
        return None;
    }
    let dot = match find_first(&t, '.') {
        Some(i) => i,
        None => {
            return None;
        },
    };
    let after = slice_vec(&t, dot + 1, t.len());
    assert(after@.subrange(0, after@.len() as int) =~= after@);
    let (c, d) = trim_bounds(&after, 0, after.len());
    let name = slice_vec(&after, c, d);
    let loopback = chars_of("(Loopback)");
    let any = chars_of("any");
    if name.len() == 0 || has_substring(&name, &loopback) || chars_eq_ignore_ascii_case(&name, &any) {
        return None;
    }
    assert(t@.subrange(0, dot as int).subrange(0, dot as int) =~= t@.subrange(0, dot as int));
    let (e, f) = trim_bounds(&t, 0, dot);
    Some(substring(&t, e, f))
}

/// The interfaces listed by `tshark -D` that can be captured on.
pub fn capturable_interfaces(dash_d_output: &str) -> (r: Vec<String>)
    ensures
        strings_view(r@) == capturable(lines(dash_d_output@)),
{
    let ls = lines_chars(&chars_of(dash_d_output));
    let ghost lv = ls@.map_values(|w: Vec<char>| w@);
    let mut r: Vec<String> = Vec::new();
    let mut i: usize = 0;
    assert(lv.subrange(0, 0) =~= Seq::<Seq<char>>::empty());
    while i < ls.len()
        invariant
            lv == ls@.map_values(|w: Vec<char>| w@),
            0 <= i <= ls@.len(),
            strings_view(r@) == capturable(lv.subrange(0, i as int)),
        decreases ls@.len() - i,
    {
        let ghost before = strings_view(r@);
        let ghost sub = lv.subrange(0, i + 1);
        assert(sub.drop_last() =~= lv.subrange(0, i as int));
        assert(sub.last() == ls@[i as int]@);
        match line_interface(&ls[i]) {
            Some(n) => {
                r.push(n);
                assert(strings_view(r@) =~= before.push(interface_entry(sub.last())->0));
            },
            None => {},
        }
        i += 1;
    }
    assert(lv.subrange(0, ls@.len() as int) =~= lv);
    r
}

pub open spec fn no_interface_reason() -> Seq<char> {
    "tshark -D n'a retourné aucune interface capturable (permission de capture probablement absente, cf. groupe wireshark)"@
}

/// What the outcome of `tshark -D` says: a failure (with its trimmed error output in the
/// reason), or the capturable interfaces, capture being possible only when there is one.
pub open spec fn availability_from(success: bool, stdout: Seq<char>, stderr: Seq<char>) -> (
    bool,
    bool,
    Seq<Seq<char>>,
    Option<Seq<char>>,
) {
    if !success {
        (true, false, Seq::empty(), Some("tshark -D a échoué: "@ + trim(stderr)))
    } else {
        let interfaces = capturable(lines(stdout));
        if interfaces.len() == 0 {
            (true, false, interfaces, Some(no_interface_reason()))
        } else {
            (true, true, interfaces, None)
        }
    }
}

pub open spec fn availability_view(a: TsharkAvailability) -> (bool, bool, Seq<Seq<char>>, Option<Seq<char>>) {
    (a.installed, a.can_capture, strings_view(a.interfaces@), opt_view(a.reason))
}

/// Interprets the outcome of `tshark -D` (its success, standard output and error output).
pub fn interpret_dash_d(success: bool, stdout: &str, stderr: &str) -> (a: TsharkAvailability)
    ensures
        availability_view(a) == availability_from(success, stdout@, stderr@),
{
    if !success {
        let mut reason = owned("tshark -D a échoué: ");
        let trimmed = trim_str(stderr);
        push_str(&mut reason, trimmed.as_str());
        let a = TsharkAvailability {
            installed: true,
            can_capture: false,
            interfaces: Vec::new(),
            reason: Some(reason),
        };
        assert(strings_view(a.interfaces@) =~= Seq::<Seq<char>>::empty());
        return a;
    }
    let interfaces = capturable_interfaces(stdout);
    if interfaces.len() == 0 {
        return TsharkAvailability {
            installed: true,
            can_capture: false,
            interfaces,
            reason: Some(
                owned(
                    "tshark -D n'a retourné aucune interface capturable (permission de capture probablement absente, cf. groupe wireshark)",
                ),
            ),
        };
    }
    TsharkAvailability { installed: true, can_capture: true, interfaces, reason: None }
}

} // verus!
