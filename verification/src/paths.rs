//! Paths under the user's data directory, computed from the environment's values.

use vstd::prelude::*;

use crate::text::{chars_of, owned, push_str};

verus! {

/// `PathBuf::join` on Unix text paths: an absolute `b` replaces `a`; otherwise `b` is
/// appended, with a `/` in between unless `a` is empty or already ends with one.
pub open spec fn path_join(a: Seq<char>, b: Seq<char>) -> Seq<char> {
    if b.len() > 0 && b[0] == '/' {
        b
    } else if a.len() == 0 {
        b
    } else if a.last() == '/' {
        a + b
    } else {
        a + "/"@ + b
    }
}

pub fn join(a: &str, b: &str) -> (r: String)
    ensures
        r@ == path_join(a@, b@),
{
    proof {
        reveal_strlit("/");
    }
    let av = chars_of(a);
    let bv = chars_of(b);
    if bv.len() > 0 && bv[0] == '/' {
        owned(b)
    } else if av.len() == 0 {
        owned(b)
    } else if av[av.len() - 1] == '/' {
        let mut r = owned(a);
        push_str(&mut r, b);
        r
    } else {
        let mut r = owned(a);
        push_str(&mut r, "/");
        push_str(&mut r, b);
        r
    }
}

/// The user's data directory: `$XDG_DATA_HOME`, else `$HOME/.local/share` (with `.` for an
/// unset `HOME`).
pub open spec fn data_home(xdg: Option<Seq<char>>, home: Option<Seq<char>>) -> Seq<char> {
    match xdg {
        Some(h) => h,
        None => path_join(
            match home {
                Some(h) => h,
                None => "."@,
            },
            ".local/share"@,
        ),
    }
}

pub open spec fn opt_str_view(o: Option<&str>) -> Option<Seq<char>> {
    match o {
        Some(s) => Some(s@),
        None => None,
    }
}

pub fn xdg_data_home(xdg: Option<&str>, home: Option<&str>) -> (r: String)
    ensures
        r@ == data_home(opt_str_view(xdg), opt_str_view(home)),
{
    match xdg {
        Some(h) => owned(h),
        None => {
            let base = match home {
                Some(h) => h,
                None => ".",
            };
            join(base, ".local/share")
        },
    }
}

/// Vitrail's own data directory.
pub open spec fn vitrail_dir(xdg: Option<Seq<char>>, home: Option<Seq<char>>) -> Seq<char> {
    path_join(data_home(xdg, home), "vitrail"@)
}

pub fn vitrail_data_dir(xdg: Option<&str>, home: Option<&str>) -> (r: String)
    ensures
        r@ == vitrail_dir(opt_str_view(xdg), opt_str_view(home)),
{
    let base = xdg_data_home(xdg, home);
    join(base.as_str(), "vitrail")
}

} // verus!
