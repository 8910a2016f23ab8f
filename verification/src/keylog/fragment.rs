//! The decrypted content of one exchange, as tshark reconstructs it.

use vstd::prelude::*;

use crate::attribution::FiveTuple;
use crate::shared::{CertificateInfo, HttpHeader};
use crate::text::{chars_of, substring};

verus! {

/// What tshark decrypted of one exchange, keyed by its connection.
#[derive(Debug, Clone)]
pub struct DecryptedFragment {
    pub five_tuple: FiveTuple,
    pub host: Option<String>,
    pub method: Option<String>,
    pub path: Option<String>,
    pub status: Option<u16>,
    pub request_headers: Vec<HttpHeader>,
    pub response_headers: Vec<HttpHeader>,
    pub body_preview: Option<String>,
    pub content_type: Option<String>,
    pub certificate: Option<CertificateInfo>,
}

/// The longest body preview kept, in bytes of UTF-8.
pub const BODY_PREVIEW_MAX_BYTES: usize = 2000;

/// The number of bytes of a character in UTF-8.
pub open spec fn utf8_width(c: char) -> nat {
    let u = c as u32;
    if u < 0x80 {
        1
    } else if u < 0x800 {
        2
    } else if u < 0x10000 {
        3
    } else {
        4
    }
}

/// The number of bytes of a text in UTF-8 (`str::len`).
pub open spec fn utf8_len(s: Seq<char>) -> nat
    decreases s.len(),
{
    if s.len() == 0 {
        0
    } else {
        utf8_len(s.drop_last()) + utf8_width(s.last())
    }
}

fn char_width(c: char) -> (w: usize)
    ensures
        w == utf8_width(c),
{
    let u = c as u32;
    if u < 0x80 {
        1
    } else if u < 0x800 {
        2
    } else if u < 0x10000 {
        3
    } else {
        4
    }
}

/// The longest prefix of `s` that holds in `max` bytes of UTF-8.
pub open spec fn truncated(s: Seq<char>, max: int) -> Seq<char>
    decreases s.len(),
{
    if s.len() == 0 || utf8_width(s[0]) > max {
        Seq::empty()
    } else {
        seq![s[0]] + truncated(s.drop_first(), max - utf8_width(s[0]))
    }
}

/// The longest prefix of `value` that holds in `max_bytes` bytes of UTF-8: a character is
/// never cut in two.
pub fn truncate_utf8(value: &str, max_bytes: usize) -> (r: String)
    ensures
        r@ == truncated(value@, max_bytes as int),
        r@.len() <= value@.len(),
        r@ == value@.subrange(0, r@.len() as int),
        utf8_len(r@) <= max_bytes,
        r@.len() < value@.len() ==> utf8_len(value@.subrange(0, r@.len() as int + 1)) > max_bytes,
{
    let chars = chars_of(value);
    let n = chars.len();
    let mut acc: usize = 0;
    let mut i: usize = 0;
    assert(chars@.subrange(0, 0) =~= Seq::<char>::empty());
    assert(chars@.subrange(0, n as int) =~= chars@);
    assert(Seq::<char>::empty() + truncated(chars@, max_bytes as int) =~= truncated(chars@, max_bytes as int));
    while i < n
        invariant
            n == chars@.len(),
            chars@ == value@,
            0 <= i <= n,
            acc == utf8_len(chars@.subrange(0, i as int)),
            acc <= max_bytes,
            truncated(value@, max_bytes as int) == chars@.subrange(0, i as int) + truncated(
                chars@.subrange(i as int, n as int),
                max_bytes - acc,
            ),
        ensures
            truncated(value@, max_bytes as int) == chars@.subrange(0, i as int) + truncated(
                chars@.subrange(i as int, n as int),
                max_bytes - acc,
            ),
            0 <= i <= n,
            acc == utf8_len(chars@.subrange(0, i as int)),
            acc <= max_bytes,
            i < n ==> acc + utf8_width(chars@[i as int]) > max_bytes,
        decreases n - i,
    {
        let w = char_width(chars[i]);
        assert(chars@.subrange(0, i + 1).drop_last() =~= chars@.subrange(0, i as int));
        let ghost rest = chars@.subrange(i as int, n as int);
        assert(rest[0] == chars@[i as int]);
        if w > max_bytes - acc {
            assert(truncated(rest, max_bytes - acc) =~= Seq::<char>::empty());
            break;
        }
        assert(rest.drop_first() =~= chars@.subrange(i + 1, n as int));
        assert(chars@.subrange(0, i as int) + seq![chars@[i as int]] =~= chars@.subrange(0, i + 1));
        acc = acc + w;
        i += 1;
    }
    proof {
        if i < n {
            assert(chars@.subrange(0, i + 1).drop_last() =~= chars@.subrange(0, i as int));
            let rest = chars@.subrange(i as int, n as int);
            assert(rest[0] == chars@[i as int]);
            assert(truncated(rest, max_bytes - acc) =~= Seq::<char>::empty());
        } else {
            assert(chars@.subrange(i as int, n as int) =~= Seq::<char>::empty());
        }
        assert(truncated(value@, max_bytes as int) =~= chars@.subrange(0, i as int));
    }
    substring(&chars, 0, i)
}

} // verus!
