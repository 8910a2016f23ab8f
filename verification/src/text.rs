//! Character-level text utilities shared by every parser of the library, each one
//! stated over `Seq<char>` so that parsers can be specified exactly.

use vstd::prelude::*;

verus! {

// ---------------------------------------------------------------------------------------
// Character classes
// ---------------------------------------------------------------------------------------

/// Unicode `White_Space`, the class used by `str::trim` and `str::split_whitespace`.
pub open spec fn is_ws(c: char) -> bool {
    let u = c as u32;
    ||| 9 <= u <= 13
    ||| u == 32
    ||| u == 0x85
    ||| u == 0xA0
    ||| u == 0x1680
    ||| 0x2000 <= u <= 0x200A
    ||| u == 0x2028
    ||| u == 0x2029
    ||| u == 0x202F
    ||| u == 0x205F
    ||| u == 0x3000
}

pub fn char_is_ws(c: char) -> (b: bool)
    ensures
        b == is_ws(c),
{
    let u = c as u32;
    (9 <= u && u <= 13) || u == 32 || u == 0x85 || u == 0xA0 || u == 0x1680 || (0x2000 <= u
        && u <= 0x200A) || u == 0x2028 || u == 0x2029 || u == 0x202F || u == 0x205F || u == 0x3000
}

pub open spec fn is_digit(c: char) -> bool {
    48 <= c as u32 <= 57
}

pub open spec fn digit_value(c: char) -> int {
    (c as u32) - 48
}

pub open spec fn is_ascii_alnum(c: char) -> bool {
    ||| is_digit(c)
    ||| 97 <= c as u32 <= 122
    ||| 65 <= c as u32 <= 90
}

pub fn char_is_ascii_alnum(c: char) -> (b: bool)
    ensures
        b == is_ascii_alnum(c),
{
    let u = c as u32;
    (48 <= u && u <= 57) || (97 <= u && u <= 122) || (65 <= u && u <= 90)
}

pub open spec fn ascii_lower(c: char) -> char {
    if 65 <= c as u32 <= 90 {
        ((c as u32) + 32) as char
    } else {
        c
    }
}

pub fn char_ascii_lower(c: char) -> (r: char)
    ensures
        r == ascii_lower(c),
{
    let u = c as u32;
    if 65 <= u && u <= 90 {
        let l: u32 = u + 32;
        assert(l == ((c as u32) + 32));
        // every value in 97..=122 is a valid scalar value
        char_from_ascii(l)
    } else {
        c
    }
}

/// The character whose scalar value is `u`, for an ASCII value.
pub fn char_from_ascii(u: u32) -> (c: char)
    requires
        u < 128,
    ensures
        c as u32 == u,
        c == u as char,
{
    let b: u8 = u as u8;
    let c = b as char;
    c
}

// ---------------------------------------------------------------------------------------
// String construction
// ---------------------------------------------------------------------------------------

/// `String::push`, as documented: appends one character.
#[verifier::external_body]
pub(crate) fn push_char(s: &mut String, c: char)
    ensures
        final(s)@ == old(s)@.push(c),
{
    s.push(c);
}

/// `str::to_owned`.
pub fn owned(s: &str) -> (r: String)
    ensures
        r@ == s@,
{
    s.to_owned()
}

/// Appends a string slice.
pub fn push_str(s: &mut String, t: &str)
    ensures
        final(s)@ == old(s)@ + t@,
{
    s.append(t);
}

/// Builds a `String` holding exactly the given characters.
pub fn from_chars(v: &[char]) -> (s: String)
    ensures
        s@ == v@,
{
    let mut s = String::new();
    let mut i: usize = 0;
    while i < v.len()
        invariant
            0 <= i <= v@.len(),
            s@ == v@.subrange(0, i as int),
        decreases v@.len() - i,
    {
        push_char(&mut s, v[i]);
        assert(v@.subrange(0, i + 1) == v@.subrange(0, i as int).push(v@[i as int]));
        i += 1;
    }
    assert(v@.subrange(0, v@.len() as int) == v@);
    s
}

/// The characters of `v[lo..hi]` as a `String`.
pub fn substring(v: &[char], lo: usize, hi: usize) -> (s: String)
    requires
        lo <= hi <= v@.len(),
    ensures
        s@ == v@.subrange(lo as int, hi as int),
{
    let mut s = String::new();
    let mut i: usize = lo;
    while i < hi
        invariant
            lo <= i <= hi <= v@.len(),
            s@ == v@.subrange(lo as int, i as int),
        decreases hi - i,
    {
        push_char(&mut s, v[i]);
        assert(v@.subrange(lo as int, i + 1) == v@.subrange(lo as int, i as int).push(
            v@[i as int],
        ));
        i += 1;
    }
    s
}

/// The characters of a string slice, in order.
pub fn chars_of(s: &str) -> (v: Vec<char>)
    ensures
        v@ == s@,
{
    let mut v: Vec<char> = Vec::new();
    let n = s.unicode_len();
    let mut i: usize = 0;
    while i < n
        invariant
            n == s@.len(),
            0 <= i <= n,
            v@ == s@.subrange(0, i as int),
        decreases n - i,
    {
        let c = s.get_char(i);
        v.push(c);
        assert(s@.subrange(0, i + 1) == s@.subrange(0, i as int).push(c));
        i += 1;
    }
    assert(s@.subrange(0, n as int) == s@);
    v
}

/// Equality of two string slices, character by character.
pub fn str_eq(a: &str, b: &str) -> (r: bool)
    ensures
        r == (a@ == b@),
{
    let va = chars_of(a);
    let vb = chars_of(b);
    seq_eq(&va, &vb)
}

pub fn seq_eq(a: &[char], b: &[char]) -> (r: bool)
    ensures
        r == (a@ == b@),
{
    if a.len() != b.len() {
        return false;
    }
    let mut i: usize = 0;
    while i < a.len()
        invariant
            a@.len() == b@.len(),
            0 <= i <= a@.len(),
            forall|j: int| 0 <= j < i ==> a@[j] == b@[j],
        decreases a@.len() - i,
    {
        if a[i] != b[i] {
            return false;
        }
        i += 1;
    }
    assert(a@ =~= b@);
    true
}

// ---------------------------------------------------------------------------------------
// Searching
// ---------------------------------------------------------------------------------------

pub open spec fn starts_with(s: Seq<char>, p: Seq<char>) -> bool {
    p.len() <= s.len() && s.subrange(0, p.len() as int) == p
}

pub open spec fn occurs_at(s: Seq<char>, p: Seq<char>, i: int) -> bool {
    0 <= i && i + p.len() <= s.len() && s.subrange(i, i + p.len()) == p
}

pub open spec fn contains(s: Seq<char>, p: Seq<char>) -> bool {
    exists|i: int| occurs_at(s, p, i)
}

pub fn has_prefix(s: &[char], p: &[char]) -> (r: bool)
    ensures
        r == starts_with(s@, p@),
{
    if p.len() > s.len() {
        return false;
    }
    let mut i: usize = 0;
    while i < p.len()
        invariant
            p@.len() <= s@.len(),
            0 <= i <= p@.len(),
            forall|j: int| 0 <= j < i ==> s@[j] == p@[j],
        decreases p@.len() - i,
    {
        if s[i] != p[i] {
            assert(s@.subrange(0, p@.len() as int)[i as int] != p@[i as int]);
            return false;
        }
        i += 1;
    }
    assert(s@.subrange(0, p@.len() as int) =~= p@);
    true
}

/// Whether `p` occurs in `s` starting at index `i`.
pub fn matches_at(s: &[char], p: &[char], i: usize) -> (r: bool)
    ensures
        r == occurs_at(s@, p@, i as int),
{
    if i > s.len() || p.len() > s.len() - i {
        return false;
    }
    let sl = s.len();
    let mut k: usize = 0;
    while k < p.len()
        invariant
            sl == s@.len(),
            i <= s@.len(),
            i + p@.len() <= s@.len(),
            0 <= k <= p@.len(),
            forall|j: int| 0 <= j < k ==> s@[i + j] == p@[j],
        decreases p@.len() - k,
    {
        assert(i + k < sl);
        if s[i + k] != p[k] {
            assert(s@.subrange(i as int, i + p@.len())[k as int] != p@[k as int]);
            return false;
        }
        k += 1;
    }
    assert(s@.subrange(i as int, i + p@.len()) =~= p@);
    true
}

pub fn has_substring(s: &[char], p: &[char]) -> (r: bool)
    ensures
        r == contains(s@, p@),
{
    let mut i: usize = 0;
    loop
        invariant
            0 <= i <= s@.len(),
            forall|j: int| 0 <= j < i ==> !occurs_at(s@, p@, j),
        decreases s@.len() - i,
    {
        if matches_at(s, p, i) {
            return true;
        }
        if i == s.len() {
            assert forall|j: int| !occurs_at(s@, p@, j) by {
                if 0 <= j && j + p@.len() <= s@.len() {
                    assert(j <= i);
                }
            }
            return false;
        }
        i += 1;
    }
}

/// Index of the first occurrence of `c`.
#[verifier::opaque]
pub open spec fn first_index_of(s: Seq<char>, c: char) -> Option<int> {
    if exists|i: int| 0 <= i < s.len() && s[i] == c {
        Some(choose|i: int| 0 <= i < s.len() && s[i] == c && forall|j: int| 0 <= j < i ==> s[j] != c)
    } else {
        None
    }
}

/// Index of the last occurrence of `c`.
#[verifier::opaque]
pub open spec fn last_index_of(s: Seq<char>, c: char) -> Option<int> {
    if exists|i: int| 0 <= i < s.len() && s[i] == c {
        Some(
            choose|i: int|
                0 <= i < s.len() && s[i] == c && forall|j: int| i < j < s.len() ==> s[j] != c,
        )
    } else {
        None
    }
}

pub fn find_first(s: &[char], c: char) -> (r: Option<usize>)
    ensures
        r is Some ==> first_index_of(s@, c) == Some(r->0 as int),
        r is None ==> first_index_of(s@, c) is None,
        r is Some ==> r->0 < s@.len() && s@[r->0 as int] == c && forall|j: int|
            0 <= j < r->0 ==> s@[j] != c,
        r is None ==> forall|j: int| 0 <= j < s@.len() ==> s@[j] != c,
{
    let mut i: usize = 0;
    while i < s.len()
        invariant
            0 <= i <= s@.len(),
            forall|j: int| 0 <= j < i ==> s@[j] != c,
        decreases s@.len() - i,
    {
        if s[i] == c {
            proof {
                lemma_first_index_is(s@, c, i as int);
            }
            return Some(i);
        }
        i += 1;
    }
    proof {
        reveal(first_index_of);
    }
    None
}

pub fn find_last(s: &[char], c: char) -> (r: Option<usize>)
    ensures
        r is Some ==> last_index_of(s@, c) == Some(r->0 as int),
        r is None ==> last_index_of(s@, c) is None,
        r is Some ==> r->0 < s@.len() && s@[r->0 as int] == c && forall|j: int|
            r->0 < j < s@.len() ==> s@[j] != c,
        r is None ==> forall|j: int| 0 <= j < s@.len() ==> s@[j] != c,
{
    let mut i: usize = s.len();
    while i > 0
        invariant
            0 <= i <= s@.len(),
            forall|j: int| i <= j < s@.len() ==> s@[j] != c,
        decreases i,
    {
        if s[i - 1] == c {
            let k = i - 1;
            proof {
                lemma_last_index_is(s@, c, k as int);
            }
            return Some(k);
        }
        i -= 1;
    }
    proof {
        reveal(last_index_of);
    }
    None
}

// ---------------------------------------------------------------------------------------
// Trimming and splitting
// ---------------------------------------------------------------------------------------

/// `str::trim_start`.
pub open spec fn trim_start(s: Seq<char>) -> Seq<char>
    decreases s.len(),
{
    if s.len() > 0 && is_ws(s[0]) {
        trim_start(s.drop_first())
    } else {
        s
    }
}

/// `str::trim_end`.
pub open spec fn trim_end(s: Seq<char>) -> Seq<char>
    decreases s.len(),
{
    if s.len() > 0 && is_ws(s.last()) {
        trim_end(s.drop_last())
    } else {
        s
    }
}

/// `str::trim`.
pub open spec fn trim(s: Seq<char>) -> Seq<char> {
    trim_end(trim_start(s))
}

/// Number of leading white-space characters.
pub fn leading_ws(s: &[char], lo: usize, hi: usize) -> (k: usize)
    requires
        lo <= hi <= s@.len(),
    ensures
        lo <= k <= hi,
        trim_start(s@.subrange(lo as int, hi as int)) == s@.subrange(k as int, hi as int),
        forall|j: int| lo <= j < k ==> is_ws(s@[j]),
        k < hi ==> !is_ws(s@[k as int]),
{
    let mut k = lo;
    while k < hi && char_is_ws(s[k])
        invariant
            lo <= k <= hi <= s@.len(),
            trim_start(s@.subrange(lo as int, hi as int)) == trim_start(
                s@.subrange(k as int, hi as int),
            ),
            forall|j: int| lo <= j < k ==> is_ws(s@[j]),
        decreases hi - k,
    {
        assert(s@.subrange(k as int, hi as int).drop_first() =~= s@.subrange(k + 1, hi as int));
        k += 1;
    }
    k
}

/// Index just past the last non-white-space character of `s[lo..hi]`.
pub fn trailing_ws(s: &[char], lo: usize, hi: usize) -> (k: usize)
    requires
        lo <= hi <= s@.len(),
    ensures
        lo <= k <= hi,
        trim_end(s@.subrange(lo as int, hi as int)) == s@.subrange(lo as int, k as int),
        forall|j: int| k <= j < hi ==> is_ws(s@[j]),
        k > lo ==> !is_ws(s@[k - 1]),
{
    let mut k = hi;
    while k > lo && char_is_ws(s[k - 1])
        invariant
            lo <= k <= hi <= s@.len(),
            trim_end(s@.subrange(lo as int, hi as int)) == trim_end(
                s@.subrange(lo as int, k as int),
            ),
            forall|j: int| k <= j < hi ==> is_ws(s@[j]),
        decreases k - lo,
    {
        assert(s@.subrange(lo as int, k as int).drop_last() =~= s@.subrange(lo as int, k - 1));
        k -= 1;
    }
    k
}

/// Bounds of `trim(s[lo..hi])` inside `s`.
pub fn trim_bounds(s: &[char], lo: usize, hi: usize) -> (r: (usize, usize))
    requires
        lo <= hi <= s@.len(),
    ensures
        lo <= r.0 <= r.1 <= hi,
        trim(s@.subrange(lo as int, hi as int)) == s@.subrange(r.0 as int, r.1 as int),
{
    let a = leading_ws(s, lo, hi);
    let b = trailing_ws(s, a, hi);
    (a, b)
}

/// `str::trim`.
pub fn trim_str(s: &str) -> (r: String)
    ensures
        r@ == trim(s@),
{
    let v = chars_of(s);
    assert(v@.subrange(0, v@.len() as int) == v@);
    let (a, b) = trim_bounds(&v, 0, v.len());
    substring(&v, a, b)
}

/// The longest prefix made of non-white-space characters.
pub open spec fn word_len(s: Seq<char>) -> nat
    decreases s.len(),
{
    if s.len() > 0 && !is_ws(s[0]) {
        1 + word_len(s.drop_first())
    } else {
        0
    }
}

/// `str::split_whitespace`: the maximal runs of non-white-space characters, in order.
pub open spec fn split_ws(s: Seq<char>) -> Seq<Seq<char>>
    decreases s.len(), 1nat,
{
    let t = trim_start(s);
    if t.len() == 0 {
        Seq::empty()
    } else {
        let n = word_len(t);
        if n == 0 || t.len() > s.len() {
            Seq::empty()
        } else {
            seq![t.subrange(0, n as int)] + split_ws_rest(t, n)
        }
    }
}

pub open spec fn split_ws_rest(t: Seq<char>, n: nat) -> Seq<Seq<char>>
    decreases t.len(), 0nat,
{
    if 0 < n <= t.len() {
        split_ws(t.subrange(n as int, t.len() as int))
    } else {
        Seq::empty()
    }
}

pub proof fn lemma_trim_start_len(s: Seq<char>)
    ensures
        trim_start(s).len() <= s.len(),
        exists|k: int| 0 <= k <= s.len() && trim_start(s) == s.subrange(k, s.len() as int),
    decreases s.len(),
{
    if s.len() > 0 && is_ws(s[0]) {
        lemma_trim_start_len(s.drop_first());
        let k = choose|k: int|
            0 <= k <= s.drop_first().len() && trim_start(s.drop_first()) == s.drop_first().subrange(
                k,
                s.drop_first().len() as int,
            );
        assert(s.drop_first().subrange(k, s.drop_first().len() as int) =~= s.subrange(
            k + 1,
            s.len() as int,
        ));
    } else {
        assert(s.subrange(0, s.len() as int) =~= s);
    }
}

pub proof fn lemma_word_len(s: Seq<char>)
    ensures
        word_len(s) <= s.len(),
        forall|j: int| 0 <= j < word_len(s) ==> !is_ws(s[j]),
        word_len(s) < s.len() ==> is_ws(s[word_len(s) as int]),
    decreases s.len(),
{
    if s.len() > 0 && !is_ws(s[0]) {
        lemma_word_len(s.drop_first());
        assert forall|j: int| 0 <= j < word_len(s) implies !is_ws(s[j]) by {
            if j > 0 {
                assert(s[j] == s.drop_first()[j - 1]);
            }
        }
        if word_len(s) < s.len() {
            assert(s[word_len(s) as int] == s.drop_first()[word_len(s.drop_first()) as int]);
        }
    }
}

/// `word_len` of a sub-range, computed.
pub fn word_end(s: &[char], lo: usize, hi: usize) -> (k: usize)
    requires
        lo <= hi <= s@.len(),
    ensures
        lo <= k <= hi,
        k - lo == word_len(s@.subrange(lo as int, hi as int)),
{
    let mut k = lo;
    while k < hi && !char_is_ws(s[k])
        invariant
            lo <= k <= hi <= s@.len(),
            word_len(s@.subrange(lo as int, hi as int)) == (k - lo) + word_len(
                s@.subrange(k as int, hi as int),
            ),
        decreases hi - k,
    {
        assert(s@.subrange(k as int, hi as int).drop_first() =~= s@.subrange(k + 1, hi as int));
        k += 1;
    }
    k
}

pub proof fn lemma_split_ws_empty(s: Seq<char>)
    requires
        trim_start(s).len() == 0,
    ensures
        split_ws(s).len() == 0,
{
}

/// One step of `split_ws`: the first word lies at `[a, b)` and the rest follows it.
pub proof fn lemma_split_ws_step(s: Seq<char>, a: int, b: int)
    requires
        0 <= a < b <= s.len(),
        trim_start(s) == s.subrange(a, s.len() as int),
        word_len(s.subrange(a, s.len() as int)) == b - a,
    ensures
        split_ws(s) == seq![s.subrange(a, b)] + split_ws(s.subrange(b, s.len() as int)),
{
    let t = s.subrange(a, s.len() as int);
    assert(t.subrange(0, b - a) =~= s.subrange(a, b));
    assert(t.subrange(b - a, t.len() as int) =~= s.subrange(b, s.len() as int));
}

/// `str::split_whitespace` on a character slice.
pub fn split_ws_chars(s: &[char]) -> (r: Vec<Vec<char>>)
    ensures
        r@.map_values(|w: Vec<char>| w@) == split_ws(s@),
{
    let mut r: Vec<Vec<char>> = Vec::new();
    let mut i: usize = 0;
    let n = s.len();
    assert(s@.subrange(0, n as int) =~= s@);
    while i < n
        invariant
            n == s@.len(),
            0 <= i <= n,
            split_ws(s@) == r@.map_values(|w: Vec<char>| w@) + split_ws(
                s@.subrange(i as int, n as int),
            ),
        decreases n - i,
    {
        let ghost rest = s@.subrange(i as int, n as int);
        let ghost old_r = r@;
        let a = leading_ws(s, i, n);
        if a == n {
            proof {
                assert(s@.subrange(n as int, n as int).len() == 0);
                lemma_split_ws_empty(rest);
                lemma_split_ws_empty(s@.subrange(n as int, n as int));
            }
            i = n;
        } else {
            let b = word_end(s, a, n);
            proof {
                assert(rest.subrange((a - i) as int, rest.len() as int) =~= s@.subrange(
                    a as int,
                    n as int,
                ));
                assert(rest.subrange((a - i) as int, (b - i) as int) =~= s@.subrange(
                    a as int,
                    b as int,
                ));
                assert(rest.subrange((b - i) as int, rest.len() as int) =~= s@.subrange(
                    b as int,
                    n as int,
                ));
                lemma_word_len(s@.subrange(a as int, n as int));
                assert(s@.subrange(a as int, n as int)[0] == s@[a as int]);
                lemma_split_ws_step(rest, (a - i) as int, (b - i) as int);
            }
            let w = slice_vec(s, a, b);
            r.push(w);
            i = b;
            proof {
                assert(r@.map_values(|w: Vec<char>| w@) =~= old_r.map_values(|w: Vec<char>| w@).push(
                    s@.subrange(a as int, b as int),
                ));
            }
        }
    }
    proof {
        assert(s@.subrange(n as int, n as int).len() == 0);
        lemma_split_ws_empty(s@.subrange(n as int, n as int));
        assert(split_ws(s@) =~= r@.map_values(|w: Vec<char>| w@));
    }
    r
}

/// The characters of `v[lo..hi]` as a new vector.
pub fn slice_vec(v: &[char], lo: usize, hi: usize) -> (r: Vec<char>)
    requires
        lo <= hi <= v@.len(),
    ensures
        r@ == v@.subrange(lo as int, hi as int),
{
    let mut r: Vec<char> = Vec::new();
    let mut i = lo;
    while i < hi
        invariant
            lo <= i <= hi <= v@.len(),
            r@ == v@.subrange(lo as int, i as int),
        decreases hi - i,
    {
        r.push(v[i]);
        assert(v@.subrange(lo as int, i + 1) == v@.subrange(lo as int, i as int).push(
            v@[i as int],
        ));
        i += 1;
    }
    r
}

/// `str::split_whitespace`.
pub fn split_whitespace(s: &str) -> (r: Vec<Vec<char>>)
    ensures
        r@.map_values(|w: Vec<char>| w@) == split_ws(s@),
{
    let v = chars_of(s);
    split_ws_chars(&v)
}

/// A line of `str::lines`: the `\r` before the `\n` that ends it is dropped.
pub open spec fn strip_cr(s: Seq<char>) -> Seq<char> {
    if s.len() > 0 && s.last() == '\r' {
        s.drop_last()
    } else {
        s
    }
}

/// `str::lines`: split at `\n` (with an optional `\r` before it); no final empty line.
pub open spec fn lines(s: Seq<char>) -> Seq<Seq<char>>
    decreases s.len(),
{
    if s.len() == 0 {
        Seq::empty()
    } else {
        match first_index_of(s, '\n') {
            None => seq![s],
            Some(i) => if 0 <= i < s.len() {
                seq![strip_cr(s.subrange(0, i))] + lines(s.subrange(i + 1, s.len() as int))
            } else {
                Seq::empty()
            },
        }
    }
}

pub proof fn lemma_first_index_is(s: Seq<char>, c: char, i: int)
    requires
        0 <= i < s.len(),
        s[i] == c,
        forall|j: int| 0 <= j < i ==> s[j] != c,
    ensures
        first_index_of(s, c) == Some(i),
{
    reveal(first_index_of);
    let w = choose|m: int| 0 <= m < s.len() && s[m] == c && forall|j: int| 0 <= j < m ==> s[j] != c;
    assert(w == i) by {
        if w < i {
            assert(s[w] != c);
        } else if w > i {
            assert(s[i] != c);
        }
    }
}

pub proof fn lemma_last_index_is(s: Seq<char>, c: char, i: int)
    requires
        0 <= i < s.len(),
        s[i] == c,
        forall|j: int| i < j < s.len() ==> s[j] != c,
    ensures
        last_index_of(s, c) == Some(i),
{
    reveal(last_index_of);
    let w = choose|m: int|
        0 <= m < s.len() && s[m] == c && forall|j: int| m < j < s.len() ==> s[j] != c;
    assert(w == i) by {
        if w < i {
            assert(s[i] != c);
        } else if w > i {
            assert(s[w] != c);
        }
    }
}

/// Index of the first `c` in `s[lo..hi]`, or `hi`.
pub fn scan_to(s: &[char], lo: usize, hi: usize, c: char) -> (j: usize)
    requires
        lo <= hi <= s@.len(),
    ensures
        lo <= j <= hi,
        forall|k: int| lo <= k < j ==> s@[k] != c,
        j < hi ==> s@[j as int] == c,
{
    let mut j = lo;
    while j < hi && s[j] != c
        invariant
            lo <= j <= hi <= s@.len(),
            forall|k: int| lo <= k < j ==> s@[k] != c,
        decreases hi - j,
    {
        j += 1;
    }
    j
}

/// One step of `lines`: the first line ends at the `\n` found at `j`.
proof fn lemma_lines_step(rest: Seq<char>, j: int)
    requires
        0 <= j < rest.len(),
        rest[j] == '\n',
        forall|k: int| 0 <= k < j ==> rest[k] != '\n',
    ensures
        lines(rest) == seq![strip_cr(rest.subrange(0, j))] + lines(
            rest.subrange(j + 1, rest.len() as int),
        ),
{
    lemma_first_index_is(rest, '\n', j);
}

proof fn lemma_lines_last(rest: Seq<char>)
    requires
        rest.len() > 0,
        forall|k: int| 0 <= k < rest.len() ==> rest[k] != '\n',
    ensures
        lines(rest) == seq![rest],
{
    reveal(first_index_of);
}

/// The first line of `s[i..n]` is `s[i..end]`, and the lines after it start at `next`.
proof fn lemma_lines_prefix(s: Seq<char>, i: int, j: int, end: int, next: int)
    requires
        0 <= i < s.len(),
        i <= j <= s.len(),
        forall|k: int| i <= k < j ==> s[k] != '\n',
        j < s.len() ==> s[j] == '\n',
        j == s.len() ==> end == j && next == j,
        j < s.len() ==> next == j + 1 && (if j > i && s[j - 1] == '\r' {
            end == j - 1
        } else {
            end == j
        }),
    ensures
        i <= end <= next <= s.len(),
        lines(s.subrange(i, s.len() as int)) == seq![s.subrange(i, end)] + lines(
            s.subrange(next, s.len() as int),
        ),
{
    let n = s.len() as int;
    let rest = s.subrange(i, n);
    if j == n {
        assert(forall|k: int| 0 <= k < rest.len() ==> rest[k] == s[i + k]);
        lemma_lines_last(rest);
        assert(s.subrange(n, n).len() == 0);
        assert(rest =~= s.subrange(i, end));
    } else {
        let fj = j - i;
        assert(forall|k: int| 0 <= k < fj ==> rest[k] == s[i + k]);
        lemma_lines_step(rest, fj);
        assert(rest.subrange(0, fj) =~= s.subrange(i, j));
        assert(strip_cr(rest.subrange(0, fj)) =~= s.subrange(i, end));
        assert(rest.subrange(fj + 1, rest.len() as int) =~= s.subrange(j + 1, n));
    }
}

/// `str::lines` on a character slice.
pub fn lines_chars(s: &[char]) -> (r: Vec<Vec<char>>)
    ensures
        r@.map_values(|w: Vec<char>| w@) == lines(s@),
{
    let mut r: Vec<Vec<char>> = Vec::new();
    let n = s.len();
    let mut i: usize = 0;
    assert(s@.subrange(0, n as int) =~= s@);
    while i < n
        invariant
            n == s@.len(),
            0 <= i <= n,
            lines(s@) == r@.map_values(|w: Vec<char>| w@) + lines(s@.subrange(i as int, n as int)),
        decreases n - i,
    {
        let ghost old_r = r@;
        let j = scan_to(s, i, n, '\n');
        let end = if j < n && j > i && s[j - 1] == '\r' {
            j - 1
        } else {
            j
        };
        let next = if j == n {
            n
        } else {
            j + 1
        };
        proof {
            lemma_lines_prefix(s@, i as int, j as int, end as int, next as int);
        }
        let line = slice_vec(s, i, end);
        r.push(line);
        i = next;
        proof {
            assert(r@.map_values(|w: Vec<char>| w@) =~= old_r.map_values(|w: Vec<char>| w@).push(
                line@,
            ));
        }
    }
    proof {
        assert(s@.subrange(n as int, n as int).len() == 0);
        assert(lines(s@) =~= r@.map_values(|w: Vec<char>| w@));
    }
    r
}

/// The first position from `i` on where `p` occurs in `s`.
pub open spec fn find_from(s: Seq<char>, p: Seq<char>, i: int) -> Option<int>
    decreases s.len() + 1 - i,
{
    if i < 0 || i + p.len() > s.len() {
        None
    } else if occurs_at(s, p, i) {
        Some(i)
    } else {
        find_from(s, p, i + 1)
    }
}

/// The first position where `p` occurs in `s` (`str::find` with a string pattern).
pub fn find_substring(s: &[char], p: &[char]) -> (r: Option<usize>)
    ensures
        match r {
            Some(i) => find_from(s@, p@, 0) == Some(i as int),
            None => find_from(s@, p@, 0) is None,
        },
{
    let n = s.len();
    let m = p.len();
    if m > n {
        return None;
    }
    if m == 0 {
        assert(s@.subrange(0, 0) =~= p@);
        return Some(0);
    }
    let mut i: usize = 0;
    while i <= n - m
        invariant
            n == s@.len(),
            m == p@.len(),
            1 <= m <= n,
            i <= n - m + 1,
            find_from(s@, p@, 0) == find_from(s@, p@, i as int),
        decreases n - m + 1 - i,
    {
        if matches_at(s, p, i) {
            return Some(i);
        }
        i += 1;
    }
    None
}

/// `str::split` at one character: the pieces between separators, empty ones included.
pub open spec fn split_char(s: Seq<char>, c: char) -> Seq<Seq<char>>
    decreases s.len(),
{
    match first_index_of(s, c) {
        None => seq![s],
        Some(i) => if 0 <= i < s.len() {
            seq![s.subrange(0, i)] + split_char(s.subrange(i + 1, s.len() as int), c)
        } else {
            seq![s]
        },
    }
}

proof fn lemma_split_char_prefix(s: Seq<char>, c: char, i: int, j: int)
    requires
        0 <= i <= j <= s.len(),
        forall|k: int| i <= k < j ==> s[k] != c,
        j < s.len() ==> s[j] == c,
    ensures
        j < s.len() ==> split_char(s.subrange(i, s.len() as int), c) == seq![s.subrange(i, j)]
            + split_char(s.subrange(j + 1, s.len() as int), c),
        j == s.len() ==> split_char(s.subrange(i, s.len() as int), c) == seq![s.subrange(i, j)],
{
    let n = s.len() as int;
    let rest = s.subrange(i, n);
    assert(forall|k: int| 0 <= k < rest.len() ==> rest[k] == s[i + k]);
    if j < n {
        lemma_first_index_is(rest, c, j - i);
        assert(rest.subrange(0, j - i) =~= s.subrange(i, j));
        assert(rest.subrange(j - i + 1, rest.len() as int) =~= s.subrange(j + 1, n));
    } else {
        reveal(first_index_of);
        assert(rest =~= s.subrange(i, j));
    }
}

/// `str::split` at one character, on a character slice.
pub fn split_char_chars(s: &[char], c: char) -> (r: Vec<Vec<char>>)
    ensures
        r@.map_values(|w: Vec<char>| w@) == split_char(s@, c),
{
    let mut r: Vec<Vec<char>> = Vec::new();
    let n = s.len();
    let mut i: usize = 0;
    assert(s@.subrange(0, n as int) =~= s@);
    loop
        invariant
            n == s@.len(),
            0 <= i <= n,
            split_char(s@, c) == r@.map_values(|w: Vec<char>| w@) + split_char(
                s@.subrange(i as int, n as int),
                c,
            ),
        decreases n - i,
    {
        let ghost old_r = r@;
        let j = scan_to(s, i, n, c);
        proof {
            lemma_split_char_prefix(s@, c, i as int, j as int);
        }
        let piece = slice_vec(s, i, j);
        r.push(piece);
        assert(r@.map_values(|w: Vec<char>| w@) =~= old_r.map_values(|w: Vec<char>| w@).push(
            piece@,
        ));
        if j == n {
            assert(split_char(s@, c) =~= r@.map_values(|w: Vec<char>| w@));
            return r;
        }
        i = j + 1;
    }
}

// ---------------------------------------------------------------------------------------
// Numbers
// ---------------------------------------------------------------------------------------

/// The decimal digits of `n`, most significant first, without leading zeros.
pub open spec fn dec(n: nat) -> Seq<char>
    decreases n,
{
    if n < 10 {
        seq![digit_char(n)]
    } else {
        dec(n / 10).push(digit_char(n % 10))
    }
}

pub open spec fn digit_char(d: nat) -> char {
    (48 + d) as char
}

pub fn digit(d: u64) -> (c: char)
    requires
        d < 10,
    ensures
        c == digit_char(d as nat),
        c as u32 == 48 + d,
{
    let u: u32 = 48 + d as u32;
    char_from_ascii(u)
}

/// Decimal rendering of an unsigned integer (`{}`).
pub fn dec_chars(n: u64) -> (v: Vec<char>)
    ensures
        v@ == dec(n as nat),
    decreases n,
{
    if n < 10 {
        let mut v = Vec::new();
        v.push(digit(n));
        v
    } else {
        let mut v = dec_chars(n / 10);
        v.push(digit(n % 10));
        v
    }
}

pub fn dec_string(n: u64) -> (s: String)
    ensures
        s@ == dec(n as nat),
{
    let v = dec_chars(n);
    from_chars(&v)
}

/// Appends the decimal rendering of `n`.
pub fn push_dec(s: &mut String, n: u64)
    ensures
        final(s)@ == old(s)@ + dec(n as nat),
{
    let v = dec_chars(n);
    let mut i: usize = 0;
    let ghost start = s@;
    while i < v.len()
        invariant
            0 <= i <= v@.len(),
            v@ == dec(n as nat),
            s@ == start + v@.subrange(0, i as int),
        decreases v@.len() - i,
    {
        push_char(s, v[i]);
        assert(v@.subrange(0, i + 1) == v@.subrange(0, i as int).push(v@[i as int]));
        i += 1;
    }
    assert(v@.subrange(0, v@.len() as int) == v@);
}

/// Two-digit zero-padded rendering (`{:02}`) of a value below 100.
pub open spec fn two_digits(n: nat) -> Seq<char> {
    seq![digit_char(n / 10), digit_char(n % 10)]
}

pub fn push_two_digits(s: &mut String, n: u64)
    requires
        n < 100,
    ensures
        final(s)@ == old(s)@ + two_digits(n as nat),
{
    push_char(s, digit(n / 10));
    push_char(s, digit(n % 10));
}

pub open spec fn hex_digit_char(d: nat, upper: bool) -> char {
    if d < 10 {
        digit_char(d)
    } else if upper {
        (55 + d) as char
    } else {
        (87 + d) as char
    }
}

pub fn hex_digit(d: u64, upper: bool) -> (c: char)
    requires
        d < 16,
    ensures
        c == hex_digit_char(d as nat, upper),
{
    if d < 10 {
        digit(d)
    } else if upper {
        char_from_ascii(65 + (d - 10) as u32)
    } else {
        char_from_ascii(97 + (d - 10) as u32)
    }
}

/// Hexadecimal digits of `n` without leading zeros (`{:x}` / `{:X}`).
pub open spec fn hex(n: nat, upper: bool) -> Seq<char>
    decreases n,
{
    if n < 16 {
        seq![hex_digit_char(n, upper)]
    } else {
        hex(n / 16, upper).push(hex_digit_char(n % 16, upper))
    }
}

pub fn hex_chars(n: u64, upper: bool) -> (v: Vec<char>)
    ensures
        v@ == hex(n as nat, upper),
    decreases n,
{
    if n < 16 {
        let mut v = Vec::new();
        v.push(hex_digit(n, upper));
        v
    } else {
        let mut v = hex_chars(n / 16, upper);
        v.push(hex_digit(n % 16, upper));
        v
    }
}

/// Two hexadecimal digits of a byte (`{:02x}`).
pub open spec fn hex_byte(b: u8) -> Seq<char> {
    seq![hex_digit_char((b / 16) as nat, false), hex_digit_char((b % 16) as nat, false)]
}

pub open spec fn hex_bytes(bytes: Seq<u8>) -> Seq<char>
    decreases bytes.len(),
{
    if bytes.len() == 0 {
        Seq::empty()
    } else {
        hex_bytes(bytes.drop_last()) + hex_byte(bytes.last())
    }
}

/// Lower-case hexadecimal rendering of a byte string, two digits per byte.
pub fn hex_encode(bytes: &[u8]) -> (s: String)
    ensures
        s@ == hex_bytes(bytes@),
{
    let mut s = String::new();
    let mut i: usize = 0;
    while i < bytes.len()
        invariant
            0 <= i <= bytes@.len(),
            s@ == hex_bytes(bytes@.subrange(0, i as int)),
        decreases bytes@.len() - i,
    {
        let b = bytes[i];
        push_char(&mut s, hex_digit((b / 16) as u64, false));
        push_char(&mut s, hex_digit((b % 16) as u64, false));
        assert(bytes@.subrange(0, i + 1).drop_last() =~= bytes@.subrange(0, i as int));
        assert(hex_bytes(bytes@.subrange(0, i + 1)) =~= hex_bytes(bytes@.subrange(0, i as int))
            + hex_byte(b));
        i += 1;
    }
    assert(bytes@.subrange(0, bytes@.len() as int) =~= bytes@);
    s
}

/// Value of a non-empty string of decimal digits.
pub open spec fn digits_value(s: Seq<char>) -> int
    decreases s.len(),
{
    if s.len() == 0 {
        0
    } else {
        digits_value(s.drop_last()) * 10 + digit_value(s.last())
    }
}

pub open spec fn all_digits(s: Seq<char>) -> bool {
    forall|i: int| 0 <= i < s.len() ==> is_digit(s[i])
}

/// `FromStr` of an unsigned integer type whose largest value is `max`: an optional `+`,
/// then at least one decimal digit, the value not above `max`.
pub open spec fn parse_unsigned(s: Seq<char>, max: int) -> Option<int> {
    let d = if s.len() > 0 && s[0] == '+' {
        s.drop_first()
    } else {
        s
    };
    if d.len() == 0 || !all_digits(d) || digits_value(d) > max {
        None
    } else {
        Some(digits_value(d))
    }
}

proof fn lemma_digits_value_mono(s: Seq<char>, k: int)
    requires
        0 <= k <= s.len(),
        all_digits(s),
    ensures
        0 <= digits_value(s.subrange(0, k)) <= digits_value(s),
    decreases s.len() - k,
{
    if k < s.len() {
        lemma_digits_value_mono(s, k + 1);
        assert(s.subrange(0, k + 1).drop_last() =~= s.subrange(0, k));
        assert(s.subrange(0, k + 1).last() == s[k]);
    } else {
        assert(s.subrange(0, k) =~= s);
        lemma_digits_value_nonneg(s);
    }
}

proof fn lemma_digits_value_nonneg(s: Seq<char>)
    requires
        all_digits(s),
    ensures
        digits_value(s) >= 0,
    decreases s.len(),
{
    if s.len() > 0 {
        lemma_digits_value_nonneg(s.drop_last());
    }
}

/// `FromStr` for an unsigned integer bounded by `max` (`u8`, `u16`, `u32`, `u64`).
pub fn parse_unsigned_chars(s: &[char], lo: usize, hi: usize, max: u64) -> (r: Option<u64>)
    requires
        lo <= hi <= s@.len(),
        max >= 9,
    ensures
        r is Some ==> parse_unsigned(s@.subrange(lo as int, hi as int), max as int) == Some(
            r->0 as int,
        ),
        r is None ==> parse_unsigned(s@.subrange(lo as int, hi as int), max as int) is None,
{
    let ghost full = s@.subrange(lo as int, hi as int);
    let mut start = lo;
    if start < hi && s[start] == '+' {
        start = start + 1;
    }
    let ghost d = s@.subrange(start as int, hi as int);
    assert(d =~= (if full.len() > 0 && full[0] == '+' {
        full.drop_first()
    } else {
        full
    }));
    if start == hi {
        return None;
    }
    let mut acc: u64 = 0;
    let mut i = start;
    while i < hi
        invariant
            lo <= start <= i <= hi <= s@.len(),
            start < hi,
            d == s@.subrange(start as int, hi as int),
            max >= 9,
            full == s@.subrange(lo as int, hi as int),
            d == (if full.len() > 0 && full[0] == '+' {
                full.drop_first()
            } else {
                full
            }),
            all_digits(s@.subrange(start as int, i as int)),
            acc as int == digits_value(s@.subrange(start as int, i as int)),
            acc <= max,
        decreases hi - i,
    {
        let c = s[i];
        let u = c as u32;
        if !(48 <= u && u <= 57) {
            assert(d[i - start] == c);
            assert(!is_digit(d[i - start]));
            assert(!all_digits(d));
            return None;
        }
        let dv: u64 = (u - 48) as u64;
        assert(dv < 10);
        assert(dv as int == digit_value(c));
        assert(s@.subrange(start as int, i + 1).drop_last() =~= s@.subrange(
            start as int,
            i as int,
        ));
        assert(all_digits(s@.subrange(start as int, i + 1)));
        if acc > (max - dv) / 10 {
            proof {
                assert(acc * 10 + dv > max) by (nonlinear_arith)
                    requires
                        acc > (max - dv) / 10,
                        dv <= max || dv > max,
                        dv < 10,
                ;
                // the value only grows with more digits, or a later non-digit rejects
                if all_digits(d) {
                    lemma_digits_value_mono(d, i + 1 - start);
                    assert(d.subrange(0, i + 1 - start) =~= s@.subrange(start as int, i + 1));
                }
            }
            return None;
        }
        proof {
            assert(acc * 10 + dv <= max) by (nonlinear_arith)
                requires
                    acc <= (max - dv) / 10,
                    dv < 10,
            ;
        }
        acc = acc * 10 + dv;
        i += 1;
    }
    assert(s@.subrange(start as int, hi as int) == d);
    Some(acc)
}

// ---------------------------------------------------------------------------------------
// Outside helpers of std that compute on strings
// ---------------------------------------------------------------------------------------

/// What `str::to_lowercase` returns for a string: the Unicode lower-case mapping.
pub uninterp spec fn lowercase(s: Seq<char>) -> Seq<char>;

/// The lower-case form of an ASCII character: `A` to `Z` become `a` to `z`.
pub open spec fn ascii_lower_char(c: char) -> char {
    if 'A' <= c && c <= 'Z' {
        ((c as u32) + 32) as char
    } else {
        c
    }
}

/// Whether every character is ASCII.
pub open spec fn all_ascii(s: Seq<char>) -> bool {
    forall|i: int| 0 <= i < s.len() ==> (#[trigger] s[i] as u32) < 128
}

/// `str::to_lowercase`; its result is named `lowercase` of the argument. Its documentation
/// gives the ASCII case: each character of an ASCII string is lowered on its own (`A` to
/// `Z` to `a` to `z`, the others kept).
#[verifier::external_body]
pub(crate) fn to_lowercase(s: &str) -> (r: String)
    ensures
        r@ == lowercase(s@),
        all_ascii(s@) ==> r@ == s@.map_values(|c: char| ascii_lower_char(c)),
{
    s.to_lowercase()
}

} // verus!
