//! Text primitives over sequences of `char`, shared by the other modules.
use vstd::prelude::*;

verus! {

/// Relies on `str::chars`: it yields the characters of the string in order.
#[verifier::external_body]
pub(crate) fn chars_of(s: &str) -> (r: Vec<char>)
    ensures
        r@ == s@,
{
    s.chars().collect()
}

/// Relies on `String`'s `FromIterator<&char>`: the string holds the
/// characters in order.
#[verifier::external_body]
pub(crate) fn string_of(v: &Vec<char>) -> (r: String)
    ensures
        r@ == v@,
{
    v.iter().collect()
}

/// Number of bytes in the UTF-8 encoding of `c`.
pub open spec fn utf8_len(c: char) -> nat {
    if (c as u32) < 0x80 {
        1
    } else if (c as u32) < 0x800 {
        2
    } else if (c as u32) < 0x10000 {
        3
    } else {
        4
    }
}

/// Number of bytes in the UTF-8 encoding of `s`.
pub open spec fn byte_len(s: Seq<char>) -> nat
    decreases s.len(),
{
    if s.len() == 0 {
        0
    } else {
        byte_len(s.drop_last()) + utf8_len(s.last())
    }
}

pub fn char_utf8_len(c: char) -> (r: usize)
    ensures
        r == utf8_len(c),
{
    let v = c as u32;
    if v < 0x80 {
        1
    } else if v < 0x800 {
        2
    } else if v < 0x10000 {
        3
    } else {
        4
    }
}


/// Rust's `char::is_whitespace`: the Unicode White_Space property.
pub open spec fn is_ws(c: char) -> bool {
    let v = c as u32;
    (9 <= v && v <= 13) || v == 32 || v == 0x85 || v == 0xA0 || v == 0x1680
        || (0x2000 <= v && v <= 0x200A) || v == 0x2028 || v == 0x2029 || v == 0x202F
        || v == 0x205F || v == 0x3000
}

pub fn is_whitespace(c: char) -> (r: bool)
    ensures
        r == is_ws(c),
{
    let v = c as u32;
    (9 <= v && v <= 13) || v == 32 || v == 0x85 || v == 0xA0 || v == 0x1680
        || (0x2000 <= v && v <= 0x200A) || v == 0x2028 || v == 0x2029 || v == 0x202F
        || v == 0x205F || v == 0x3000
}

/// `p` occurs in `s` at position `i`.
pub open spec fn matches_at(s: Seq<char>, i: int, p: Seq<char>) -> bool {
    0 <= i && i + p.len() <= s.len() && s.subrange(i, i + p.len()) == p
}

pub open spec fn starts_with(s: Seq<char>, p: Seq<char>) -> bool {
    matches_at(s, 0, p)
}

pub open spec fn ends_with(s: Seq<char>, p: Seq<char>) -> bool {
    matches_at(s, s.len() - p.len(), p)
}

pub open spec fn contains(s: Seq<char>, p: Seq<char>) -> bool {
    exists|i: int| matches_at(s, i, p)
}

/// `c` equals the lower-case ASCII letter or symbol `w`, ignoring ASCII case.
pub open spec fn ci_char_eq(c: char, w: char) -> bool {
    c == w || ('a' <= w && w <= 'z' && (c as u32) + 32 == (w as u32))
}

/// `w` (lower case) occurs in `s` at position `i`, ignoring ASCII case.
pub open spec fn ci_matches_at(s: Seq<char>, i: int, w: Seq<char>) -> bool {
    0 <= i && i + w.len() <= s.len() && forall|k: int|
        0 <= k < w.len() ==> #[trigger] ci_char_eq(s[i + k], w[k])
}

pub open spec fn ci_contains(s: Seq<char>, w: Seq<char>) -> bool {
    exists|i: int| ci_matches_at(s, i, w)
}

pub open spec fn trim_start(s: Seq<char>) -> Seq<char>
    decreases s.len(),
{
    if s.len() > 0 && is_ws(s[0]) {
        trim_start(s.drop_first())
    } else {
        s
    }
}

pub open spec fn trim_end(s: Seq<char>) -> Seq<char>
    decreases s.len(),
{
    if s.len() > 0 && is_ws(s.last()) {
        trim_end(s.drop_last())
    } else {
        s
    }
}

/// Rust's `str::trim`: leading and trailing whitespace removed.
pub open spec fn trim(s: Seq<char>) -> Seq<char> {
    trim_end(trim_start(s))
}

pub fn matches_at_exec(s: &Vec<char>, i: usize, p: &Vec<char>) -> (r: bool)
    ensures
        r == matches_at(s@, i as int, p@),
{
    if i > s.len() || p.len() > s.len() - i {
        return false;
    }
    let mut k: usize = 0;
    while k < p.len()
        invariant
            k <= p.len(),
            i + p.len() <= s.len(),
            forall|m: int| 0 <= m < k ==> s@[i + m] == p@[m],
        decreases p.len() - k,
    {
        if s[i + k] != p[k] {
            assert(s@.subrange(i as int, i + p.len())[k as int] != p@[k as int]);
            return false;
        }
        k += 1;
    }
    assert(s@.subrange(i as int, i + p.len()) =~= p@);
    true
}

pub fn ci_matches_at_exec(s: &Vec<char>, i: usize, w: &Vec<char>) -> (r: bool)
    ensures
        r == ci_matches_at(s@, i as int, w@),
{
    if i > s.len() || w.len() > s.len() - i {
        return false;
    }
    let mut k: usize = 0;
    while k < w.len()
        invariant
            k <= w.len(),
            i + w.len() <= s.len(),
            forall|m: int| 0 <= m < k ==> #[trigger] ci_char_eq(s@[i + m], w@[m]),
        decreases w.len() - k,
    {
        let c = s[i + k];
        let d = w[k];
        let eq = c == d || ('a' <= d && d <= 'z' && (d as u32) - 32 == (c as u32));
        if !eq {
            assert(!ci_char_eq(s@[i + k], w@[k as int]));
            return false;
        }
        k += 1;
    }
    true
}

pub fn starts_with_exec(s: &Vec<char>, p: &Vec<char>) -> (r: bool)
    ensures
        r == starts_with(s@, p@),
{
    matches_at_exec(s, 0, p)
}

pub fn ends_with_exec(s: &Vec<char>, p: &Vec<char>) -> (r: bool)
    ensures
        r == ends_with(s@, p@),
{
    if p.len() > s.len() {
        return false;
    }
    matches_at_exec(s, s.len() - p.len(), p)
}

pub fn contains_exec(s: &Vec<char>, p: &Vec<char>) -> (r: bool)
    ensures
        r == contains(s@, p@),
{
    let mut i: usize = 0;
    loop
        invariant
            i <= s.len(),
            forall|j: int| 0 <= j < i ==> !matches_at(s@, j, p@),
        decreases s.len() - i,
    {
        if matches_at_exec(s, i, p) {
            return true;
        }
        if i == s.len() {
            assert forall|j: int| !matches_at(s@, j, p@) by {
                if 0 <= j <= i {
                }
            }
            return false;
        }
        i += 1;
    }
}

pub fn ci_contains_exec(s: &Vec<char>, w: &Vec<char>) -> (r: bool)
    ensures
        r == ci_contains(s@, w@),
{
    let mut i: usize = 0;
    loop
        invariant
            i <= s.len(),
            forall|j: int| 0 <= j < i ==> !ci_matches_at(s@, j, w@),
        decreases s.len() - i,
    {
        if ci_matches_at_exec(s, i, w) {
            return true;
        }
        if i == s.len() {
            assert forall|j: int| !ci_matches_at(s@, j, w@) by {
                if 0 <= j <= i {
                }
            }
            return false;
        }
        i += 1;
    }
}

/// Copy of `s[a..b]`.
pub fn slice_chars(s: &Vec<char>, a: usize, b: usize) -> (r: Vec<char>)
    requires
        a <= b <= s.len(),
    ensures
        r@ == s@.subrange(a as int, b as int),
{
    let mut r: Vec<char> = Vec::new();
    let mut k: usize = a;
    while k < b
        invariant
            a <= k <= b <= s.len(),
            r@ == s@.subrange(a as int, k as int),
        decreases b - k,
    {
        r.push(s[k]);
        k += 1;
        assert(r@ =~= s@.subrange(a as int, k as int));
    }
    r
}

/// Appends `t` to `r`.
pub fn append_chars(r: &mut Vec<char>, t: &Vec<char>)
    ensures
        final(r)@ == old(r)@ + t@,
{
    let mut k: usize = 0;
    while k < t.len()
        invariant
            k <= t.len(),
            r@ == old(r)@ + t@.subrange(0, k as int),
        decreases t.len() - k,
    {
        r.push(t[k]);
        k += 1;
        assert(r@ =~= old(r)@ + t@.subrange(0, k as int));
    }
    assert(t@.subrange(0, t@.len() as int) =~= t@);
}

/// Appends the characters of the literal `t` to `r`.
pub fn append_str(r: &mut Vec<char>, t: &str)
    ensures
        final(r)@ == old(r)@ + t@,
{
    let v = chars_of(t);
    append_chars(r, &v);
}

pub fn eq_lit(s: &Vec<char>, t: &str) -> (r: bool)
    ensures
        r == (s@ == t@),
{
    let v = chars_of(t);
    if s.len() != v.len() {
        return false;
    }
    let r = matches_at_exec(s, 0, &v);
    proof {
        if r {
            assert(s@.subrange(0, v@.len() as int) =~= s@);
        } else {
            assert(s@.subrange(0, v@.len() as int) =~= s@);
        }
    }
    r
}

/// `s` equals the lower-case word `w`, ignoring ASCII case.
pub open spec fn ci_eq(s: Seq<char>, w: Seq<char>) -> bool {
    s.len() == w.len() && ci_matches_at(s, 0, w)
}

pub fn ci_eq_lit(s: &Vec<char>, w: &str) -> (r: bool)
    ensures
        r == ci_eq(s@, w@),
{
    let v = chars_of(w);
    s.len() == v.len() && ci_matches_at_exec(s, 0, &v)
}

pub fn starts_with_lit(s: &Vec<char>, t: &str) -> (r: bool)
    ensures
        r == starts_with(s@, t@),
{
    let v = chars_of(t);
    starts_with_exec(s, &v)
}

pub fn ends_with_lit(s: &Vec<char>, t: &str) -> (r: bool)
    ensures
        r == ends_with(s@, t@),
{
    let v = chars_of(t);
    ends_with_exec(s, &v)
}

pub fn contains_lit(s: &Vec<char>, t: &str) -> (r: bool)
    ensures
        r == contains(s@, t@),
{
    let v = chars_of(t);
    contains_exec(s, &v)
}

pub proof fn lemma_trim_start_skip(s: Seq<char>, i: int)
    requires
        0 <= i <= s.len(),
        forall|k: int| 0 <= k < i ==> is_ws(#[trigger] s[k]),
    ensures
        trim_start(s) == trim_start(s.subrange(i, s.len() as int)),
    decreases i,
{
    if i > 0 {
        assert(s.drop_first().subrange(i - 1, s.drop_first().len() as int) =~= s.subrange(
            i,
            s.len() as int,
        ));
        lemma_trim_start_skip(s.drop_first(), i - 1);
    } else {
        assert(s.subrange(0, s.len() as int) =~= s);
    }
}

pub proof fn lemma_trim_end_skip(s: Seq<char>, j: int)
    requires
        0 <= j <= s.len(),
        forall|k: int| j <= k < s.len() ==> is_ws(#[trigger] s[k]),
    ensures
        trim_end(s) == trim_end(s.subrange(0, j)),
    decreases s.len() - j,
{
    if j < s.len() {
        assert(s.drop_last().subrange(0, j) =~= s.subrange(0, j));
        lemma_trim_end_skip(s.drop_last(), j);
    } else {
        assert(s.subrange(0, j) =~= s);
    }
}

/// Bounds of `trim(s)` within `s`.
pub fn trim_bounds(s: &Vec<char>) -> (r: (usize, usize))
    ensures
        r.0 <= r.1 <= s.len(),
        s@.subrange(r.0 as int, r.1 as int) == trim(s@),
{
    let mut i: usize = 0;
    while i < s.len() && is_whitespace(s[i])
        invariant
            i <= s.len(),
            forall|k: int| 0 <= k < i ==> is_ws(#[trigger] s@[k]),
        decreases s.len() - i,
    {
        i += 1;
    }
    proof {
        lemma_trim_start_skip(s@, i as int);
    }
    let ghost t = s@.subrange(i as int, s.len() as int);
    assert(trim_start(t) == t);
    let mut j: usize = s.len();
    while j > i && is_whitespace(s[j - 1])
        invariant
            i <= j <= s.len(),
            t == s@.subrange(i as int, s.len() as int),
            forall|k: int| j <= k < s.len() ==> is_ws(#[trigger] s@[k]),
        decreases j,
    {
        j -= 1;
    }
    proof {
        assert forall|k: int| (j - i) <= k < t.len() implies is_ws(#[trigger] t[k]) by {
            assert(t[k] == s@[k + i]);
        }
        lemma_trim_end_skip(t, j - i);
        assert(t.subrange(0, j - i) =~= s@.subrange(i as int, j as int));
        let u = s@.subrange(i as int, j as int);
        if u.len() > 0 {
            assert(!is_ws(u.last()));
        }
    }
    (i, j)
}

pub fn trim_chars(s: &Vec<char>) -> (r: Vec<char>)
    ensures
        r@ == trim(s@),
{
    let (a, b) = trim_bounds(s);
    slice_chars(s, a, b)
}

} // verus!
