//! Splitting, joining and sorting sequences of text pieces.
use vstd::prelude::*;
use crate::text::{append_chars, matches_at, matches_at_exec, slice_chars};

verus! {

/// The texts held by a vector of character vectors.
pub open spec fn views(v: Seq<Vec<char>>) -> Seq<Seq<char>> {
    v.map_values(|x: Vec<char>| x@)
}

/// Pieces of `s` between non-overlapping occurrences of `p`, scanning left to
/// right, as `str::split` yields them; the current piece starts at `start`
/// and the scan stands at `i`.
pub open spec fn split_from(s: Seq<char>, p: Seq<char>, start: int, i: int) -> Seq<Seq<char>>
    decreases s.len() + 1 - i,
{
    if p.len() == 0 || i < 0 || start < 0 || start > i {
        seq![s]
    } else if matches_at(s, i, p) {
        seq![s.subrange(start, i)] + split_from(s, p, i + p.len(), i + p.len())
    } else if i < s.len() {
        split_from(s, p, start, i + 1)
    } else {
        seq![s.subrange(start, s.len() as int)]
    }
}

pub open spec fn split(s: Seq<char>, p: Seq<char>) -> Seq<Seq<char>> {
    split_from(s, p, 0, 0)
}

/// The pieces joined with `sep` between neighbours.
pub open spec fn join(parts: Seq<Seq<char>>, sep: Seq<char>) -> Seq<char>
    decreases parts.len(),
{
    if parts.len() == 0 {
        seq![]
    } else if parts.len() == 1 {
        parts[0]
    } else {
        join(parts.drop_last(), sep) + sep + parts.last()
    }
}

/// Lexicographic order of texts by code point, the order of `str`'s `Ord`.
pub open spec fn lex_le(a: Seq<char>, b: Seq<char>) -> bool
    decreases a.len(),
{
    if a.len() == 0 {
        true
    } else if b.len() == 0 {
        false
    } else if a[0] != b[0] {
        (a[0] as u32) < (b[0] as u32)
    } else {
        lex_le(a.drop_first(), b.drop_first())
    }
}

/// `x` placed before the first element that is not below it.
pub open spec fn insert_sorted(s: Seq<Seq<char>>, x: Seq<char>) -> Seq<Seq<char>>
    decreases s.len(),
{
    if s.len() == 0 {
        seq![x]
    } else if lex_le(x, s[0]) {
        seq![x] + s
    } else {
        seq![s[0]] + insert_sorted(s.drop_first(), x)
    }
}

/// Insertion sort in lexicographic order.
pub open spec fn sort(s: Seq<Seq<char>>) -> Seq<Seq<char>>
    decreases s.len(),
{
    if s.len() == 0 {
        seq![]
    } else {
        insert_sorted(sort(s.drop_last()), s.last())
    }
}

pub open spec fn sorted(s: Seq<Seq<char>>) -> bool {
    forall|i: int, j: int| 0 <= i < j < s.len() ==> lex_le(#[trigger] s[i], #[trigger] s[j])
}

pub fn split_exec(s: &Vec<char>, p: &Vec<char>) -> (r: Vec<Vec<char>>)
    requires
        p.len() > 0,
    ensures
        views(r@) == split(s@, p@),
{
    let mut pieces: Vec<Vec<char>> = Vec::new();
    let mut start: usize = 0;
    let mut i: usize = 0;
    loop
        invariant
            p.len() > 0,
            start <= i <= s.len(),
            views(pieces@) + split_from(s@, p@, start as int, i as int) == split(s@, p@),
        decreases s.len() + 1 - i,
    {
        if matches_at_exec(s, i, p) {
            let piece = slice_chars(s, start, i);
            proof {
                assert(views(pieces@.push(piece)) =~= views(pieces@).push(piece@));
                assert(views(pieces@).push(piece@) + split_from(s@, p@, i + p.len(), i + p.len())
                    =~= views(pieces@) + (seq![piece@] + split_from(
                    s@,
                    p@,
                    i + p.len(),
                    i + p.len(),
                )));
            }
            pieces.push(piece);
            i = i + p.len();
            start = i;
        } else if i < s.len() {
            i += 1;
        } else {
            let piece = slice_chars(s, start, s.len());
            proof {
                assert(views(pieces@.push(piece)) =~= views(pieces@) + seq![piece@]);
            }
            pieces.push(piece);
            return pieces;
        }
    }
}

pub fn join_exec(parts: &Vec<Vec<char>>, sep: &Vec<char>) -> (r: Vec<char>)
    ensures
        r@ == join(views(parts@), sep@),
{
    let mut acc: Vec<char> = Vec::new();
    let mut i: usize = 0;
    while i < parts.len()
        invariant
            i <= parts.len(),
            acc@ == join(views(parts@).subrange(0, i as int), sep@),
        decreases parts.len() - i,
    {
        if i > 0 {
            append_chars(&mut acc, sep);
        }
        append_chars(&mut acc, &parts[i]);
        proof {
            let vs = views(parts@);
            let next = vs.subrange(0, i + 1);
            assert(next.drop_last() =~= vs.subrange(0, i as int));
            if i == 0 {
                assert(acc@ =~= join(next, sep@));
            }
        }
        i += 1;
    }
    proof {
        assert(views(parts@).subrange(0, parts.len() as int) =~= views(parts@));
    }
    acc
}

pub fn lex_le_exec(a: &Vec<char>, b: &Vec<char>) -> (r: bool)
    ensures
        r == lex_le(a@, b@),
{
    let mut k: usize = 0;
    assert(a@.subrange(0, a.len() as int) =~= a@);
    assert(b@.subrange(0, b.len() as int) =~= b@);
    loop
        invariant
            k <= a.len(),
            k <= b.len(),
            lex_le(a@, b@) == lex_le(
                a@.subrange(k as int, a.len() as int),
                b@.subrange(k as int, b.len() as int),
            ),
        decreases a.len() - k,
    {
        let ghost sa = a@.subrange(k as int, a.len() as int);
        let ghost sb = b@.subrange(k as int, b.len() as int);
        if k == a.len() {
            return true;
        }
        if k == b.len() {
            return false;
        }
        if a[k] != b[k] {
            return (a[k] as u32) < (b[k] as u32);
        }
        proof {
            assert(sa.drop_first() =~= a@.subrange(k + 1, a.len() as int));
            assert(sb.drop_first() =~= b@.subrange(k + 1, b.len() as int));
        }
        k += 1;
    }
}

proof fn lemma_insert_at(s: Seq<Seq<char>>, x: Seq<char>, i: int)
    requires
        0 <= i <= s.len(),
        forall|k: int| 0 <= k < i ==> !lex_le(x, #[trigger] s[k]),
        i == s.len() || lex_le(x, s[i]),
    ensures
        insert_sorted(s, x) == s.insert(i, x),
    decreases s.len(),
{
    if s.len() == 0 {
        assert(s.insert(i, x) =~= seq![x]);
    } else if i == 0 {
        assert(s.insert(i, x) =~= seq![x] + s);
    } else {
        let t = s.drop_first();
        assert forall|k: int| 0 <= k < i - 1 implies !lex_le(x, #[trigger] t[k]) by {
            assert(t[k] == s[k + 1]);
        }
        lemma_insert_at(t, x, i - 1);
        assert(s.insert(i, x) =~= seq![s[0]] + t.insert(i - 1, x));
    }
}

pub fn sort_exec(v: &Vec<Vec<char>>) -> (r: Vec<Vec<char>>)
    ensures
        views(r@) == sort(views(v@)),
{
    let mut out: Vec<Vec<char>> = Vec::new();
    let mut n: usize = 0;
    while n < v.len()
        invariant
            n <= v.len(),
            views(out@) == sort(views(v@).subrange(0, n as int)),
        decreases v.len() - n,
    {
        let x = v[n].clone();
        let mut i: usize = 0;
        while i < out.len() && !lex_le_exec(&x, &out[i])
            invariant
                i <= out.len(),
                x@ == v@[n as int]@,
                forall|k: int| 0 <= k < i ==> !lex_le(x@, #[trigger] views(out@)[k]),
            decreases out.len() - i,
        {
            i += 1;
        }
        proof {
            lemma_insert_at(views(out@), x@, i as int);
            let vs = views(v@);
            assert(vs.subrange(0, n + 1).drop_last() =~= vs.subrange(0, n as int));
        }
        let ghost old_out = out@;
        out.insert(i, x);
        proof {
            assert(views(out@) =~= views(old_out).insert(i as int, x@));
        }
        n += 1;
    }
    proof {
        assert(views(v@).subrange(0, v.len() as int) =~= views(v@));
    }
    out
}

pub proof fn lemma_lex_total(a: Seq<char>, b: Seq<char>)
    ensures
        lex_le(a, b) || lex_le(b, a),
    decreases a.len(),
{
    if a.len() > 0 && b.len() > 0 {
        if a[0] == b[0] {
            lemma_lex_total(a.drop_first(), b.drop_first());
        } else {
            vstd::utf8::char_u32_cast(a[0], a[0] as u32);
            vstd::utf8::char_u32_cast(b[0], b[0] as u32);
        }
    }
}

pub proof fn lemma_lex_trans(a: Seq<char>, b: Seq<char>, c: Seq<char>)
    requires
        lex_le(a, b),
        lex_le(b, c),
    ensures
        lex_le(a, c),
    decreases a.len(),
{
    if a.len() > 0 && b.len() > 0 && c.len() > 0 && a[0] == b[0] && b[0] == c[0] {
        lemma_lex_trans(a.drop_first(), b.drop_first(), c.drop_first());
    }
}

proof fn lemma_insert_sorted(s: Seq<Seq<char>>, x: Seq<char>)
    requires
        sorted(s),
    ensures
        sorted(insert_sorted(s, x)),
        insert_sorted(s, x).to_multiset() == s.to_multiset().insert(x),
        forall|y: Seq<char>| #[trigger] insert_sorted(s, x).contains(y) ==> y == x || s.contains(y),
    decreases s.len(),
{
    broadcast use vstd::seq_lib::group_to_multiset_ensures;

    let r = insert_sorted(s, x);
    if s.len() == 0 {
        assert(r =~= seq![x]);
        assert(seq![x] =~= Seq::<Seq<char>>::empty().push(x));
    } else if lex_le(x, s[0]) {
        assert forall|i: int, j: int| 0 <= i < j < r.len() implies lex_le(
            #[trigger] r[i],
            #[trigger] r[j],
        ) by {
            if i == 0 {
                if j > 1 {
                    lemma_lex_trans(x, s[0], s[j - 1]);
                }
            } else {
                assert(r[i] == s[i - 1] && r[j] == s[j - 1]);
            }
        }
        vstd::seq_lib::lemma_multiset_commutative(seq![x], s);
        assert(seq![x] =~= Seq::<Seq<char>>::empty().push(x));
        assert forall|y: Seq<char>| #[trigger] r.contains(y) implies y == x || s.contains(y) by {
            let k = choose|k: int| 0 <= k < r.len() && r[k] == y;
            if k > 0 {
                assert(s[k - 1] == y);
            }
        }
    } else {
        let t = s.drop_first();
        assert forall|i: int, j: int| 0 <= i < j < t.len() implies lex_le(
            #[trigger] t[i],
            #[trigger] t[j],
        ) by {
            assert(t[i] == s[i + 1] && t[j] == s[j + 1]);
        }
        lemma_insert_sorted(t, x);
        let u = insert_sorted(t, x);
        assert(r == seq![s[0]] + u);
        lemma_lex_total(x, s[0]);
        assert forall|i: int, j: int| 0 <= i < j < r.len() implies lex_le(
            #[trigger] r[i],
            #[trigger] r[j],
        ) by {
            if i == 0 {
                assert(r[j] == u[j - 1]);
                assert(u.contains(u[j - 1]));
                if u[j - 1] != x {
                    let k = choose|k: int| 0 <= k < t.len() && t[k] == u[j - 1];
                    assert(s[k + 1] == t[k]);
                }
            } else {
                assert(r[i] == u[i - 1] && r[j] == u[j - 1]);
            }
        }
        vstd::seq_lib::lemma_multiset_commutative(seq![s[0]], u);
        vstd::seq_lib::lemma_multiset_commutative(seq![s[0]], t);
        assert(seq![s[0]] + t =~= s);
        assert(seq![s[0]] =~= Seq::<Seq<char>>::empty().push(s[0]));
        assert forall|y: Seq<char>| #[trigger] r.contains(y) implies y == x || s.contains(y) by {
            let k = choose|k: int| 0 <= k < r.len() && r[k] == y;
            if k == 0 {
                assert(s[0] == y);
            } else {
                assert(u[k - 1] == y);
                assert(u.contains(y));
                if y != x {
                    let m = choose|m: int| 0 <= m < t.len() && t[m] == y;
                    assert(s[m + 1] == y);
                }
            }
        }
    }
}

/// Sorting puts the texts in lexicographic order and keeps each of them, as
/// often as it occurs.
pub proof fn lemma_sort_sorted(s: Seq<Seq<char>>)
    ensures
        sorted(sort(s)),
        sort(s).to_multiset() == s.to_multiset(),
    decreases s.len(),
{
    broadcast use vstd::seq_lib::group_to_multiset_ensures;

    if s.len() > 0 {
        lemma_sort_sorted(s.drop_last());
        lemma_insert_sorted(sort(s.drop_last()), s.last());
        assert(s.drop_last().push(s.last()) =~= s);
    } else {
        assert(sort(s) =~= s);
    }
}

/// Joining two non-empty groups puts the first group, whole, before the
/// second.
pub proof fn lemma_join_append(a: Seq<Seq<char>>, b: Seq<Seq<char>>, sep: Seq<char>)
    requires
        a.len() > 0,
        b.len() > 0,
    ensures
        join(a + b, sep) == join(a, sep) + sep + join(b, sep),
    decreases b.len(),
{
    if b.len() == 1 {
        assert((a + b).drop_last() =~= a);
    } else {
        assert((a + b).drop_last() =~= a + b.drop_last());
        lemma_join_append(a, b.drop_last(), sep);
    }
}

} // verus!
