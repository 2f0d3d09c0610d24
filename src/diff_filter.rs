//! Filtering of a unified diff into a sorted index of changed files and a
//! byte-budgeted, priority-first body.
use vstd::prelude::*;
use crate::classify::{ignorable, ignorable_chars, priority_config, priority_config_chars};
use crate::lines::{
    join, join_exec, lemma_join_append, lemma_sort_sorted, sort, sort_exec, sorted, split,
    split_exec, split_from, views,
};
use crate::text::{
    append_chars, append_str, byte_len, char_utf8_len, chars_of, contains, contains_lit, is_ws,
    matches_at,
    is_whitespace, slice_chars, starts_with, starts_with_exec, string_of,
};

verus! {

/// Largest size of the filtered diff, in bytes, before the truncation notice.
pub const MAX_CONTEXT_LENGTH: usize = 8000;

pub open spec fn diff_sep() -> Seq<char> {
    "diff --git "@
}

pub open spec fn sentinel() -> Seq<char> {
    "Filtered out diff contents. Likely only lockfiles or ignored files were changed."@
}

pub open spec fn index_header() -> Seq<char> {
    "An index of the changed files:\n"@
}

pub open spec fn body_banner() -> Seq<char> {
    "\n\nFull diff for each file (priority files first):\n"@
}

pub open spec fn truncation_notice() -> Seq<char> {
    "\n... (diff truncated)"@
}

/// Index of the first `c` in `s` at or after `i`, or `s.len()`.
pub open spec fn index_of(s: Seq<char>, c: char, i: int) -> int
    decreases s.len() - i,
{
    if i < 0 || i >= s.len() {
        s.len() as int
    } else if s[i] == c {
        i
    } else {
        index_of(s, c, i + 1)
    }
}

/// First index in `i..e` that holds no whitespace, or `e`.
pub open spec fn skip_ws(s: Seq<char>, i: int, e: int) -> int
    decreases e - i,
{
    if 0 <= i < e && e <= s.len() && is_ws(s[i]) {
        skip_ws(s, i + 1, e)
    } else {
        i
    }
}

/// First index in `i..e` that holds whitespace, or `e`.
pub open spec fn skip_word(s: Seq<char>, i: int, e: int) -> int
    decreases e - i,
{
    if 0 <= i < e && e <= s.len() && !is_ws(s[i]) {
        skip_word(s, i + 1, e)
    } else {
        i
    }
}

/// First whitespace-delimited word of the first line of a segment.
pub open spec fn part_token(part: Seq<char>) -> Option<Seq<char>> {
    let e = index_of(part, '\n', 0);
    let a = skip_ws(part, 0, e);
    if a < e {
        Some(part.subrange(a, skip_word(part, a, e)))
    } else {
        None
    }
}

/// The file a segment is about: its first word without the `a/` prefix.
pub open spec fn part_name(part: Seq<char>) -> Option<Seq<char>> {
    match part_token(part) {
        Some(t) => Some(
            if starts_with(t, "a/"@) {
                t.subrange("a/"@.len() as int, t.len() as int)
            } else {
                t
            },
        ),
        None => None,
    }
}

pub open spec fn status_of(part: Seq<char>) -> Seq<char> {
    if contains(part, "new file mode "@) {
        "added"@
    } else if contains(part, "deleted file mode "@) {
        "deleted"@
    } else {
        "modified"@
    }
}

pub open spec fn summary_line(name: Seq<char>, part: Seq<char>) -> Seq<char> {
    "- "@ + name + " ("@ + status_of(part) + ")"@
}

/// Summary lines, priority chunks and other chunks.
pub type Buckets = (Seq<Seq<char>>, Seq<Seq<char>>, Seq<Seq<char>>);

/// One segment added to the buckets: dropped if its file is ignorable, kept
/// verbatim among the others if no file name can be read from it.
pub open spec fn add_part(b: Buckets, part: Seq<char>) -> Buckets {
    let chunk = diff_sep() + part;
    match part_name(part) {
        None => (b.0, b.1, b.2.push(chunk)),
        Some(n) => if ignorable(n) {
            b
        } else if priority_config(n) {
            (b.0.push(summary_line(n, part)), b.1.push(chunk), b.2)
        } else {
            (b.0.push(summary_line(n, part)), b.1, b.2.push(chunk))
        },
    }
}

/// The segments of a diff sorted into the buckets, in order.
pub open spec fn buckets(parts: Seq<Seq<char>>) -> Buckets
    decreases parts.len(),
{
    if parts.len() == 0 {
        (seq![], seq![], seq![])
    } else {
        add_part(buckets(parts.drop_last()), parts.last())
    }
}

/// The segments of a diff: what follows each `diff --git ` header.
pub open spec fn diff_parts(d: Seq<char>) -> Seq<Seq<char>> {
    split(d, diff_sep()).drop_first()
}

/// Index and body before the byte budget applies.
pub open spec fn indexed_diff(b: Buckets) -> Seq<char> {
    let header = if b.0.len() == 0 {
        seq![]
    } else {
        index_header() + join(sort(b.0), "\n"@) + body_banner()
    };
    header + join(b.1 + b.2, "\n"@)
}

/// Number of leading characters of `s` (from `i` on) whose encoding fits in
/// `budget` bytes.
pub open spec fn fit_from(s: Seq<char>, i: int, budget: int) -> int
    decreases s.len() - i,
{
    if 0 <= i < s.len() && byte_len(s.subrange(0, i + 1)) <= budget {
        fit_from(s, i + 1, budget)
    } else {
        i
    }
}

pub open spec fn fit(s: Seq<char>, budget: int) -> int {
    fit_from(s, 0, budget)
}

/// Index of the last `c` in `s`, or -1.
pub open spec fn last_index(s: Seq<char>, c: char) -> int
    decreases s.len(),
{
    if s.len() == 0 {
        -1
    } else if s.last() == c {
        s.len() - 1
    } else {
        last_index(s.drop_last(), c)
    }
}

/// Within the budget the text stands as it is. Beyond it, the text is cut
/// before the last newline that fits, or where the budget ends if no newline
/// fits, and the notice is appended.
pub open spec fn truncate_diff(s: Seq<char>) -> Seq<char> {
    if byte_len(s) <= MAX_CONTEXT_LENGTH {
        s
    } else {
        let pre = s.subrange(0, fit(s, MAX_CONTEXT_LENGTH as int));
        let nl = last_index(pre, '\n');
        (if nl >= 0 {
            s.subrange(0, nl)
        } else {
            pre
        }) + truncation_notice()
    }
}

/// What `filter_diff` returns for a diff.
pub open spec fn filtered(d: Seq<char>) -> Seq<char> {
    let b = buckets(diff_parts(d));
    if b.1.len() == 0 && b.2.len() == 0 && d.len() > 0 {
        sentinel()
    } else {
        truncate_diff(indexed_diff(b))
    }
}

proof fn lemma_split_nonempty(s: Seq<char>, p: Seq<char>, start: int, i: int)
    ensures
        split_from(s, p, start, i).len() >= 1,
    decreases s.len() + 1 - i,
{
    if p.len() == 0 || i < 0 || start < 0 || start > i {
    } else if matches_at(s, i, p) {
        lemma_split_nonempty(s, p, i + p.len(), i + p.len());
    } else if i < s.len() {
        lemma_split_nonempty(s, p, start, i + 1);
    }
}

pub proof fn lemma_byte_len_prefix(s: Seq<char>, k: int)
    requires
        0 <= k <= s.len(),
    ensures
        byte_len(s.subrange(0, k)) <= byte_len(s),
    decreases s.len(),
{
    if k < s.len() {
        assert(s.drop_last().subrange(0, k) =~= s.subrange(0, k));
        lemma_byte_len_prefix(s.drop_last(), k);
    } else {
        assert(s.subrange(0, k) =~= s);
    }
}

/// `fit(s, budget)` and the byte length of that prefix.
pub fn fit_exec(s: &Vec<char>, budget: usize) -> (r: (usize, usize))
    ensures
        r.0 == fit(s@, budget as int),
        r.0 <= s.len(),
        r.1 == byte_len(s@.subrange(0, r.0 as int)),
        r.1 <= budget,
        r.0 < s.len() ==> byte_len(s@.subrange(0, r.0 + 1)) > budget,
{
    let mut i: usize = 0;
    let mut acc: usize = 0;
    assert(s@.subrange(0, 0) =~= Seq::<char>::empty());
    loop
        invariant
            i <= s.len(),
            acc == byte_len(s@.subrange(0, i as int)),
            acc <= budget,
            fit(s@, budget as int) == fit_from(s@, i as int, budget as int),
        decreases s.len() - i,
    {
        if i == s.len() {
            return (i, acc);
        }
        let l = char_utf8_len(s[i]);
        proof {
            assert(s@.subrange(0, i + 1).drop_last() =~= s@.subrange(0, i as int));
        }
        if l > budget - acc {
            return (i, acc);
        }
        acc = acc + l;
        i += 1;
    }
}

pub fn last_index_exec(s: &Vec<char>, n: usize, c: char) -> (r: Option<usize>)
    requires
        n <= s.len(),
    ensures
        match r {
            Some(i) => last_index(s@.subrange(0, n as int), c) == i && i < n,
            None => last_index(s@.subrange(0, n as int), c) == -1,
        },
{
    let mut j: usize = n;
    while j > 0 && s[j - 1] != c
        invariant
            j <= n <= s.len(),
            last_index(s@.subrange(0, n as int), c) == last_index(s@.subrange(0, j as int), c),
        decreases j,
    {
        assert(s@.subrange(0, j as int).drop_last() =~= s@.subrange(0, j - 1));
        j -= 1;
    }
    if j == 0 {
        None
    } else {
        Some(j - 1)
    }
}

pub fn truncate_diff_exec(s: &Vec<char>) -> (r: Vec<char>)
    ensures
        r@ == truncate_diff(s@),
{
    let (k, _) = fit_exec(s, MAX_CONTEXT_LENGTH);
    if k == s.len() {
        proof {
            assert(s@.subrange(0, k as int) =~= s@);
        }
        return slice_chars(s, 0, s.len());
    }
    proof {
        lemma_byte_len_prefix(s@, k + 1);
    }
    let mut out = match last_index_exec(s, k, '\n') {
        Some(nl) => slice_chars(s, 0, nl),
        None => slice_chars(s, 0, k),
    };
    append_str(&mut out, "\n... (diff truncated)");
    out
}

pub fn index_of_exec(s: &Vec<char>, c: char) -> (r: usize)
    ensures
        r == index_of(s@, c, 0),
        r <= s.len(),
{
    let mut i: usize = 0;
    while i < s.len() && s[i] != c
        invariant
            i <= s.len(),
            index_of(s@, c, 0) == index_of(s@, c, i as int),
        decreases s.len() - i,
    {
        i += 1;
    }
    i
}

fn part_name_exec(part: &Vec<char>) -> (r: Option<Vec<char>>)
    ensures
        r.is_some() == part_name(part@).is_some(),
        r.is_some() ==> r.unwrap()@ == part_name(part@).unwrap(),
{
    let e = index_of_exec(part, '\n');
    let mut a: usize = 0;
    while a < e && is_whitespace(part[a])
        invariant
            a <= e <= part.len(),
            skip_ws(part@, 0, e as int) == skip_ws(part@, a as int, e as int),
        decreases e - a,
    {
        a += 1;
    }
    if a == e {
        return None;
    }
    let mut b: usize = a;
    while b < e && !is_whitespace(part[b])
        invariant
            a <= b <= e <= part.len(),
            skip_word(part@, a as int, e as int) == skip_word(part@, b as int, e as int),
        decreases e - b,
    {
        b += 1;
    }
    let tok = slice_chars(part, a, b);
    let pre = chars_of("a/");
    if starts_with_exec(&tok, &pre) {
        Some(slice_chars(&tok, pre.len(), tok.len()))
    } else {
        Some(tok)
    }
}

fn status_exec(part: &Vec<char>) -> (r: &'static str)
    ensures
        r@ == status_of(part@),
{
    if contains_lit(part, "new file mode ") {
        "added"
    } else if contains_lit(part, "deleted file mode ") {
        "deleted"
    } else {
        "modified"
    }
}

fn add_part_exec(
    part: &Vec<char>,
    summary: &mut Vec<Vec<char>>,
    prio: &mut Vec<Vec<char>>,
    other: &mut Vec<Vec<char>>,
)
    ensures
        (views(final(summary)@), views(final(prio)@), views(final(other)@)) == add_part(
            (views(old(summary)@), views(old(prio)@), views(old(other)@)),
            part@,
        ),
{
    let mut chunk = chars_of("diff --git ");
    append_chars(&mut chunk, part);
    match part_name_exec(part) {
        None => {
            proof {
                assert(views(other@.push(chunk)) =~= views(other@).push(chunk@));
            }
            other.push(chunk);
        },
        Some(n) => {
            if ignorable_chars(&n) {
                return ;
            }
            let mut line = chars_of("- ");
            append_chars(&mut line, &n);
            append_str(&mut line, " (");
            append_str(&mut line, status_exec(part));
            append_str(&mut line, ")");
            proof {
                assert(views(summary@.push(line)) =~= views(summary@).push(line@));
                assert(views(prio@.push(chunk)) =~= views(prio@).push(chunk@));
                assert(views(other@.push(chunk)) =~= views(other@).push(chunk@));
            }
            summary.push(line);
            if priority_config_chars(&n) {
                prio.push(chunk);
            } else {
                other.push(chunk);
            }
        },
    }
}

fn concat_exec(a: &Vec<Vec<char>>, b: &Vec<Vec<char>>) -> (r: Vec<Vec<char>>)
    ensures
        views(r@) == views(a@) + views(b@),
{
    let mut r: Vec<Vec<char>> = Vec::new();
    let mut i: usize = 0;
    while i < a.len()
        invariant
            i <= a.len(),
            views(r@) == views(a@).subrange(0, i as int),
        decreases a.len() - i,
    {
        let x = a[i].clone();
        assert(x@ == views(a@)[i as int]);
        assert(views(r@.push(x)) =~= views(r@).push(x@));
        r.push(x);
        i += 1;
        assert(views(r@) =~= views(a@).subrange(0, i as int));
    }
    let mut j: usize = 0;
    while j < b.len()
        invariant
            j <= b.len(),
            views(r@) == views(a@) + views(b@).subrange(0, j as int),
        decreases b.len() - j,
    {
        let x = b[j].clone();
        assert(x@ == views(b@)[j as int]);
        assert(views(r@.push(x)) =~= views(r@).push(x@));
        r.push(x);
        j += 1;
        assert(views(r@) =~= views(a@) + views(b@).subrange(0, j as int));
    }
    assert(views(a@).subrange(0, a.len() as int) =~= views(a@));
    assert(views(b@).subrange(0, b.len() as int) =~= views(b@));
    r
}

/// Builds the index of changed files (sorted) and the body (priority
/// manifests first, each group in diff order), drops lockfiles and checksum
/// files, and keeps the result within `MAX_CONTEXT_LENGTH` bytes. A diff whose
/// every segment was dropped yields a fixed notice instead of an empty text.
pub fn filter_diff(diff: &str) -> (r: String)
    ensures
        r@ == filtered(diff@),
{
    let d = chars_of(diff);
    let sep = chars_of("diff --git ");
    proof {
        reveal_strlit("diff --git ");
        lemma_split_nonempty(d@, sep@, 0, 0);
    }
    let pieces = split_exec(&d, &sep);
    let ghost parts = views(pieces@).drop_first();
    let mut summary: Vec<Vec<char>> = Vec::new();
    let mut prio: Vec<Vec<char>> = Vec::new();
    let mut other: Vec<Vec<char>> = Vec::new();
    let mut i: usize = 1;
    assert(parts.subrange(0, 0) =~= Seq::<Seq<char>>::empty());
    assert(views(summary@) =~= Seq::<Seq<char>>::empty());
    assert(views(prio@) =~= Seq::<Seq<char>>::empty());
    assert(views(other@) =~= Seq::<Seq<char>>::empty());
    while i < pieces.len()
        invariant
            1 <= i <= pieces.len(),
            parts == views(pieces@).drop_first(),
            (views(summary@), views(prio@), views(other@)) == buckets(
                parts.subrange(0, i - 1),
            ),
        decreases pieces.len() - i,
    {
        add_part_exec(&pieces[i], &mut summary, &mut prio, &mut other);
        proof {
            assert(parts.subrange(0, i as int).drop_last() =~= parts.subrange(0, i - 1));
            assert(parts.subrange(0, i as int).last() == pieces@[i as int]@);
        }
        i += 1;
    }
    assert(parts.subrange(0, pieces.len() - 1) =~= parts);
    if prio.len() == 0 && other.len() == 0 && d.len() > 0 {
        return "Filtered out diff contents. Likely only lockfiles or ignored files were changed.".to_string();
    }
    let mut out: Vec<char> = Vec::new();
    let nl = chars_of("\n");
    if summary.len() > 0 {
        append_str(&mut out, "An index of the changed files:\n");
        let sorted = sort_exec(&summary);
        let joined = join_exec(&sorted, &nl);
        append_chars(&mut out, &joined);
        append_str(&mut out, "\n\nFull diff for each file (priority files first):\n");
    }
    let all = concat_exec(&prio, &other);
    let body = join_exec(&all, &nl);
    append_chars(&mut out, &body);
    let t = truncate_diff_exec(&out);
    string_of(&t)
}

/// The segment names a file that is kept, and it is a build manifest.
pub open spec fn kept_priority(part: Seq<char>) -> bool {
    part_name(part) is Some && !ignorable(part_name(part).unwrap()) && priority_config(
        part_name(part).unwrap(),
    )
}

/// The segment names no file, or a kept file that is no build manifest.
pub open spec fn kept_other(part: Seq<char>) -> bool {
    part_name(part) is None || (!ignorable(part_name(part).unwrap()) && !priority_config(
        part_name(part).unwrap(),
    ))
}

pub open spec fn summary_of_kept(x: Seq<char>, parts: Seq<Seq<char>>) -> bool {
    exists|j: int|
        0 <= j < parts.len() && #[trigger] part_name(parts[j]) is Some && !ignorable(
            part_name(parts[j]).unwrap(),
        ) && x == summary_line(part_name(parts[j]).unwrap(), parts[j])
}

pub open spec fn chunk_of(x: Seq<char>, parts: Seq<Seq<char>>, prio: bool) -> bool {
    exists|j: int|
        0 <= j < parts.len() && x == diff_sep() + #[trigger] parts[j] && (if prio {
            kept_priority(parts[j])
        } else {
            kept_other(parts[j])
        })
}

proof fn lemma_bucket_origins(parts: Seq<Seq<char>>)
    ensures
        forall|i: int|
            0 <= i < buckets(parts).0.len() ==> summary_of_kept(#[trigger] buckets(parts).0[i], parts),
        forall|i: int|
            0 <= i < buckets(parts).1.len() ==> chunk_of(#[trigger] buckets(parts).1[i], parts, true),
        forall|i: int|
            0 <= i < buckets(parts).2.len() ==> chunk_of(#[trigger] buckets(parts).2[i], parts, false),
    decreases parts.len(),
{
    if parts.len() > 0 {
        let q = parts.drop_last();
        lemma_bucket_origins(q);
        let b = buckets(q);
        let n = parts.len() - 1;
        assert(parts[n] == parts.last());
        assert forall|i: int|
            0 <= i < buckets(parts).0.len() implies summary_of_kept(
            #[trigger] buckets(parts).0[i],
            parts,
        ) by {
            if i < b.0.len() {
                assert(buckets(parts).0[i] == b.0[i]);
                let j = choose|j: int|
                    0 <= j < q.len() && #[trigger] part_name(q[j]) is Some && !ignorable(
                        part_name(q[j]).unwrap(),
                    ) && b.0[i] == summary_line(part_name(q[j]).unwrap(), q[j]);
                assert(parts[j] == q[j]);
            } else {
                assert(part_name(parts[n]) is Some);
            }
        }
        assert forall|i: int|
            0 <= i < buckets(parts).1.len() implies chunk_of(
            #[trigger] buckets(parts).1[i],
            parts,
            true,
        ) by {
            if i < b.1.len() {
                assert(buckets(parts).1[i] == b.1[i]);
                let j = choose|j: int|
                    0 <= j < q.len() && b.1[i] == diff_sep() + #[trigger] q[j] && kept_priority(
                        q[j],
                    );
                assert(parts[j] == q[j]);
            } else {
                assert(buckets(parts).1[i] == diff_sep() + parts[n]);
            }
        }
        assert forall|i: int|
            0 <= i < buckets(parts).2.len() implies chunk_of(
            #[trigger] buckets(parts).2[i],
            parts,
            false,
        ) by {
            if i < b.2.len() {
                assert(buckets(parts).2[i] == b.2[i]);
                let j = choose|j: int|
                    0 <= j < q.len() && b.2[i] == diff_sep() + #[trigger] q[j] && kept_other(q[j]);
                assert(parts[j] == q[j]);
            } else {
                assert(buckets(parts).2[i] == diff_sep() + parts[n]);
            }
        }
    }
}

/// Lockfiles and checksum files never reach the output: every index line
/// names a file that is not ignorable, and no segment of an ignorable file is
/// kept in either group of the body.
pub proof fn lemma_ignorable_never_kept(d: Seq<char>)
    ensures
        forall|i: int|
            0 <= i < buckets(diff_parts(d)).0.len() ==> summary_of_kept(
                #[trigger] buckets(diff_parts(d)).0[i],
                diff_parts(d),
            ),
        forall|j: int|
            0 <= j < diff_parts(d).len() && #[trigger] part_name(diff_parts(d)[j]) is Some
                && ignorable(part_name(diff_parts(d)[j]).unwrap()) ==> !buckets(
                diff_parts(d),
            ).1.contains(diff_sep() + diff_parts(d)[j]) && !buckets(diff_parts(d)).2.contains(
                diff_sep() + diff_parts(d)[j],
            ),
{
    let parts = diff_parts(d);
    let b = buckets(parts);
    lemma_bucket_origins(parts);
    assert forall|j: int|
        0 <= j < parts.len() && #[trigger] part_name(parts[j]) is Some && ignorable(
            part_name(parts[j]).unwrap(),
        ) implies !b.1.contains(diff_sep() + parts[j]) && !b.2.contains(diff_sep() + parts[j]) by {
        if b.1.contains(diff_sep() + parts[j]) {
            let i = choose|i: int| 0 <= i < b.1.len() && b.1[i] == diff_sep() + parts[j];
            assert(chunk_of(b.1[i], parts, true));
            let k = choose|k: int|
                0 <= k < parts.len() && b.1[i] == diff_sep() + #[trigger] parts[k] && kept_priority(
                    parts[k],
                );
            assert(parts[k] =~= (diff_sep() + parts[k]).subrange(
                diff_sep().len() as int,
                (diff_sep() + parts[k]).len() as int,
            ));
            assert(parts[j] =~= (diff_sep() + parts[j]).subrange(
                diff_sep().len() as int,
                (diff_sep() + parts[j]).len() as int,
            ));
        }
        if b.2.contains(diff_sep() + parts[j]) {
            let i = choose|i: int| 0 <= i < b.2.len() && b.2[i] == diff_sep() + parts[j];
            assert(chunk_of(b.2[i], parts, false));
            let k = choose|k: int|
                0 <= k < parts.len() && b.2[i] == diff_sep() + #[trigger] parts[k] && kept_other(
                    parts[k],
                );
            assert(parts[k] =~= (diff_sep() + parts[k]).subrange(
                diff_sep().len() as int,
                (diff_sep() + parts[k]).len() as int,
            ));
            assert(parts[j] =~= (diff_sep() + parts[j]).subrange(
                diff_sep().len() as int,
                (diff_sep() + parts[j]).len() as int,
            ));
        }
    }
}

/// The body puts every build-manifest segment before every other segment:
/// when both groups are present it is the joined manifest segments, a
/// newline, then the joined others.
pub proof fn lemma_priority_first(d: Seq<char>)
    ensures
        forall|i: int|
            0 <= i < buckets(diff_parts(d)).1.len() ==> chunk_of(
                #[trigger] buckets(diff_parts(d)).1[i],
                diff_parts(d),
                true,
            ),
        forall|i: int|
            0 <= i < buckets(diff_parts(d)).2.len() ==> chunk_of(
                #[trigger] buckets(diff_parts(d)).2[i],
                diff_parts(d),
                false,
            ),
        buckets(diff_parts(d)).1.len() > 0 && buckets(diff_parts(d)).2.len() > 0 ==> join(
            buckets(diff_parts(d)).1 + buckets(diff_parts(d)).2,
            "\n"@,
        ) == join(buckets(diff_parts(d)).1, "\n"@) + "\n"@ + join(
            buckets(diff_parts(d)).2,
            "\n"@,
        ),
{
    let b = buckets(diff_parts(d));
    lemma_bucket_origins(diff_parts(d));
    if b.1.len() > 0 && b.2.len() > 0 {
        lemma_join_append(b.1, b.2, "\n"@);
    }
}

/// The index of changed files is in lexicographic order, whatever the order
/// of the diff, and lists each kept file's line as often as it occurs.
pub proof fn lemma_summary_sorted(d: Seq<char>)
    ensures
        sorted(sort(buckets(diff_parts(d)).0)),
        sort(buckets(diff_parts(d)).0).to_multiset() == buckets(diff_parts(d)).0.to_multiset(),
{
    lemma_sort_sorted(buckets(diff_parts(d)).0);
}

proof fn lemma_fit_from(s: Seq<char>, i: int, budget: int)
    requires
        0 <= i <= s.len(),
        byte_len(s.subrange(0, i)) <= budget,
    ensures
        i <= fit_from(s, i, budget) <= s.len(),
        byte_len(s.subrange(0, fit_from(s, i, budget))) <= budget,
    decreases s.len() - i,
{
    if i < s.len() && byte_len(s.subrange(0, i + 1)) <= budget {
        lemma_fit_from(s, i + 1, budget);
    }
}

proof fn lemma_last_index(s: Seq<char>, c: char)
    ensures
        last_index(s, c) == -1 ==> forall|i: int| 0 <= i < s.len() ==> s[i] != c,
        last_index(s, c) >= 0 ==> last_index(s, c) < s.len() && s[last_index(s, c)] == c,
        last_index(s, c) >= -1,
    decreases s.len(),
{
    if s.len() > 0 && s.last() != c {
        lemma_last_index(s.drop_last(), c);
        assert forall|i: int| 0 <= i < s.len() - 1 implies s[i] == s.drop_last()[i] by {}
    }
}

/// Where an over-budget text is cut: before the last newline that fits, or
/// where the budget ends.
pub open spec fn cut_point(s: Seq<char>) -> int {
    let k = fit(s, MAX_CONTEXT_LENGTH as int);
    let nl = last_index(s.subrange(0, k), '\n');
    if nl >= 0 {
        nl
    } else {
        k
    }
}

/// Over the budget, the kept text is a prefix within the budget that ends
/// just before a newline of the input, so its last line is whole; only when
/// no newline fits is it cut where the budget ends.
pub proof fn lemma_truncation_keeps_whole_lines(s: Seq<char>)
    requires
        byte_len(s) > MAX_CONTEXT_LENGTH,
    ensures
        ({
            let c = cut_point(s);
            &&& 0 <= c < s.len()
            &&& truncate_diff(s) == s.subrange(0, c) + truncation_notice()
            &&& byte_len(s.subrange(0, c)) <= MAX_CONTEXT_LENGTH
            &&& (s[c] == '\n' || (c == fit(s, MAX_CONTEXT_LENGTH as int) && forall|i: int|
                0 <= i < c ==> s[i] != '\n'))
        }),
{
    let m = MAX_CONTEXT_LENGTH as int;
    assert(s.subrange(0, 0) =~= Seq::<char>::empty());
    lemma_fit_from(s, 0, m);
    let k = fit(s, m);
    if k == s.len() {
        assert(s.subrange(0, k) =~= s);
    }
    let pre = s.subrange(0, k);
    lemma_last_index(pre, '\n');
    let nl = last_index(pre, '\n');
    assert(k < s.len());
    if nl >= 0 {
        lemma_byte_len_prefix(pre, nl);
        assert(pre.subrange(0, nl) =~= s.subrange(0, nl));
        assert(pre[nl] == s[nl]);
        assert(truncate_diff(s) == s.subrange(0, nl) + truncation_notice());
    } else {
        assert forall|i: int| 0 <= i < k implies s[i] != '\n' by {
            assert(pre[i] == s[i]);
        }
        assert(truncate_diff(s) == s.subrange(0, k) + truncation_notice());
    }
}

} // verus!
