//! Post-processing of generated text: commit-message cleanup and removal of
//! the code fence around a JSON answer.
use vstd::prelude::*;
use crate::diff_filter::index_of;
use crate::text::{
    chars_of, ends_with, ends_with_lit, is_whitespace, is_ws, lemma_trim_start_skip, slice_chars,
    starts_with, starts_with_lit, string_of, trim, trim_chars, trim_end, trim_start,
};

verus! {

pub open spec fn fence() -> Seq<char> {
    "```"@
}

/// Openings that models put before the message itself.
pub open spec fn has_preamble(t: Seq<char>) -> bool {
    starts_with(t, "Here's a commit message"@) || starts_with(t, "Here is a commit message"@)
        || starts_with(t, "This commit message"@) || starts_with(t, "The commit message"@)
        || starts_with(t, "Commit message:"@) || starts_with(t, fence())
}

/// The emoji of the commit-message guide (their first code point).
pub open spec fn is_commit_emoji(c: char) -> bool {
    let v = c as u32;
    v == 0x2728 || v == 0x1F41B || v == 0x1F512 || v == 0x26A1 || v == 0x1F3A8 || v == 0x267B
        || v == 0x1F527 || v == 0x1F4E6 || v == 0x1F4DD || v == 0x1F484 || v == 0x1F680 || v
        == 0x1F525 || v == 0x1F6A7 || v == 0x2B06 || v == 0x2B07 || v == 0x1F389
}

/// A line that opens a commit message: after leading whitespace, a
/// conventional-commit type with its scope, or one of the emoji.
pub open spec fn opens_message(line: Seq<char>) -> bool {
    let t = trim_start(line);
    starts_with(t, "fix("@) || starts_with(t, "feat("@) || starts_with(t, "refactor("@)
        || starts_with(t, "docs("@) || starts_with(t, "chore("@) || starts_with(t, "test("@)
        || starts_with(t, "perf("@) || starts_with(t, "style("@) || starts_with(t, "build("@)
        || starts_with(t, "ci("@) || (t.len() > 0 && is_commit_emoji(t[0]))
}

/// Start of the first line at or after `i` that opens a message, or -1.
pub open spec fn find_message_line(t: Seq<char>, i: int) -> int
    decreases t.len() - i,
{
    if i < 0 || i >= t.len() {
        -1
    } else if (i == 0 || t[i - 1] == '\n') && opens_message(
        t.subrange(i, index_of(t, '\n', i)),
    ) {
        i
    } else {
        find_message_line(t, i + 1)
    }
}

pub open spec fn strip_closing_fence(v: Seq<char>) -> Seq<char> {
    if ends_with(v, fence()) {
        v.subrange(0, v.len() - fence().len())
    } else {
        v
    }
}

pub open spec fn tag_at_start(v: Seq<char>, tag: Seq<char>) -> bool {
    starts_with(v, tag) && (v.len() == tag.len() || is_ws(v[tag.len() as int]))
}

/// Drops a `git` or `commit` language tag that follows an opening fence.
pub open spec fn strip_language_tag(v: Seq<char>) -> Seq<char> {
    if tag_at_start(v, "git"@) {
        v.subrange("git"@.len() as int, v.len() as int)
    } else if tag_at_start(v, "commit"@) {
        v.subrange("commit"@.len() as int, v.len() as int)
    } else {
        v
    }
}

/// One pass of cleanup: trim; after a preamble, start at the first line that
/// opens a message; remove an opening fence with its language tag and a
/// closing fence; trim again.
pub open spec fn clean_step(s: Seq<char>) -> Seq<char> {
    let t = trim(s);
    let k = if has_preamble(t) {
        find_message_line(t, 0)
    } else {
        -1
    };
    let u = if k >= 0 {
        t.subrange(k, t.len() as int)
    } else {
        t
    };
    if starts_with(u, fence()) {
        trim(
            strip_closing_fence(strip_language_tag(u.subrange(fence().len() as int, u.len() as int))),
        )
    } else if k >= 0 {
        trim(strip_closing_fence(u))
    } else {
        u
    }
}

/// Cleanup repeated until a pass changes nothing.
pub open spec fn clean(s: Seq<char>) -> Seq<char>
    decreases s.len(),
{
    if clean_step(s) == s {
        s
    } else {
        proof {
            lemma_clean_step_shrinks(s);
        }
        clean(clean_step(s))
    }
}

/// Shrinks or keeps: the result is no longer, and as long only when equal.
pub open spec fn shrinks(a: Seq<char>, b: Seq<char>) -> bool {
    b.len() <= a.len() && (b.len() == a.len() ==> b == a)
}

pub proof fn lemma_subrange_shrinks(s: Seq<char>, a: int, b: int)
    requires
        0 <= a <= b <= s.len(),
    ensures
        shrinks(s, s.subrange(a, b)),
{
    if b - a == s.len() {
        assert(s.subrange(a, b) =~= s);
    }
}

pub proof fn lemma_trim_shrinks(s: Seq<char>)
    ensures
        shrinks(s, trim_start(s)),
        shrinks(s, trim_end(s)),
        shrinks(s, trim(s)),
    decreases s.len(),
{
    if s.len() > 0 {
        lemma_trim_shrinks(s.drop_first());
        lemma_trim_shrinks(s.drop_last());
    }
    lemma_trim_shrinks_end(trim_start(s));
}

pub proof fn lemma_trim_shrinks_end(s: Seq<char>)
    ensures
        shrinks(s, trim_end(s)),
    decreases s.len(),
{
    if s.len() > 0 {
        lemma_trim_shrinks_end(s.drop_last());
    }
}

pub proof fn lemma_clean_step_shrinks(s: Seq<char>)
    ensures
        shrinks(s, clean_step(s)),
{
    let t = trim(s);
    lemma_trim_shrinks(s);
    let k = if has_preamble(t) {
        find_message_line(t, 0)
    } else {
        -1
    };
    lemma_find_message_line_bounds(t, 0);
    let u = if k >= 0 {
        t.subrange(k, t.len() as int)
    } else {
        t
    };
    if k >= 0 {
        lemma_subrange_shrinks(t, k, t.len() as int);
    }
    if starts_with(u, fence()) {
        reveal_strlit("```");
        reveal_strlit("git");
        reveal_strlit("commit");
        let v = strip_language_tag(u.subrange(3, u.len() as int));
        let w = strip_closing_fence(v);
        lemma_trim_shrinks(w);
    } else if k >= 0 {
        reveal_strlit("```");
        let w = strip_closing_fence(u);
        lemma_trim_shrinks(w);
    }
}

pub proof fn lemma_find_message_line_bounds(t: Seq<char>, i: int)
    ensures
        find_message_line(t, i) == -1 || (0 <= find_message_line(t, i) < t.len()),
    decreases t.len() - i,
{
    if 0 <= i < t.len() {
        lemma_find_message_line_bounds(t, i + 1);
    }
}

proof fn lemma_clean_is_fixed(s: Seq<char>)
    ensures
        clean_step(clean(s)) == clean(s),
    decreases s.len(),
{
    if clean_step(s) != s {
        lemma_clean_step_shrinks(s);
        lemma_clean_is_fixed(clean_step(s));
    }
}

/// Cleaning a cleaned message changes nothing.
pub proof fn lemma_clean_idempotent(s: Seq<char>)
    ensures
        clean(clean(s)) == clean(s),
{
    lemma_clean_is_fixed(s);
}

proof fn lemma_trim_start_head(x: Seq<char>)
    ensures
        trim_start(x).len() > 0 ==> !is_ws(trim_start(x)[0]),
    decreases x.len(),
{
    if x.len() > 0 && is_ws(x[0]) {
        lemma_trim_start_head(x.drop_first());
    }
}

proof fn lemma_trim_end_prefix(y: Seq<char>)
    ensures
        trim_end(y) == y.subrange(0, trim_end(y).len() as int),
        trim_end(y).len() <= y.len(),
        trim_end(y).len() > 0 ==> !is_ws(trim_end(y).last()),
    decreases y.len(),
{
    if y.len() > 0 && is_ws(y.last()) {
        lemma_trim_end_prefix(y.drop_last());
        assert(y.drop_last().subrange(0, trim_end(y).len() as int) =~= y.subrange(
            0,
            trim_end(y).len() as int,
        ));
    } else {
        assert(y.subrange(0, y.len() as int) =~= y);
    }
}

/// A trimmed text stays as it is when trimmed again.
pub proof fn lemma_trim_idempotent(s: Seq<char>)
    ensures
        trim(trim(s)) == trim(s),
{
    let x = trim_start(s);
    let t = trim(s);
    lemma_trim_start_head(s);
    lemma_trim_end_prefix(x);
    if t.len() > 0 {
        assert(t[0] == x[0]);
        assert(trim_start(t) == t);
        assert(trim_end(t) == t);
    } else {
        assert(trim_start(t) == t);
    }
}

/// A message that already opens with a conventional-commit type or one of
/// the emoji is only trimmed.
pub proof fn lemma_clean_keeps_message(s: Seq<char>)
    requires
        opens_message(trim(s)),
    ensures
        clean(s) == trim(s),
{
    let t = trim(s);
    lemma_trim_idempotent(s);
    lemma_trim_start_head(s);
    lemma_trim_end_prefix(trim_start(s));
    if t.len() > 0 {
        assert(t[0] == trim_start(s)[0]);
    }
    assert(trim_start(t) == t);
    reveal_strlit("fix(");
    reveal_strlit("feat(");
    reveal_strlit("refactor(");
    reveal_strlit("docs(");
    reveal_strlit("chore(");
    reveal_strlit("test(");
    reveal_strlit("perf(");
    reveal_strlit("style(");
    reveal_strlit("build(");
    reveal_strlit("ci(");
    reveal_strlit("Here's a commit message");
    reveal_strlit("Here is a commit message");
    reveal_strlit("This commit message");
    reveal_strlit("The commit message");
    reveal_strlit("Commit message:");
    reveal_strlit("```");
    assert(t.len() > 0);
    let c = t[0];
    assert(c == 'f' || c == 'r' || c == 'd' || c == 'c' || c == 't' || c == 'p' || c == 's' || c
        == 'b' || is_commit_emoji(c)) by {
        if starts_with(t, "fix("@) {
            assert(t.subrange(0, 4)[0] == c);
        }
        if starts_with(t, "feat("@) {
            assert(t.subrange(0, 5)[0] == c);
        }
        if starts_with(t, "refactor("@) {
            assert(t.subrange(0, 9)[0] == c);
        }
        if starts_with(t, "docs("@) {
            assert(t.subrange(0, 5)[0] == c);
        }
        if starts_with(t, "chore("@) {
            assert(t.subrange(0, 6)[0] == c);
        }
        if starts_with(t, "test("@) {
            assert(t.subrange(0, 5)[0] == c);
        }
        if starts_with(t, "perf("@) {
            assert(t.subrange(0, 5)[0] == c);
        }
        if starts_with(t, "style("@) {
            assert(t.subrange(0, 6)[0] == c);
        }
        if starts_with(t, "build("@) {
            assert(t.subrange(0, 6)[0] == c);
        }
        if starts_with(t, "ci("@) {
            assert(t.subrange(0, 3)[0] == c);
        }
    }
    assert(!has_preamble(t)) by {
        if starts_with(t, "Here's a commit message"@) {
            assert(t.subrange(0, 23)[0] == c);
        }
        if starts_with(t, "Here is a commit message"@) {
            assert(t.subrange(0, 24)[0] == c);
        }
        if starts_with(t, "This commit message"@) {
            assert(t.subrange(0, 19)[0] == c);
        }
        if starts_with(t, "The commit message"@) {
            assert(t.subrange(0, 18)[0] == c);
        }
        if starts_with(t, "Commit message:"@) {
            assert(t.subrange(0, 15)[0] == c);
        }
        if starts_with(t, fence()) {
            assert(t.subrange(0, 3)[0] == c);
        }
    }
    assert(clean_step(s) == t);
    assert(clean_step(t) == t);
    assert(clean(t) == t);
    if clean_step(s) != s {
        assert(clean(s) == clean(clean_step(s)));
    }
}

fn has_preamble_exec(t: &Vec<char>) -> (r: bool)
    ensures
        r == has_preamble(t@),
{
    starts_with_lit(t, "Here's a commit message") || starts_with_lit(
        t,
        "Here is a commit message",
    ) || starts_with_lit(t, "This commit message") || starts_with_lit(t, "The commit message")
        || starts_with_lit(t, "Commit message:") || starts_with_lit(t, "```")
}

fn is_commit_emoji_exec(c: char) -> (r: bool)
    ensures
        r == is_commit_emoji(c),
{
    let v = c as u32;
    v == 0x2728 || v == 0x1F41B || v == 0x1F512 || v == 0x26A1 || v == 0x1F3A8 || v == 0x267B
        || v == 0x1F527 || v == 0x1F4E6 || v == 0x1F4DD || v == 0x1F484 || v == 0x1F680 || v
        == 0x1F525 || v == 0x1F6A7 || v == 0x2B06 || v == 0x2B07 || v == 0x1F389
}

fn trim_start_exec(s: &Vec<char>) -> (r: Vec<char>)
    ensures
        r@ == trim_start(s@),
{
    let mut i: usize = 0;
    while i < s.len() && is_whitespace(s[i])
        invariant
            i <= s.len(),
            forall|k: int| 0 <= k < i ==> is_ws(#[trigger] s@[k]),
        decreases s.len() - i,
    {
        i += 1;
    }
    proof {
        lemma_trim_start_skip(s@, i as int);
    }
    slice_chars(s, i, s.len())
}

fn opens_message_exec(line: &Vec<char>) -> (r: bool)
    ensures
        r == opens_message(line@),
{
    let t = trim_start_exec(line);
    starts_with_lit(&t, "fix(") || starts_with_lit(&t, "feat(") || starts_with_lit(
        &t,
        "refactor(",
    ) || starts_with_lit(&t, "docs(") || starts_with_lit(&t, "chore(") || starts_with_lit(
        &t,
        "test(",
    ) || starts_with_lit(&t, "perf(") || starts_with_lit(&t, "style(") || starts_with_lit(
        &t,
        "build(",
    ) || starts_with_lit(&t, "ci(") || (t.len() > 0 && is_commit_emoji_exec(t[0]))
}

fn index_of_from(s: &Vec<char>, c: char, i: usize) -> (r: usize)
    requires
        i <= s.len(),
    ensures
        r == index_of(s@, c, i as int),
        i <= r <= s.len(),
{
    let mut j: usize = i;
    while j < s.len() && s[j] != c
        invariant
            i <= j <= s.len(),
            index_of(s@, c, i as int) == index_of(s@, c, j as int),
        decreases s.len() - j,
    {
        j += 1;
    }
    j
}

fn find_message_line_exec(t: &Vec<char>) -> (r: Option<usize>)
    ensures
        match r {
            Some(k) => find_message_line(t@, 0) == k && k < t.len(),
            None => find_message_line(t@, 0) == -1,
        },
{
    let mut i: usize = 0;
    while i < t.len()
        invariant
            i <= t.len(),
            find_message_line(t@, 0) == find_message_line(t@, i as int),
        decreases t.len() - i,
    {
        if i == 0 || t[i - 1] == '\n' {
            let e = index_of_from(t, '\n', i);
            let line = slice_chars(t, i, e);
            if opens_message_exec(&line) {
                return Some(i);
            }
        }
        i += 1;
    }
    None
}

fn strip_closing_fence_exec(v: &Vec<char>) -> (r: Vec<char>)
    ensures
        r@ == strip_closing_fence(v@),
{
    let f = chars_of("```");
    if ends_with_lit(v, "```") {
        slice_chars(v, 0, v.len() - f.len())
    } else {
        slice_chars(v, 0, v.len())
    }
}

fn tag_at_start_exec(v: &Vec<char>, tag: &str) -> (r: bool)
    ensures
        r == tag_at_start(v@, tag@),
{
    let t = chars_of(tag);
    starts_with_lit(v, tag) && (v.len() == t.len() || is_whitespace(v[t.len()]))
}

fn strip_language_tag_exec(v: &Vec<char>) -> (r: Vec<char>)
    ensures
        r@ == strip_language_tag(v@),
{
    if tag_at_start_exec(v, "git") {
        let n = chars_of("git").len();
        slice_chars(v, n, v.len())
    } else if tag_at_start_exec(v, "commit") {
        let n = chars_of("commit").len();
        slice_chars(v, n, v.len())
    } else {
        slice_chars(v, 0, v.len())
    }
}

fn clean_step_exec(s: &Vec<char>) -> (r: Vec<char>)
    ensures
        r@ == clean_step(s@),
{
    let t = trim_chars(s);
    let k = if has_preamble_exec(&t) {
        find_message_line_exec(&t)
    } else {
        None
    };
    let u = match k {
        Some(k) => slice_chars(&t, k, t.len()),
        None => t,
    };
    if starts_with_lit(&u, "```") {
        let n = chars_of("```").len();
        let v = slice_chars(&u, n, u.len());
        let w = strip_closing_fence_exec(&strip_language_tag_exec(&v));
        trim_chars(&w)
    } else if k.is_some() {
        trim_chars(&strip_closing_fence_exec(&u))
    } else {
        u
    }
}

/// Cleans a generated commit message: drops a preamble before the first line
/// that opens a message, the code fences around it, and surrounding
/// whitespace, until nothing more changes.
pub fn clean_commit_message(raw: &str) -> (r: String)
    ensures
        r@ == clean(raw@),
{
    let mut cur = chars_of(raw);
    loop
        invariant
            clean(cur@) == clean(raw@),
        decreases cur.len(),
    {
        let next = clean_step_exec(&cur);
        proof {
            lemma_clean_step_shrinks(cur@);
        }
        if next.len() == cur.len() {
            return string_of(&cur);
        }
        cur = next;
    }
}

/// The answer without surrounding whitespace and JSON code fence.
pub open spec fn json_strip(s: Seq<char>) -> Seq<char> {
    let t = trim(s);
    let u = if starts_with(t, "```json"@) {
        t.subrange("```json"@.len() as int, t.len() as int)
    } else {
        t
    };
    let v = if ends_with(u, fence()) {
        u.subrange(0, u.len() - fence().len())
    } else {
        u
    };
    trim(v)
}

/// Removes a ```` ```json ```` opening and a ```` ``` ```` closing from an
/// answer, with the whitespace around it.
pub fn handle_json_strip(text: &str) -> (r: String)
    ensures
        r@ == json_strip(text@),
{
    let t = trim_chars(&chars_of(text));
    let u = if starts_with_lit(&t, "```json") {
        let n = chars_of("```json").len();
        slice_chars(&t, n, t.len())
    } else {
        t
    };
    let v = strip_closing_fence_exec(&u);
    string_of(&trim_chars(&v))
}

} // verus!
