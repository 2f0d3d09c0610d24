//! Selection of the files that describe a repository, the tree view of
//! them, and the byte-budgeted concatenation of their contents.
use vstd::prelude::*;
use crate::classify::{base_name, base_name_exec, base_start, base_start_exec, classify, classify_chars, FileClass};
use crate::diff_filter::{fit, fit_exec};
use crate::lines::{sort, sort_exec, views};
use crate::text::{append_chars, append_str, byte_len, chars_of, slice_chars, string_of};

verus! {

/// Largest size, in bytes, of one file's content in the bundle.
pub const MAX_FILE_CONTENT_LENGTH: usize = 2000;

/// Once the file contents add up to more than this many bytes, no further
/// file is added.
pub const MAX_TOTAL_CONTENT_LENGTH: usize = 10000;

pub open spec fn str_views(v: Seq<String>) -> Seq<Seq<char>> {
    v.map_values(|s: String| s@)
}

/// The directory part of a path, `.` for a file at the root.
pub open spec fn parent_dir(p: Seq<char>) -> Seq<char> {
    if base_start(p) == 0 {
        "."@
    } else {
        p.subrange(0, base_start(p) - 1)
    }
}

/// The paths of class `c`, in their order.
pub open spec fn of_class(ps: Seq<Seq<char>>, c: FileClass) -> Seq<Seq<char>>
    decreases ps.len(),
{
    if ps.len() == 0 {
        seq![]
    } else if classify(ps.last()) == c {
        of_class(ps.drop_last(), c).push(ps.last())
    } else {
        of_class(ps.drop_last(), c)
    }
}

pub open spec fn parents(ps: Seq<Seq<char>>) -> Seq<Seq<char>> {
    ps.map_values(|p: Seq<char>| parent_dir(p))
}

/// Adjacent repetitions removed.
pub open spec fn dedup(s: Seq<Seq<char>>) -> Seq<Seq<char>>
    decreases s.len(),
{
    if s.len() <= 1 {
        s
    } else if s.last() == s[s.len() - 2] {
        dedup(s.drop_last())
    } else {
        dedup(s.drop_last()).push(s.last())
    }
}

/// File names of the paths whose directory is `d`, in their order.
pub open spec fn names_in(ps: Seq<Seq<char>>, d: Seq<char>) -> Seq<Seq<char>>
    decreases ps.len(),
{
    if ps.len() == 0 {
        seq![]
    } else if parent_dir(ps.last()) == d {
        names_in(ps.drop_last(), d).push(base_name(ps.last()))
    } else {
        names_in(ps.drop_last(), d)
    }
}

pub open spec fn branch() -> Seq<char> {
    "  \u{251c}\u{2500}\u{2500} "@
}

pub open spec fn last_branch() -> Seq<char> {
    "  \u{2514}\u{2500}\u{2500} "@
}

/// One line per name; the last one gets the closing connector.
pub open spec fn render_entries(ns: Seq<Seq<char>>) -> Seq<char>
    decreases ns.len(),
{
    if ns.len() == 0 {
        seq![]
    } else if ns.len() == 1 {
        last_branch() + ns[0] + "\n"@
    } else {
        branch() + ns[0] + "\n"@ + render_entries(ns.drop_first())
    }
}

/// Each directory on a line, followed by its sorted file names.
pub open spec fn render_dirs(ds: Seq<Seq<char>>, ps: Seq<Seq<char>>) -> Seq<char>
    decreases ds.len(),
{
    if ds.len() == 0 {
        seq![]
    } else {
        ds[0] + "\n"@ + render_entries(sort(names_in(ps, ds[0]))) + render_dirs(
            ds.drop_first(),
            ps,
        )
    }
}

/// Each directory once, in order, followed by its files in order.
pub open spec fn tree_view(ps: Seq<Seq<char>>) -> Seq<char> {
    render_dirs(dedup(sort(parents(ps))), ps)
}

pub fn to_chars_all(v: &Vec<String>) -> (r: Vec<Vec<char>>)
    ensures
        views(r@) == str_views(v@),
{
    let mut r: Vec<Vec<char>> = Vec::new();
    let mut i: usize = 0;
    while i < v.len()
        invariant
            i <= v.len(),
            views(r@) == str_views(v@).subrange(0, i as int),
        decreases v.len() - i,
    {
        let c = chars_of(v[i].as_str());
        proof {
            assert(views(r@.push(c)) =~= views(r@).push(c@));
        }
        r.push(c);
        i += 1;
        assert(views(r@) =~= str_views(v@).subrange(0, i as int));
    }
    assert(str_views(v@).subrange(0, v.len() as int) =~= str_views(v@));
    r
}

pub fn to_strings(v: &Vec<Vec<char>>) -> (r: Vec<String>)
    ensures
        str_views(r@) == views(v@),
{
    let mut r: Vec<String> = Vec::new();
    let mut i: usize = 0;
    while i < v.len()
        invariant
            i <= v.len(),
            str_views(r@) == views(v@).subrange(0, i as int),
        decreases v.len() - i,
    {
        let s = string_of(&v[i]);
        proof {
            assert(str_views(r@.push(s)) =~= str_views(r@).push(s@));
        }
        r.push(s);
        i += 1;
        assert(str_views(r@) =~= views(v@).subrange(0, i as int));
    }
    assert(views(v@).subrange(0, v.len() as int) =~= views(v@));
    r
}

fn parent_dir_exec(p: &Vec<char>) -> (r: Vec<char>)
    ensures
        r@ == parent_dir(p@),
{
    let b = base_start_exec(p);
    if b == 0 {
        chars_of(".")
    } else {
        slice_chars(p, 0, b - 1)
    }
}

fn of_class_exec(ps: &Vec<Vec<char>>, c: FileClass) -> (r: Vec<Vec<char>>)
    ensures
        views(r@) == of_class(views(ps@), c),
{
    let mut r: Vec<Vec<char>> = Vec::new();
    let mut i: usize = 0;
    while i < ps.len()
        invariant
            i <= ps.len(),
            views(r@) == of_class(views(ps@).subrange(0, i as int), c),
        decreases ps.len() - i,
    {
        proof {
            let s = views(ps@).subrange(0, i + 1);
            assert(s.drop_last() =~= views(ps@).subrange(0, i as int));
            assert(s.last() == ps@[i as int]@);
        }
        if classify_chars(&ps[i]) == c {
            let x = ps[i].clone();
            proof {
                assert(views(r@.push(x)) =~= views(r@).push(x@));
            }
            r.push(x);
        }
        i += 1;
    }
    assert(views(ps@).subrange(0, ps.len() as int) =~= views(ps@));
    r
}

fn parents_exec(ps: &Vec<Vec<char>>) -> (r: Vec<Vec<char>>)
    ensures
        views(r@) == parents(views(ps@)),
{
    let mut r: Vec<Vec<char>> = Vec::new();
    let mut i: usize = 0;
    while i < ps.len()
        invariant
            i <= ps.len(),
            views(r@) == parents(views(ps@)).subrange(0, i as int),
        decreases ps.len() - i,
    {
        let d = parent_dir_exec(&ps[i]);
        proof {
            assert(views(r@.push(d)) =~= views(r@).push(d@));
        }
        r.push(d);
        i += 1;
        assert(views(r@) =~= parents(views(ps@)).subrange(0, i as int));
    }
    assert(parents(views(ps@)).subrange(0, ps.len() as int) =~= parents(views(ps@)));
    r
}

fn eq_chars(a: &Vec<char>, b: &Vec<char>) -> (r: bool)
    ensures
        r == (a@ == b@),
{
    if a.len() != b.len() {
        return false;
    }
    let mut k: usize = 0;
    while k < a.len()
        invariant
            k <= a.len() == b.len(),
            forall|m: int| 0 <= m < k ==> a@[m] == b@[m],
        decreases a.len() - k,
    {
        if a[k] != b[k] {
            return false;
        }
        k += 1;
    }
    assert(a@ =~= b@);
    true
}

fn dedup_exec(s: &Vec<Vec<char>>) -> (r: Vec<Vec<char>>)
    ensures
        views(r@) == dedup(views(s@)),
{
    let mut r: Vec<Vec<char>> = Vec::new();
    let mut i: usize = 0;
    while i < s.len()
        invariant
            i <= s.len(),
            views(r@) == dedup(views(s@).subrange(0, i as int)),
            i > 0 ==> r.len() > 0 && r@.last()@ == s@[i - 1]@,
        decreases s.len() - i,
    {
        proof {
            let t = views(s@).subrange(0, i + 1);
            assert(t.drop_last() =~= views(s@).subrange(0, i as int));
            if i > 0 {
                assert(t[t.len() - 2] == s@[i - 1]@);
            }
            lemma_dedup_last(views(s@).subrange(0, i as int));
        }
        if i == 0 || !eq_chars(&s[i], &s[i - 1]) {
            let x = s[i].clone();
            proof {
                assert(views(r@.push(x)) =~= views(r@).push(x@));
                if i == 0 {
                    assert(views(s@).subrange(0, 1) =~= seq![x@]);
                }
            }
            r.push(x);
        }
        i += 1;
    }
    assert(views(s@).subrange(0, s.len() as int) =~= views(s@));
    r
}

proof fn lemma_dedup_last(s: Seq<Seq<char>>)
    ensures
        s.len() > 0 ==> dedup(s).len() > 0 && dedup(s).last() == s.last(),
    decreases s.len(),
{
    if s.len() > 1 {
        lemma_dedup_last(s.drop_last());
    }
}

fn names_in_exec(ps: &Vec<Vec<char>>, d: &Vec<char>) -> (r: Vec<Vec<char>>)
    ensures
        views(r@) == names_in(views(ps@), d@),
{
    let mut r: Vec<Vec<char>> = Vec::new();
    let mut i: usize = 0;
    while i < ps.len()
        invariant
            i <= ps.len(),
            views(r@) == names_in(views(ps@).subrange(0, i as int), d@),
        decreases ps.len() - i,
    {
        proof {
            let s = views(ps@).subrange(0, i + 1);
            assert(s.drop_last() =~= views(ps@).subrange(0, i as int));
            assert(s.last() == ps@[i as int]@);
        }
        let pd = parent_dir_exec(&ps[i]);
        if eq_chars(&pd, d) {
            let x = base_name_exec(&ps[i]);
            proof {
                assert(views(r@.push(x)) =~= views(r@).push(x@));
            }
            r.push(x);
        }
        i += 1;
    }
    assert(views(ps@).subrange(0, ps.len() as int) =~= views(ps@));
    r
}

fn render_entries_exec(ns: &Vec<Vec<char>>, out: &mut Vec<char>)
    ensures
        final(out)@ == old(out)@ + render_entries(views(ns@)),
{
    let ghost start = out@;
    let mut i: usize = 0;
    assert(views(ns@).subrange(0, ns.len() as int) =~= views(ns@));
    while i < ns.len()
        invariant
            i <= ns.len(),
            out@ + render_entries(views(ns@).subrange(i as int, ns.len() as int)) == start
                + render_entries(views(ns@)),
        decreases ns.len() - i,
    {
        let ghost rest = views(ns@).subrange(i as int, ns.len() as int);
        proof {
            assert(rest.drop_first() =~= views(ns@).subrange(i + 1, ns.len() as int));
            assert(rest[0] == ns@[i as int]@);
        }
        if i + 1 == ns.len() {
            append_str(out, "  \u{2514}\u{2500}\u{2500} ");
        } else {
            append_str(out, "  \u{251c}\u{2500}\u{2500} ");
        }
        append_chars(out, &ns[i]);
        append_str(out, "\n");
        proof {
            let e = views(ns@).subrange(i + 1, ns.len() as int);
            if i + 1 == ns.len() {
                assert(e.len() == 0);
            }
            assert(out@ + render_entries(e) =~= start + render_entries(views(ns@)));
        }
        i += 1;
    }
    assert(views(ns@).subrange(ns.len() as int, ns.len() as int) =~= Seq::<Seq<char>>::empty());
}

/// The tree of the given paths: each directory once, in lexicographic order,
/// followed by its files in lexicographic order, the last with a closing
/// connector. Files at the root are listed under `.`.
pub fn generate_tree_view(files: &Vec<String>) -> (r: String)
    ensures
        r@ == tree_view(str_views(files@)),
{
    let ps = to_chars_all(files);
    let dirs = dedup_exec(&sort_exec(&parents_exec(&ps)));
    let ghost all = views(ps@);
    let mut out: Vec<char> = Vec::new();
    let mut i: usize = 0;
    assert(views(dirs@).subrange(0, dirs.len() as int) =~= views(dirs@));
    while i < dirs.len()
        invariant
            i <= dirs.len(),
            all == views(ps@),
            views(dirs@) == dedup(sort(parents(all))),
            out@ + render_dirs(views(dirs@).subrange(i as int, dirs.len() as int), all)
                == render_dirs(views(dirs@), all),
        decreases dirs.len() - i,
    {
        let ghost rest = views(dirs@).subrange(i as int, dirs.len() as int);
        proof {
            assert(rest.drop_first() =~= views(dirs@).subrange(i + 1, dirs.len() as int));
            assert(rest[0] == dirs@[i as int]@);
        }
        let ghost before = out@;
        append_chars(&mut out, &dirs[i]);
        append_str(&mut out, "\n");
        let names = sort_exec(&names_in_exec(&ps, &dirs[i]));
        render_entries_exec(&names, &mut out);
        proof {
            assert(out@ + render_dirs(views(dirs@).subrange(i + 1, dirs.len() as int), all)
                =~= before + render_dirs(rest, all));
        }
        i += 1;
    }
    assert(views(dirs@).subrange(dirs.len() as int, dirs.len() as int) =~= Seq::<
        Seq<char>,
    >::empty());
    string_of(&out)
}

/// The files worth showing: build manifests, and the other files of
/// interest.
#[derive(Debug)]
pub struct ReadmeFiles {
    pub priority: Vec<String>,
    pub interesting: Vec<String>,
}

impl ReadmeFiles {
    /// All selected files in the order their contents are shown: build
    /// manifests first, then the others.
    pub fn ordered(&self) -> (r: Vec<String>)
        ensures
            str_views(r@) == str_views(self.priority@) + str_views(self.interesting@),
    {
        let mut r: Vec<String> = Vec::new();
        let mut i: usize = 0;
        while i < self.priority.len()
            invariant
                i <= self.priority.len(),
                str_views(r@) == str_views(self.priority@).subrange(0, i as int),
            decreases self.priority.len() - i,
        {
            let f = self.priority[i].clone();
            proof {
                assert(str_views(r@.push(f)) =~= str_views(r@).push(f@));
            }
            r.push(f);
            i += 1;
            assert(str_views(r@) =~= str_views(self.priority@).subrange(0, i as int));
        }
        let mut j: usize = 0;
        while j < self.interesting.len()
            invariant
                j <= self.interesting.len(),
                str_views(r@) == str_views(self.priority@) + str_views(self.interesting@).subrange(
                    0,
                    j as int,
                ),
            decreases self.interesting.len() - j,
        {
            let f = self.interesting[j].clone();
            proof {
                assert(str_views(r@.push(f)) =~= str_views(r@).push(f@));
            }
            r.push(f);
            j += 1;
            assert(str_views(r@) =~= str_views(self.priority@) + str_views(
                self.interesting@,
            ).subrange(0, j as int));
        }
        assert(str_views(self.priority@).subrange(0, self.priority.len() as int) =~= str_views(
            self.priority@,
        ));
        assert(str_views(self.interesting@).subrange(0, self.interesting.len() as int)
            =~= str_views(self.interesting@));
        r
    }
}

/// Picks the files that describe the repository, each group sorted: build
/// manifests, then sources and configuration of interest. Tests, lockfiles
/// and everything else are left out.
pub fn select_readme_files(files: &Vec<String>) -> (r: ReadmeFiles)
    ensures
        str_views(r.priority@) == sort(of_class(str_views(files@), FileClass::PriorityConfig)),
        str_views(r.interesting@) == sort(
            of_class(str_views(files@), FileClass::SourceOfInteresting),
        ),
{
    let ps = to_chars_all(files);
    let prio = sort_exec(&of_class_exec(&ps, FileClass::PriorityConfig));
    let interesting = sort_exec(&of_class_exec(&ps, FileClass::SourceOfInteresting));
    ReadmeFiles { priority: to_strings(&prio), interesting: to_strings(&interesting) }
}

pub open spec fn bundle_header(tree: Seq<char>) -> Seq<char> {
    "Repository file structure:\n"@ + tree + "\n\n"@ + "Key file contents:\n"@
}

/// A file's content cut to `MAX_FILE_CONTENT_LENGTH` bytes at a character
/// boundary, with a notice, when longer.
pub open spec fn truncate_file(c: Seq<char>) -> Seq<char> {
    if byte_len(c) > MAX_FILE_CONTENT_LENGTH {
        c.subrange(0, fit(c, MAX_FILE_CONTENT_LENGTH as int)) + "\n... (file truncated)\n"@
    } else {
        c
    }
}

/// The header naming a file, its (possibly truncated) content, a blank line.
pub open spec fn file_block(path: Seq<char>, c: Seq<char>) -> Seq<char> {
    "--- File: "@ + path + " ---\n"@ + truncate_file(c) + "\n\n"@
}

/// The whole bundle cut to `MAX_TOTAL_CONTENT_LENGTH` bytes at a character
/// boundary, with a notice, when it is longer than that.
pub open spec fn finished(content: Seq<char>) -> Seq<char> {
    if byte_len(content) > MAX_TOTAL_CONTENT_LENGTH {
        content.subrange(0, fit(content, MAX_TOTAL_CONTENT_LENGTH as int))
            + "... (total content truncated)\n"@
    } else {
        content
    }
}

/// The blocks of the first `cs.len()` files, file `i` holding `cs[i]`.
pub open spec fn blocks(paths: Seq<Seq<char>>, cs: Seq<Seq<char>>) -> Seq<char>
    decreases cs.len(),
{
    if cs.len() == 0 {
        seq![]
    } else {
        blocks(paths, cs.drop_last()) + file_block(paths[cs.len() - 1], cs.last())
    }
}

/// Bytes of the (possibly truncated) contents.
pub open spec fn total_of(cs: Seq<Seq<char>>) -> nat
    decreases cs.len(),
{
    if cs.len() == 0 {
        0
    } else {
        total_of(cs.drop_last()) + byte_len(truncate_file(cs.last()))
    }
}

pub proof fn lemma_byte_len_concat(a: Seq<char>, b: Seq<char>)
    ensures
        byte_len(a + b) == byte_len(a) + byte_len(b),
    decreases b.len(),
{
    if b.len() > 0 {
        assert((a + b).drop_last() =~= a + b.drop_last());
        lemma_byte_len_concat(a, b.drop_last());
    } else {
        assert(a + b =~= a);
    }
}

fn short_byte_len(v: &Vec<char>) -> (r: usize)
    requires
        v.len() <= 64,
    ensures
        r == byte_len(v@),
        r <= 4 * v.len(),
{
    let mut i: usize = 0;
    let mut acc: usize = 0;
    assert(v@.subrange(0, 0) =~= Seq::<char>::empty());
    while i < v.len()
        invariant
            i <= v.len() <= 64,
            acc == byte_len(v@.subrange(0, i as int)),
            acc <= 4 * i,
        decreases v.len() - i,
    {
        assert(v@.subrange(0, i + 1).drop_last() =~= v@.subrange(0, i as int));
        acc = acc + crate::text::char_utf8_len(v[i]);
        i += 1;
    }
    assert(v@.subrange(0, v.len() as int) =~= v@);
    acc
}

/// Repository contents built one file at a time. The caller asks for the
/// next path, reads that file and hands its content back, until no path is
/// given: all files are in, or the contents added so far went over
/// `MAX_TOTAL_CONTENT_LENGTH` (checked before each file, never within one).
pub struct ContentAssembler {
    /// The files, in the order their contents are shown.
    pub paths: Vec<String>,
    /// How many of them were added.
    pub added: usize,
    pub content: Vec<char>,
    /// Bytes of (possibly truncated) file contents added so far.
    pub total_len: usize,
    pub tree: Ghost<Seq<char>>,
    /// The contents handed in, one per added file.
    pub read: Ghost<Seq<Seq<char>>>,
}

impl ContentAssembler {
    pub open spec fn wf(&self) -> bool {
        &&& self.added <= self.paths.len()
        &&& self.read@.len() == self.added
        &&& self.content@ == bundle_header(self.tree@) + blocks(
            str_views(self.paths@),
            self.read@,
        )
        &&& self.total_len == total_of(self.read@)
        &&& forall|j: int|
            0 <= j < self.added ==> #[trigger] total_of(self.read@.subrange(0, j))
                <= MAX_TOTAL_CONTENT_LENGTH
    }

    /// Starts the bundle with the tree view, for the files in `paths`.
    pub fn new(tree_view: &str, paths: Vec<String>) -> (r: Self)
        ensures
            r.wf(),
            r.tree@ == tree_view@,
            r.paths@ == paths@,
            r.added == 0,
            r.total_len == 0,
    {
        let mut content = chars_of("Repository file structure:\n");
        append_chars(&mut content, &chars_of(tree_view));
        append_str(&mut content, "\n\n");
        append_str(&mut content, "Key file contents:\n");
        proof {
            assert(blocks(str_views(paths@), Seq::<Seq<char>>::empty()) =~= Seq::<char>::empty());
            assert(content@ =~= bundle_header(tree_view@) + Seq::<char>::empty());
        }
        ContentAssembler {
            paths,
            added: 0,
            content,
            total_len: 0,
            tree: Ghost(tree_view@),
            read: Ghost(Seq::empty()),
        }
    }

    /// Whether another file may be added: the total is not over the cap.
    pub fn wants_more(&self) -> (r: bool)
        ensures
            r == (self.total_len <= MAX_TOTAL_CONTENT_LENGTH),
    {
        self.total_len <= MAX_TOTAL_CONTENT_LENGTH
    }

    /// The file to read next, if any.
    pub fn next_path(&self) -> (r: Option<String>)
        requires
            self.wf(),
        ensures
            r is Some <==> (self.added < self.paths.len() && self.total_len
                <= MAX_TOTAL_CONTENT_LENGTH),
            r is Some ==> r->Some_0@ == self.paths@[self.added as int]@,
    {
        if self.added < self.paths.len() && self.total_len <= MAX_TOTAL_CONTENT_LENGTH {
            Some(self.paths[self.added].clone())
        } else {
            None
        }
    }

    /// Adds the next file: its header and its content, cut to the per-file
    /// cap.
    pub fn add_file(&mut self, file_content: &str)
        requires
            old(self).wf(),
            old(self).added < old(self).paths.len(),
            old(self).total_len <= MAX_TOTAL_CONTENT_LENGTH,
        ensures
            final(self).wf(),
            final(self).paths == old(self).paths,
            final(self).tree == old(self).tree,
            final(self).added == old(self).added + 1,
            final(self).read@ == old(self).read@.push(file_content@),
            final(self).content@ == old(self).content@ + file_block(
                old(self).paths@[old(self).added as int]@,
                file_content@,
            ),
            final(self).total_len == old(self).total_len + byte_len(
                truncate_file(file_content@),
            ),
    {
        let c = chars_of(file_content);
        let (k, acc) = fit_exec(&c, MAX_FILE_CONTENT_LENGTH);
        let mut body: Vec<char>;
        let added: usize;
        assert(acc <= MAX_FILE_CONTENT_LENGTH);
        if k < c.len() {
            proof {
                crate::diff_filter::lemma_byte_len_prefix(c@, k + 1);
            }
            body = slice_chars(&c, 0, k);
            let notice = chars_of("\n... (file truncated)\n");
            proof {
                reveal_strlit("\n... (file truncated)\n");
                lemma_byte_len_concat(body@, notice@);
            }
            let n = short_byte_len(&notice);
            append_chars(&mut body, &notice);
            added = acc + n;
        } else {
            proof {
                assert(c@.subrange(0, k as int) =~= c@);
            }
            body = c;
            added = acc;
        }
        let ghost old_read = self.read@;
        let ghost paths = str_views(self.paths@);
        let ghost i = self.added as int;
        append_str(&mut self.content, "--- File: ");
        append_chars(&mut self.content, &chars_of(self.paths[self.added].as_str()));
        append_str(&mut self.content, " ---\n");
        append_chars(&mut self.content, &body);
        append_str(&mut self.content, "\n\n");
        self.total_len = self.total_len + added;
        self.added = self.added + 1;
        self.read = Ghost(old_read.push(file_content@));
        proof {
            let nr = old_read.push(file_content@);
            assert(nr.drop_last() =~= old_read);
            assert(paths[i] == self.paths@[i]@);
            assert(nr.len() == i + 1);
            assert(nr.last() == file_content@);
            assert(blocks(paths, nr) == blocks(paths, old_read) + file_block(
                paths[i],
                file_content@,
            ));
            assert(total_of(nr) == total_of(old_read) + byte_len(truncate_file(file_content@)));
            assert(self.content@ =~= bundle_header(self.tree@) + blocks(paths, nr));
            assert forall|j: int| 0 <= j < self.added implies #[trigger] total_of(
                nr.subrange(0, j),
            ) <= MAX_TOTAL_CONTENT_LENGTH by {
                assert(nr.subrange(0, j) =~= old_read.subrange(0, j));
                if j == i {
                    assert(old_read.subrange(0, j) =~= old_read);
                }
            }
        }
    }

    /// The bundle, cut to the total cap if it is longer.
    pub fn finish(&self) -> (r: String)
        ensures
            r@ == finished(self.content@),
    {
        let (k, _) = fit_exec(&self.content, MAX_TOTAL_CONTENT_LENGTH);
        if k < self.content.len() {
            proof {
                crate::diff_filter::lemma_byte_len_prefix(self.content@, k + 1);
            }
            let mut out = slice_chars(&self.content, 0, k);
            append_str(&mut out, "... (total content truncated)\n");
            string_of(&out)
        } else {
            proof {
                assert(self.content@.subrange(0, k as int) =~= self.content@);
            }
            string_of(&self.content)
        }
    }
}

/// When the assembler stops before the end of its list, the files added are
/// exactly those up to the first one whose content took the total over the
/// cap: the total before that file was within the cap, the total after it is
/// not, and the bundle holds the blocks of those files in order.
pub proof fn lemma_stops_after_first_file_over_cap(a: ContentAssembler)
    requires
        a.wf(),
        a.total_len > MAX_TOTAL_CONTENT_LENGTH,
    ensures
        a.added >= 1,
        total_of(a.read@.subrange(0, a.added - 1)) <= MAX_TOTAL_CONTENT_LENGTH,
        total_of(a.read@) > MAX_TOTAL_CONTENT_LENGTH,
        a.content@ == bundle_header(a.tree@) + blocks(str_views(a.paths@), a.read@),
{
    if a.added == 0 {
        assert(a.read@ =~= Seq::<Seq<char>>::empty());
    }
    assert(total_of(a.read@.subrange(0, a.added - 1)) <= MAX_TOTAL_CONTENT_LENGTH);
}

} // verus!
