//! Classification of repository paths. Paths are `/`-separated, relative to
//! the repository root, as the version-control tool lists them.
use vstd::prelude::*;
use crate::text::{
    chars_of, ci_contains, ci_eq, ci_matches_at, ci_matches_at_exec, ends_with, eq_lit, matches_at,
    matches_at_exec, slice_chars, ends_with_lit, ci_eq_lit, ci_contains_exec,
};

verus! {

/// The tag of a path, by precedence: ignorable, test, priority
/// configuration, source of interest, other.
#[derive(Clone, Copy, Debug, PartialEq, Eq, Structural)]
pub enum FileClass {
    Ignorable,
    Test,
    PriorityConfig,
    SourceOfInteresting,
    Other,
}

/// Index where the last component of `p` starts (just after the last `/`).
pub open spec fn base_start(p: Seq<char>) -> int
    decreases p.len(),
{
    if p.len() == 0 {
        0
    } else if p.last() == '/' {
        p.len() as int
    } else {
        base_start(p.drop_last())
    }
}

/// The file name: what follows the last `/`.
pub open spec fn base_name(p: Seq<char>) -> Seq<char> {
    p.subrange(base_start(p), p.len() as int)
}

/// The path has no directory part, or only `./`.
pub open spec fn at_root(p: Seq<char>) -> bool {
    base_start(p) == 0 || (base_start(p) == 2 && p[0] == '.')
}

/// Index of the last `.` in `s`, or -1.
pub open spec fn last_dot(s: Seq<char>) -> int
    decreases s.len(),
{
    if s.len() == 0 {
        -1
    } else if s.last() == '.' {
        s.len() - 1
    } else {
        last_dot(s.drop_last())
    }
}

/// The file name has the extension `e`: the text after its last `.`, where
/// that `.` is not the name's first character.
pub open spec fn has_extension(p: Seq<char>, e: Seq<char>) -> bool {
    let b = base_name(p);
    last_dot(b) > 0 && b.subrange(last_dot(b) + 1, b.len() as int) == e
}

/// `w` is one of the `/`-separated components of `p`.
pub open spec fn has_component(p: Seq<char>, w: Seq<char>) -> bool {
    exists|i: int|
        #![trigger matches_at(p, i, w)]
        matches_at(p, i, w) && (i == 0 || p[i - 1] == '/') && (i + w.len() == p.len() || p[i
            + w.len()] == '/')
}

/// `w` (lower case) is one of the components of `p`, ignoring ASCII case.
pub open spec fn has_component_ci(p: Seq<char>, w: Seq<char>) -> bool {
    exists|i: int|
        #![trigger ci_matches_at(p, i, w)]
        ci_matches_at(p, i, w) && (i == 0 || p[i - 1] == '/') && (i + w.len() == p.len()
            || p[i + w.len()] == '/')
}

pub open spec fn ignorable(p: Seq<char>) -> bool {
    ends_with(p, ".lock"@) || ends_with(p, ".sum"@)
}

/// Build manifests of Rust, Node, Python, Go, Maven and Gradle projects.
pub open spec fn priority_config(p: Seq<char>) -> bool {
    let b = base_name(p);
    b == "Cargo.toml"@ || b == "package.json"@ || b == "pyproject.toml"@ || b == "go.mod"@ || b
        == "pom.xml"@ || b == "build.gradle"@
}

pub open spec fn test_dir(p: Seq<char>) -> bool {
    has_component_ci(p, "tests"@) || has_component_ci(p, "test"@) || has_component_ci(
        p,
        "spec"@,
    ) || has_component_ci(p, "specs"@) || has_component_ci(p, "__tests__"@)
}

pub open spec fn test_name(p: Seq<char>) -> bool {
    let b = base_name(p);
    ci_matches_at(b, 0, "test_"@) || ci_matches_at(b, b.len() - 8, "_test.go"@)
        || ci_matches_at(b, b.len() - 8, "_test.py"@) || ci_contains(b, ".test."@)
        || ci_contains(b, ".spec."@)
}

pub open spec fn test_file(p: Seq<char>) -> bool {
    test_dir(p) || test_name(p)
}

pub open spec fn root_infra(p: Seq<char>) -> bool {
    let b = base_name(p);
    at_root(p) && (ci_eq(b, "dockerfile"@) || ci_eq(b, "docker-compose.yml"@) || ci_eq(
        b,
        "docker-compose.yaml"@,
    ) || ci_eq(b, "makefile"@) || ci_eq(b, "build.gradle"@) || ci_eq(b, "pom.xml"@))
}

pub open spec fn in_source_root(p: Seq<char>) -> bool {
    has_component(p, "src"@) || has_component(p, "source"@) || has_component(p, "app"@)
        || has_component(p, "lib"@) || has_component(p, "include"@) || has_component(p, "cmd"@)
        || has_component(p, "server"@) || has_component(p, "core"@)
}

pub open spec fn source_extension(p: Seq<char>) -> bool {
    has_extension(p, "rs"@) || has_extension(p, "go"@) || has_extension(p, "py"@)
        || has_extension(p, "js"@) || has_extension(p, "ts"@) || has_extension(p, "jsx"@)
        || has_extension(p, "tsx"@) || has_extension(p, "java"@) || has_extension(p, "kt"@)
        || has_extension(p, "kts"@) || has_extension(p, "m"@) || has_extension(p, "swift"@)
        || has_extension(p, "cpp"@) || has_extension(p, "c"@) || has_extension(p, "h"@)
        || has_extension(p, "hpp"@) || has_extension(p, "cs"@) || has_extension(p, "html"@)
        || has_extension(p, "css"@) || has_extension(p, "scss"@) || has_extension(p, "sh"@)
        || has_extension(p, "bash"@) || has_extension(p, "sql"@) || has_extension(p, "rb"@)
        || has_extension(p, "php"@)
}

pub open spec fn config_extension(p: Seq<char>) -> bool {
    has_extension(p, "json"@) || has_extension(p, "xml"@) || has_extension(p, "yaml"@)
        || has_extension(p, "yml"@) || has_extension(p, "toml"@) || has_extension(p, "ini"@)
        || has_extension(p, "cfg"@)
}

pub open spec fn interesting(p: Seq<char>) -> bool {
    root_infra(p) || (in_source_root(p) && source_extension(p)) || config_extension(p)
}

/// Test files win over build manifests: a manifest inside a test
/// directory describes a fixture, not the project.
pub open spec fn classify(p: Seq<char>) -> FileClass {
    if ignorable(p) {
        FileClass::Ignorable
    } else if test_file(p) {
        FileClass::Test
    } else if priority_config(p) {
        FileClass::PriorityConfig
    } else if interesting(p) {
        FileClass::SourceOfInteresting
    } else {
        FileClass::Other
    }
}

pub fn base_start_exec(p: &Vec<char>) -> (r: usize)
    ensures
        r == base_start(p@),
        r <= p.len(),
{
    let mut j: usize = p.len();
    assert(p@.subrange(0, p.len() as int) =~= p@);
    while j > 0 && p[j - 1] != '/'
        invariant
            j <= p.len(),
            base_start(p@) == base_start(p@.subrange(0, j as int)),
        decreases j,
    {
        assert(p@.subrange(0, j as int).drop_last() =~= p@.subrange(0, j - 1));
        j -= 1;
    }
    proof {
        assert(p@.subrange(0, p.len() as int) =~= p@);
    }
    j
}

pub fn base_name_exec(p: &Vec<char>) -> (r: Vec<char>)
    ensures
        r@ == base_name(p@),
{
    let b = base_start_exec(p);
    slice_chars(p, b, p.len())
}

pub fn last_dot_exec(s: &Vec<char>) -> (r: Option<usize>)
    ensures
        match r {
            Some(i) => last_dot(s@) == i && i < s.len(),
            None => last_dot(s@) == -1,
        },
{
    let mut j: usize = s.len();
    assert(s@.subrange(0, s.len() as int) =~= s@);
    while j > 0 && s[j - 1] != '.'
        invariant
            j <= s.len(),
            last_dot(s@) == last_dot(s@.subrange(0, j as int)),
        decreases j,
    {
        assert(s@.subrange(0, j as int).drop_last() =~= s@.subrange(0, j - 1));
        j -= 1;
    }
    proof {
        assert(s@.subrange(0, s.len() as int) =~= s@);
    }
    if j == 0 {
        None
    } else {
        Some(j - 1)
    }
}

/// The text after the last `.` of the file name, where there is one that
/// does not start the name.
pub fn extension_of(p: &Vec<char>) -> (r: Option<Vec<char>>)
    ensures
        forall|e: Seq<char>|
            has_extension(p@, e) <==> (r.is_some() && r.unwrap()@ == e),
{
    let b = base_name_exec(p);
    match last_dot_exec(&b) {
        Some(i) => {
            if i > 0 {
                Some(slice_chars(&b, i + 1, b.len()))
            } else {
                None
            }
        },
        None => None,
    }
}

fn ext_is(e: &Option<Vec<char>>, w: &str) -> (r: bool)
    ensures
        r == (e.is_some() && e.unwrap()@ == w@),
{
    match e {
        Some(v) => eq_lit(v, w),
        None => false,
    }
}

fn component_bounded(p: &Vec<char>, i: usize, n: usize) -> (r: bool)
    requires
        i + n <= p.len(),
    ensures
        r == ((i == 0 || p@[i - 1] == '/') && (i + n == p.len() || p@[i + n as int] == '/')),
{
    (i == 0 || p[i - 1] == '/') && (i + n == p.len() || p[i + n] == '/')
}

pub fn has_component_exec(p: &Vec<char>, w: &str) -> (r: bool)
    ensures
        r == has_component(p@, w@),
{
    let v = chars_of(w);
    let mut i: usize = 0;
    loop
        invariant
            i <= p.len(),
            v@ == w@,
            forall|j: int|
                #![trigger matches_at(p@, j, w@)]
                0 <= j < i ==> !(matches_at(p@, j, w@) && (j == 0 || p@[j - 1] == '/') && (j
                    + w@.len() == p.len() || p@[j + w@.len()] == '/')),
        decreases p.len() - i,
    {
        if matches_at_exec(p, i, &v) && component_bounded(p, i, v.len()) {
            return true;
        }
        if i == p.len() {
            assert forall|j: int|
                !(#[trigger] matches_at(p@, j, w@) && (j == 0 || p@[j - 1] == '/') && (j
                    + w@.len() == p.len() || p@[j + w@.len()] == '/')) by {
                if 0 <= j <= i {
                }
            }
            return false;
        }
        i += 1;
    }
}

pub fn has_component_ci_exec(p: &Vec<char>, w: &str) -> (r: bool)
    ensures
        r == has_component_ci(p@, w@),
{
    let v = chars_of(w);
    let mut i: usize = 0;
    loop
        invariant
            i <= p.len(),
            v@ == w@,
            forall|j: int|
                #![trigger ci_matches_at(p@, j, w@)]
                0 <= j < i ==> !(ci_matches_at(p@, j, w@) && (j == 0 || p@[j - 1] == '/') && (j
                    + w@.len() == p.len() || p@[j + w@.len()] == '/')),
        decreases p.len() - i,
    {
        if ci_matches_at_exec(p, i, &v) && component_bounded(p, i, v.len()) {
            return true;
        }
        if i == p.len() {
            assert forall|j: int|
                !(#[trigger] ci_matches_at(p@, j, w@) && (j == 0 || p@[j - 1] == '/') && (j
                    + w@.len() == p.len() || p@[j + w@.len()] == '/')) by {
                if 0 <= j <= i {
                }
            }
            return false;
        }
        i += 1;
    }
}

pub fn ignorable_chars(p: &Vec<char>) -> (r: bool)
    ensures
        r == ignorable(p@),
{
    ends_with_lit(p, ".lock") || ends_with_lit(p, ".sum")
}

pub fn priority_config_chars(p: &Vec<char>) -> (r: bool)
    ensures
        r == priority_config(p@),
{
    let b = base_name_exec(p);
    eq_lit(&b, "Cargo.toml") || eq_lit(&b, "package.json") || eq_lit(&b, "pyproject.toml")
        || eq_lit(&b, "go.mod") || eq_lit(&b, "pom.xml") || eq_lit(&b, "build.gradle")
}

fn ci_suffix(b: &Vec<char>, w: &str) -> (r: bool)
    ensures
        r == ci_matches_at(b@, b@.len() - w@.len(), w@),
{
    let v = chars_of(w);
    if v.len() > b.len() {
        return false;
    }
    ci_matches_at_exec(b, b.len() - v.len(), &v)
}

pub fn test_file_chars(p: &Vec<char>) -> (r: bool)
    ensures
        r == test_file(p@),
{
    if has_component_ci_exec(p, "tests") || has_component_ci_exec(p, "test")
        || has_component_ci_exec(p, "spec") || has_component_ci_exec(p, "specs")
        || has_component_ci_exec(p, "__tests__") {
        return true;
    }
    let b = base_name_exec(p);
    let prefix = chars_of("test_");
    let r = ci_matches_at_exec(&b, 0, &prefix) || ci_suffix(&b, "_test.go") || ci_suffix(
        &b,
        "_test.py",
    ) || ci_contains_exec(&b, &chars_of(".test.")) || ci_contains_exec(&b, &chars_of(".spec."));
    proof {
        reveal_strlit("_test.go");
        reveal_strlit("_test.py");
    }
    r
}

pub fn interesting_chars(p: &Vec<char>) -> (r: bool)
    ensures
        r == interesting(p@),
{
    let b = base_name_exec(p);
    let bs = base_start_exec(p);
    let root = bs == 0 || (bs == 2 && p[0] == '.');
    if root && (ci_eq_lit(&b, "dockerfile") || ci_eq_lit(
        &b,
        "docker-compose.yml",
    ) || ci_eq_lit(&b, "docker-compose.yaml") || ci_eq_lit(&b, "makefile") || ci_eq_lit(
        &b,
        "build.gradle",
    ) || ci_eq_lit(&b, "pom.xml")) {
        return true;
    }
    let e = extension_of(p);
    let in_root = has_component_exec(p, "src") || has_component_exec(p, "source")
        || has_component_exec(p, "app") || has_component_exec(p, "lib") || has_component_exec(
        p,
        "include",
    ) || has_component_exec(p, "cmd") || has_component_exec(p, "server") || has_component_exec(
        p,
        "core",
    );
    let source = ext_is(&e, "rs") || ext_is(&e, "go") || ext_is(&e, "py") || ext_is(&e, "js")
        || ext_is(&e, "ts") || ext_is(&e, "jsx") || ext_is(&e, "tsx") || ext_is(&e, "java")
        || ext_is(&e, "kt") || ext_is(&e, "kts") || ext_is(&e, "m") || ext_is(&e, "swift")
        || ext_is(&e, "cpp") || ext_is(&e, "c") || ext_is(&e, "h") || ext_is(&e, "hpp")
        || ext_is(&e, "cs") || ext_is(&e, "html") || ext_is(&e, "css") || ext_is(&e, "scss")
        || ext_is(&e, "sh") || ext_is(&e, "bash") || ext_is(&e, "sql") || ext_is(&e, "rb")
        || ext_is(&e, "php");
    let config = ext_is(&e, "json") || ext_is(&e, "xml") || ext_is(&e, "yaml") || ext_is(
        &e,
        "yml",
    ) || ext_is(&e, "toml") || ext_is(&e, "ini") || ext_is(&e, "cfg");
    (in_root && source) || config
}

pub fn classify_chars(p: &Vec<char>) -> (r: FileClass)
    ensures
        r == classify(p@),
{
    if ignorable_chars(p) {
        FileClass::Ignorable
    } else if test_file_chars(p) {
        FileClass::Test
    } else if priority_config_chars(p) {
        FileClass::PriorityConfig
    } else if interesting_chars(p) {
        FileClass::SourceOfInteresting
    } else {
        FileClass::Other
    }
}

/// Lockfiles and checksum files (`.lock`, `.sum`).
pub fn is_ignorable_file(file_path: &str) -> (r: bool)
    ensures
        r == ignorable(file_path@),
{
    ignorable_chars(&chars_of(file_path))
}

/// Build manifests, recognised by file name.
pub fn is_config_file(file_path: &str) -> (r: bool)
    ensures
        r == priority_config(file_path@),
{
    priority_config_chars(&chars_of(file_path))
}

/// Same as `is_config_file`: build manifests come first in every output.
pub fn is_priority_file(file_path: &str) -> (r: bool)
    ensures
        r == priority_config(file_path@),
{
    is_config_file(file_path)
}

/// Paths under a test directory, or named as tests.
pub fn is_test_file(file_path: &str) -> (r: bool)
    ensures
        r == test_file(file_path@),
{
    test_file_chars(&chars_of(file_path))
}

/// Root-level infrastructure files, sources under a source root, and
/// configuration files anywhere.
pub fn is_interesting_file(file_path: &str) -> (r: bool)
    ensures
        r == interesting(file_path@),
{
    interesting_chars(&chars_of(file_path))
}

/// The class of a path, by the precedence of `FileClass`.
pub fn classify_file(file_path: &str) -> (r: FileClass)
    ensures
        r == classify(file_path@),
{
    classify_chars(&chars_of(file_path))
}

} // verus!
