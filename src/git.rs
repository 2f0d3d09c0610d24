//! What the tool asks the version-control tool, and what it makes of the
//! answers. Running the commands is up to the caller.
use vstd::prelude::*;
use crate::assemble::str_views;
use crate::classify::{base_name, base_name_exec};
use crate::cli::{scope_name, CommitVarient};
use crate::error::APIError;
use crate::lines::{split, split_exec, views};
use crate::text::{append_chars, append_str, chars_of, slice_chars, string_of, trim, trim_chars};

verus! {

/// A command line for `git` and the step name its failure is reported under.
#[derive(Debug)]
pub struct GitCommand {
    pub args: Vec<String>,
    pub context: String,
}

pub open spec fn diff_args(scope: CommitVarient) -> Seq<Seq<char>> {
    seq![
        "diff"@,
        "--no-color"@,
        "--no-ext-diff"@,
        "--minimal"@,
        "--unified=3"@,
        match scope {
            CommitVarient::Staged => "--staged"@,
            CommitVarient::Any => "HEAD"@,
        },
    ]
}

pub open spec fn scope_or_any(scope: Option<CommitVarient>) -> CommitVarient {
    match scope {
        Some(s) => s,
        None => CommitVarient::Any,
    }
}

/// The diff command for a scope (all changes since the last commit when
/// none is given), without colour or external drivers, with minimal hunks
/// and three lines of context.
pub fn git_diff_command(commit_scope: Option<CommitVarient>) -> (r: GitCommand)
    ensures
        str_views(r.args@) == diff_args(scope_or_any(commit_scope)),
        r.context@ == "Git diff extraction"@,
{
    let mut args: Vec<String> = Vec::new();
    args.push("diff".to_string());
    args.push("--no-color".to_string());
    args.push("--no-ext-diff".to_string());
    args.push("--minimal".to_string());
    args.push("--unified=3".to_string());
    match commit_scope {
        Some(CommitVarient::Staged) => args.push("--staged".to_string()),
        _ => args.push("HEAD".to_string()),
    }
    assert(str_views(args@) =~= diff_args(scope_or_any(commit_scope)));
    GitCommand { args, context: "Git diff extraction".to_string() }
}

pub open spec fn diff_failed_message(scope: Option<CommitVarient>) -> Seq<char> {
    "Failed to extract "@ + scope_name(scope_or_any(scope))
        + " diff. Check if there are any differences."@
}

pub open spec fn diff_empty_message(scope: Option<CommitVarient>) -> Seq<char> {
    "Failed to extract "@ + scope_name(scope_or_any(scope)) + " diff. The diff was empty."@
}

/// Judges the output of the diff command: a failed command and an empty diff
/// are errors with distinct messages; any other output is the diff.
pub fn get_git_diff(commit_scope: Option<CommitVarient>, output: Result<String, APIError>) -> (r:
    Result<String, APIError>)
    ensures
        match output {
            Err(_) => r is Err && r->Err_0.name@ == "Git diff extraction"@ && r->Err_0.message@
                == diff_failed_message(commit_scope),
            Ok(d) => if trim(d@).len() == 0 {
                r is Err && r->Err_0.name@ == "Git diff extraction"@ && r->Err_0.message@
                    == diff_empty_message(commit_scope)
            } else {
                r == Ok::<String, APIError>(d)
            },
        },
{
    let scope = match commit_scope {
        Some(s) => s,
        None => CommitVarient::Any,
    };
    match output {
        Err(_) => {
            let mut m = chars_of("Failed to extract ");
            append_chars(&mut m, &chars_of(scope.to_string().as_str()));
            append_str(&mut m, " diff. Check if there are any differences.");
            Err(APIError::new_msg("Git diff extraction", string_of(&m).as_str()))
        },
        Ok(d) => {
            if trim_chars(&chars_of(d.as_str())).len() == 0 {
                let mut m = chars_of("Failed to extract ");
                append_chars(&mut m, &chars_of(scope.to_string().as_str()));
                append_str(&mut m, " diff. The diff was empty.");
                Err(APIError::new_msg("Git diff extraction", string_of(&m).as_str()))
            } else {
                Ok(d)
            }
        },
    }
}

/// The command that checks that the working directory is in a repository.
pub fn git_repo_check_command() -> (r: GitCommand)
    ensures
        str_views(r.args@) == seq!["rev-parse"@, "--is-inside-work-tree"@],
        r.context@ == "Git repository check"@,
{
    let mut args: Vec<String> = Vec::new();
    args.push("rev-parse".to_string());
    args.push("--is-inside-work-tree".to_string());
    assert(str_views(args@) =~= seq!["rev-parse"@, "--is-inside-work-tree"@]);
    GitCommand { args, context: "Git repository check".to_string() }
}

/// Succeeds exactly when the repository check did.
pub fn ensure_git_repo(check: Result<String, APIError>) -> (r: Result<(), APIError>)
    ensures
        r is Ok <==> check is Ok,
        check is Err ==> r == Err::<(), APIError>(check->Err_0),
{
    match check {
        Ok(_) => Ok(()),
        Err(e) => Err(e),
    }
}

/// The command that reads configuration value `key`.
pub fn git_config(key: &str) -> (r: GitCommand)
    ensures
        str_views(r.args@) == seq!["config"@, "--get"@, key@],
        r.context@ == "git config "@ + key@,
{
    let mut args: Vec<String> = Vec::new();
    args.push("config".to_string());
    args.push("--get".to_string());
    args.push(key.to_string());
    assert(str_views(args@) =~= seq!["config"@, "--get"@, key@]);
    let mut c = chars_of("git config ");
    append_chars(&mut c, &chars_of(key));
    GitCommand { args, context: string_of(&c) }
}

/// The lines of `s` as `str::lines` yields them: split at `\n`, the `\r` of
/// a `\r\n` ending removed, no line after a final `\n`. A last line without
/// `\n` keeps a trailing `\r`.
pub open spec fn text_lines(s: Seq<char>) -> Seq<Seq<char>> {
    let pieces = split(s, "\n"@);
    let n = pieces.len() as int;
    if n == 0 {
        seq![]
    } else {
        let ended = pieces.subrange(0, n - 1).map_values(|l: Seq<char>| strip_cr(l));
        if pieces.last().len() == 0 {
            ended
        } else {
            ended.push(pieces.last())
        }
    }
}

pub open spec fn strip_cr(l: Seq<char>) -> Seq<char> {
    if l.len() > 0 && l.last() == '\r' {
        l.drop_last()
    } else {
        l
    }
}

/// The tracked files, one per line of the listing; an empty listing is an
/// error, distinct from a failure of the command.
pub fn get_git_files(output: &str) -> (r: Result<Vec<String>, APIError>)
    ensures
        match r {
            Ok(v) => text_lines(output@).len() > 0 && str_views(v@) == text_lines(output@),
            Err(e) => text_lines(output@).len() == 0 && e.name@ == "Git file list"@
                && e.message@ == "No files found in git repository."@,
        },
{
    let s = chars_of(output);
    let nl = chars_of("\n");
    proof {
        reveal_strlit("\n");
    }
    let pieces = split_exec(&s, &nl);
    let mut files: Vec<String> = Vec::new();
    if pieces.len() == 0 {
        assert(text_lines(output@) =~= Seq::<Seq<char>>::empty());
        return Err(APIError::new_msg("Git file list", "No files found in git repository."));
    }
    let last = pieces.len() - 1;
    let mut i: usize = 0;
    while i < last
        invariant
            i <= last,
            last == pieces.len() - 1,
            views(pieces@) == split(output@, "\n"@),
            str_views(files@) == views(pieces@).subrange(0, i as int).map_values(
                |l: Seq<char>| strip_cr(l),
            ),
        decreases last - i,
    {
        let l = &pieces[i];
        let line = if l.len() > 0 && l[l.len() - 1] == '\r' {
            slice_chars(l, 0, l.len() - 1)
        } else {
            slice_chars(l, 0, l.len())
        };
        proof {
            assert(l@.drop_last() =~= l@.subrange(0, l.len() - 1));
            assert(l@.subrange(0, l.len() as int) =~= l@);
        }
        let f = string_of(&line);
        proof {
            assert(str_views(files@.push(f)) =~= str_views(files@).push(f@));
        }
        files.push(f);
        i += 1;
        assert(str_views(files@) =~= views(pieces@).subrange(0, i as int).map_values(
            |l: Seq<char>| strip_cr(l),
        ));
    }
    if pieces[last].len() > 0 {
        let f = string_of(&pieces[last]);
        proof {
            assert(str_views(files@.push(f)) =~= str_views(files@).push(f@));
        }
        files.push(f);
    }
    assert(str_views(files@) =~= text_lines(output@));
    let n = files.len();
    if n == 0 {
        return Err(APIError::new_msg("Git file list", "No files found in git repository."));
    }
    Ok(files)
}

/// Answers of the metadata queries; `None` where a query failed or printed
/// nothing.
#[derive(Debug)]
pub struct GitMetadataAnswers {
    pub user_name: Option<String>,
    pub user_email: Option<String>,
    pub repo_root: Option<String>,
    pub branch: Option<String>,
    pub status: Option<String>,
    pub last_commit: Option<String>,
    pub origin: Option<String>,
}

pub open spec fn or_else(o: Option<String>, d: Seq<char>) -> Seq<char> {
    match o {
        Some(s) => s@,
        None => d,
    }
}

pub open spec fn dirty_text(status: Option<String>) -> Seq<char> {
    match status {
        Some(s) => if s@.len() > 0 {
            "true"@
        } else {
            "false"@
        },
        None => "false"@,
    }
}

/// The metadata block: one line per field, each with its placeholder.
pub open spec fn metadata_text(a: GitMetadataAnswers) -> Seq<char> {
    "Git metadata:\n- Repository: "@ + base_name(or_else(a.repo_root, "Unknown"@))
        + "\n- Branch: "@ + or_else(a.branch, "Unknown"@) + "\n- Dirty: "@ + dirty_text(a.status)
        + "\n- Author: "@ + or_else(a.user_name, "Unknown"@) + "\n- Email: "@ + or_else(
        a.user_email,
        "Unknown"@,
    ) + "\n- Last commit: "@ + or_else(a.last_commit, "None"@) + "\n- Origin: "@ + or_else(
        a.origin,
        "None"@,
    ) + "\n"@
}

fn or_else_exec(o: &Option<String>, d: &str) -> (r: Vec<char>)
    ensures
        r@ == or_else(*o, d@),
{
    match o {
        Some(s) => chars_of(s.as_str()),
        None => chars_of(d),
    }
}

/// The metadata block of the README prompt. Each field falls back on its own
/// to a placeholder when its query gave nothing; the repository is named by
/// the last component of its root directory.
pub fn collect_git_metadata(answers: &GitMetadataAnswers) -> (r: String)
    ensures
        r@ == metadata_text(*answers),
{
    let mut out = chars_of("Git metadata:\n- Repository: ");
    let root = or_else_exec(&answers.repo_root, "Unknown");
    append_chars(&mut out, &base_name_exec(&root));
    append_str(&mut out, "\n- Branch: ");
    append_chars(&mut out, &or_else_exec(&answers.branch, "Unknown"));
    append_str(&mut out, "\n- Dirty: ");
    let dirty = match &answers.status {
        Some(s) => !s.as_str().is_empty(),
        None => false,
    };
    append_str(&mut out, if dirty { "true" } else { "false" });
    append_str(&mut out, "\n- Author: ");
    append_chars(&mut out, &or_else_exec(&answers.user_name, "Unknown"));
    append_str(&mut out, "\n- Email: ");
    append_chars(&mut out, &or_else_exec(&answers.user_email, "Unknown"));
    append_str(&mut out, "\n- Last commit: ");
    append_chars(&mut out, &or_else_exec(&answers.last_commit, "None"));
    append_str(&mut out, "\n- Origin: ");
    append_chars(&mut out, &or_else_exec(&answers.origin, "None"));
    append_str(&mut out, "\n");
    string_of(&out)
}

} // verus!
