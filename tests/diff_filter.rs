use gitscribe::classify::{
    classify_file, is_config_file, is_ignorable_file, is_interesting_file, is_priority_file,
    is_test_file, FileClass,
};
use gitscribe::diff_filter::{filter_diff, MAX_CONTEXT_LENGTH};

fn segment(path: &str, extra: &str, body: &str) -> String {
    format!(
        "diff --git a/{p} b/{p}\n{extra}index 1111111..2222222 100644\n--- a/{p}\n+++ b/{p}\n@@ -1 +1 @@\n{body}",
        p = path,
        extra = extra,
        body = body
    )
}

#[test]
fn lockfile_only_diff_gives_sentinel() {
    let diff = segment("Cargo.lock", "", "-a\n+b\n");
    assert_eq!(
        filter_diff(&diff),
        "Filtered out diff contents. Likely only lockfiles or ignored files were changed."
    );
}

#[test]
fn sum_file_only_diff_gives_sentinel() {
    let diff = segment("go.sum", "", "-a\n+b\n");
    assert_eq!(
        filter_diff(&diff),
        "Filtered out diff contents. Likely only lockfiles or ignored files were changed."
    );
}

#[test]
fn empty_diff_gives_empty_text() {
    assert_eq!(filter_diff(""), "");
}

#[test]
fn manifest_and_source_are_sorted_and_grouped() {
    let main = segment("src/main.rs", "", "-a\n+b\n");
    let cargo = segment("Cargo.toml", "", "-x\n+y\n");
    let diff = format!("{}{}", main, cargo);
    let expected = format!(
        "An index of the changed files:\n- Cargo.toml (modified)\n- src/main.rs (modified)\n\nFull diff for each file (priority files first):\n{}\n{}",
        cargo, main
    );
    let out = filter_diff(&diff);
    assert_eq!(out, expected);
    let cargo_at = out.find("diff --git a/Cargo.toml").unwrap();
    let main_at = out.find("diff --git a/src/main.rs").unwrap();
    assert!(cargo_at < main_at);
}

#[test]
fn ignorable_segment_leaves_no_trace() {
    let lock = segment("Cargo.lock", "", "-a\n+b\n");
    let lib = segment("src/lib.rs", "new file mode 100644\n", "+fn f() {}\n");
    let diff = format!("{}{}", lock, lib);
    let out = filter_diff(&diff);
    assert!(!out.contains("Cargo.lock"));
    assert_eq!(
        out,
        format!(
            "An index of the changed files:\n- src/lib.rs (added)\n\nFull diff for each file (priority files first):\n{}",
            lib
        )
    );
}

#[test]
fn deleted_status_is_reported() {
    let gone = segment("docs/old.md", "deleted file mode 100644\n", "-x\n");
    let out = filter_diff(&gone);
    assert!(out.starts_with("An index of the changed files:\n- docs/old.md (deleted)\n"));
}

#[test]
fn summary_is_sorted_regardless_of_input_order() {
    let diff = format!(
        "{}{}{}",
        segment("zeta.rs", "", "+z\n"),
        segment("alpha.rs", "", "+a\n"),
        segment("mid/beta.rs", "", "+b\n")
    );
    let out = filter_diff(&diff);
    assert!(out.starts_with(
        "An index of the changed files:\n- alpha.rs (modified)\n- mid/beta.rs (modified)\n- zeta.rs (modified)\n\n"
    ));
    let z = out.find("diff --git a/zeta.rs").unwrap();
    let a = out.find("diff --git a/alpha.rs").unwrap();
    assert!(z < a);
}

#[test]
fn unnamed_segment_is_kept_verbatim() {
    let diff = "diff --git \nsomething odd\n";
    assert_eq!(filter_diff(diff), "diff --git \nsomething odd\n");
}

#[test]
fn long_diff_is_cut_at_a_line_boundary() {
    let mut body = String::new();
    for i in 0..1000 {
        body.push_str(&format!("+line number {}\n", i));
    }
    let diff = segment("src/big.rs", "", &body);
    let out = filter_diff(&diff);
    assert!(out.ends_with("\n... (diff truncated)"));
    let kept = &out[..out.len() - "\n... (diff truncated)".len()];
    assert!(kept.len() <= MAX_CONTEXT_LENGTH);
    let full = format!(
        "An index of the changed files:\n- src/big.rs (modified)\n\nFull diff for each file (priority files first):\n{}",
        diff
    );
    assert!(full.starts_with(kept));
    assert_eq!(&full[kept.len()..kept.len() + 1], "\n");
}

#[test]
fn long_single_line_is_cut_at_the_budget() {
    let diff = format!("diff --git {}", " ".repeat(9000));
    let out = filter_diff(&diff);
    assert_eq!(out.len(), MAX_CONTEXT_LENGTH + "\n... (diff truncated)".len());
    assert!(out.ends_with("\n... (diff truncated)"));
}

#[test]
fn multibyte_text_is_cut_on_a_character_boundary() {
    let diff = format!("diff --git {}", "\u{85}".repeat(5000));
    let out = filter_diff(&diff);
    let kept = &out[..out.len() - "\n... (diff truncated)".len()];
    assert_eq!(kept.len(), 7999);
    assert!(diff.starts_with(kept));
}

#[test]
fn classifier_examples() {
    assert!(is_ignorable_file("Cargo.lock"));
    assert!(is_ignorable_file("go.sum"));
    assert!(!is_ignorable_file("lock.rs"));
    assert!(is_config_file("Cargo.toml"));
    assert!(is_config_file("web/package.json"));
    assert!(is_priority_file("pyproject.toml"));
    assert!(!is_config_file("Cargo.toml.bak"));
    assert!(is_test_file("tests/run.rs"));
    assert!(is_test_file("src/Tests/x.rs"));
    assert!(is_test_file("pkg/server_test.go"));
    assert!(is_test_file("web/app.spec.ts"));
    assert!(is_test_file("Test_util.py"));
    assert!(!is_test_file("src/contest.rs"));
    assert!(is_interesting_file("Dockerfile"));
    assert!(is_interesting_file("Makefile"));
    assert!(is_interesting_file("./Dockerfile"));
    assert!(is_interesting_file("./pom.xml"));
    assert!(!is_interesting_file("a/Dockerfile"));
    assert!(!is_interesting_file("docs/Makefile"));
    assert!(is_interesting_file("src/main.rs"));
    assert!(is_interesting_file("app/models/user.rb"));
    assert!(!is_interesting_file("docs/guide.md"));
    assert!(is_interesting_file("config/settings.yaml"));
    assert!(!is_interesting_file("src/.rs"));
}

#[test]
fn classification_precedence() {
    assert_eq!(classify_file("Cargo.lock"), FileClass::Ignorable);
    assert_eq!(classify_file("tests/Cargo.toml"), FileClass::Test);
    assert_eq!(classify_file("Cargo.toml"), FileClass::PriorityConfig);
    assert_eq!(classify_file("src/lib.rs"), FileClass::SourceOfInteresting);
    assert_eq!(classify_file("README.md"), FileClass::Other);
}
