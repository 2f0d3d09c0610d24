use gitscribe::assemble::{
    generate_tree_view, select_readme_files, ContentAssembler, MAX_FILE_CONTENT_LENGTH,
    MAX_TOTAL_CONTENT_LENGTH,
};

fn strings(v: &[&str]) -> Vec<String> {
    v.iter().map(|s| s.to_string()).collect()
}

#[test]
fn selection_drops_tests_and_sorts() {
    let files = strings(&[
        "src/main.rs",
        "tests/it.rs",
        "Cargo.toml",
        "README.md",
        "src/lib.rs",
        "Cargo.lock",
        "web/package.json",
        "src/util_test.go",
    ]);
    let sel = select_readme_files(&files);
    assert_eq!(sel.priority, strings(&["Cargo.toml", "web/package.json"]));
    assert_eq!(sel.interesting, strings(&["src/lib.rs", "src/main.rs"]));
}

#[test]
fn tree_groups_by_directory() {
    let files = strings(&["src/main.rs", "Cargo.toml", "src/lib.rs", "src/a/b.rs"]);
    let tree = generate_tree_view(&files);
    assert_eq!(
        tree,
        ".\n  \u{2514}\u{2500}\u{2500} Cargo.toml\nsrc\n  \u{251c}\u{2500}\u{2500} lib.rs\n  \u{2514}\u{2500}\u{2500} main.rs\nsrc/a\n  \u{2514}\u{2500}\u{2500} b.rs\n"
    );
}

#[test]
fn tree_of_nothing_is_empty() {
    assert_eq!(generate_tree_view(&Vec::new()), "");
}

#[test]
fn assembler_stops_after_cap_is_exceeded() {
    let content = "a".repeat(1500);
    let paths: Vec<String> = (1..=12).map(|i| format!("src/f{:02}.rs", i)).collect();
    let mut bundle = ContentAssembler::new("tree\n", paths);
    let mut read = Vec::new();
    while let Some(p) = bundle.next_path() {
        read.push(p);
        bundle.add_file(&content);
    }
    assert_eq!(read.len(), 7);
    assert_eq!(read.last().unwrap(), "src/f07.rs");
    assert_eq!(bundle.added, 7);
    assert_eq!(bundle.total_len, 7 * 1500);
    assert!(!bundle.wants_more());
    let out = bundle.finish();
    assert!(out.ends_with("... (total content truncated)\n"));
    assert_eq!(
        out.len(),
        MAX_TOTAL_CONTENT_LENGTH + "... (total content truncated)\n".len()
    );
    assert!(out.contains("--- File: src/f07.rs ---\n"));
    assert!(!out.contains("src/f08.rs"));
}

#[test]
fn all_files_added_when_under_cap() {
    let paths = strings(&["Cargo.toml", "src/lib.rs"]);
    let mut bundle = ContentAssembler::new("t\n", paths);
    let mut n = 0;
    while bundle.next_path().is_some() {
        bundle.add_file("x");
        n += 1;
    }
    assert_eq!(n, 2);
    assert_eq!(bundle.total_len, 2);
}

#[test]
fn small_bundle_is_not_truncated() {
    let mut bundle = ContentAssembler::new("t\n", strings(&["Cargo.toml"]));
    assert_eq!(bundle.next_path().unwrap(), "Cargo.toml");
    bundle.add_file("[package]\n");
    assert!(bundle.next_path().is_none());
    assert_eq!(
        bundle.finish(),
        "Repository file structure:\nt\n\n\nKey file contents:\n--- File: Cargo.toml ---\n[package]\n\n\n"
    );
}

#[test]
fn long_text_is_cut_even_with_small_contents() {
    let tree = "d\n".repeat(6000);
    let bundle = ContentAssembler::new(&tree, Vec::new());
    assert_eq!(bundle.total_len, 0);
    let out = bundle.finish();
    assert!(out.ends_with("... (total content truncated)\n"));
    assert_eq!(out.len(), MAX_TOTAL_CONTENT_LENGTH + "... (total content truncated)\n".len());
}

#[test]
fn long_file_is_cut_to_the_per_file_cap() {
    let mut bundle = ContentAssembler::new("", strings(&["src/x.rs"]));
    let long = "b".repeat(2500);
    bundle.add_file(&long);
    let notice = "\n... (file truncated)\n";
    assert_eq!(bundle.total_len, MAX_FILE_CONTENT_LENGTH + notice.len());
    let out = bundle.finish();
    assert!(out.contains(&format!("{}{}\n\n", "b".repeat(2000), notice)));
}

#[test]
fn ordered_puts_manifests_first() {
    let files = strings(&["src/main.rs", "Cargo.toml", "Makefile", "web/package.json"]);
    let sel = select_readme_files(&files);
    assert_eq!(
        sel.ordered(),
        strings(&["Cargo.toml", "web/package.json", "Makefile", "src/main.rs"])
    );
}
