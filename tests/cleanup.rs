use gitscribe::cleanup::{clean_commit_message, handle_json_strip};

#[test]
fn preamble_and_fence_are_removed() {
    let raw = "Here's a commit message:\n```\nfeat(cli): add retry logic\n\nDetails...\n```";
    assert_eq!(clean_commit_message(raw), "feat(cli): add retry logic\n\nDetails...");
}

#[test]
fn cleanup_is_idempotent_on_examples() {
    let samples = [
        "Here's a commit message:\n```\nfeat(cli): add retry logic\n\nDetails...\n```",
        "```git\nfix(core): handle empty diff\n```",
        "```\n```\nfoo\n```\n```",
        "  The commit message is below\n\n\u{2728} feat(ui): new look  ",
        "plain text",
        "",
    ];
    for s in samples.iter() {
        let once = clean_commit_message(s);
        assert_eq!(clean_commit_message(&once), once);
    }
}

#[test]
fn fenced_message_with_language_tag() {
    assert_eq!(
        clean_commit_message("```git\nfix(core): handle empty diff\n```"),
        "fix(core): handle empty diff"
    );
    assert_eq!(
        clean_commit_message("```commit\ndocs(readme): typo\n```"),
        "docs(readme): typo"
    );
}

#[test]
fn emoji_line_is_found_after_preamble() {
    assert_eq!(
        clean_commit_message("The commit message is below\n\n\u{2728} feat(ui): new look"),
        "\u{2728} feat(ui): new look"
    );
}

#[test]
fn well_formed_message_is_only_trimmed() {
    assert_eq!(clean_commit_message("  chore(deps): bump\n"), "chore(deps): bump");
    assert_eq!(clean_commit_message("feat(x): y\n```"), "feat(x): y\n```");
}

#[test]
fn nested_fences_are_removed_until_stable() {
    assert_eq!(clean_commit_message("```\n```\nfoo\n```\n```"), "foo");
}

#[test]
fn json_fence_is_stripped() {
    assert_eq!(handle_json_strip("  ```json\n{\"a\": 1}\n```  "), "{\"a\": 1}");
    assert_eq!(handle_json_strip("{\"a\": 1}"), "{\"a\": 1}");
    assert_eq!(handle_json_strip("```json```"), "");
}
