use gitscribe::cli::{CommitVarient, Provider};
use gitscribe::provider::{combined_user_message, select_model, CliModel};
use gitscribe::error::APIError;
use gitscribe::git::{
    collect_git_metadata, ensure_git_repo, get_git_diff, get_git_files, git_config,
    git_diff_command, GitMetadataAnswers,
};
use gitscribe::readme::{
    build_generation_prompt, format_answer, ExtractedData, Question, ReadmeAnalysis,
};

#[test]
fn diff_command_per_scope() {
    let c = git_diff_command(Some(CommitVarient::Staged));
    assert_eq!(c.args, vec!["diff", "--no-color", "--no-ext-diff", "--minimal", "--unified=3", "--staged"]);
    let c = git_diff_command(None);
    assert_eq!(c.args.last().unwrap(), "HEAD");
    assert_eq!(c.context, "Git diff extraction");
}

#[test]
fn diff_outcomes() {
    let ok = get_git_diff(None, Ok("diff --git a b".to_string()));
    assert_eq!(ok.unwrap(), "diff --git a b");
    let empty = get_git_diff(Some(CommitVarient::Staged), Ok("  \n".to_string())).unwrap_err();
    assert_eq!(empty.message, "Failed to extract staged diff. The diff was empty.");
    let failed = get_git_diff(None, Err(APIError::new_msg("x", "y"))).unwrap_err();
    assert_eq!(failed.message, "Failed to extract any diff. Check if there are any differences.");
    assert_eq!(failed.name, "Git diff extraction");
}

#[test]
fn file_listing() {
    let files = get_git_files("a.rs\r\nsrc/b.rs\n").unwrap();
    assert_eq!(files, vec!["a.rs".to_string(), "src/b.rs".to_string()]);
    let kept_cr = get_git_files("a.rs\nb.rs\r").unwrap();
    assert_eq!(kept_cr, vec!["a.rs".to_string(), "b.rs\r".to_string()]);
    let e = get_git_files("").unwrap_err();
    assert_eq!(e.message, "No files found in git repository.");
}

#[test]
fn repo_check_and_config() {
    assert!(ensure_git_repo(Ok("true".to_string())).is_ok());
    assert!(ensure_git_repo(Err(APIError::new_msg("Git repository check", "no"))).is_err());
    let c = git_config("user.name");
    assert_eq!(c.args, vec!["config", "--get", "user.name"]);
    assert_eq!(c.context, "git config user.name");
}

#[test]
fn metadata_with_fallbacks() {
    let answers = GitMetadataAnswers {
        user_name: Some("Ada".to_string()),
        user_email: None,
        repo_root: Some("/home/ada/project".to_string()),
        branch: Some("main".to_string()),
        status: Some(" M src/lib.rs".to_string()),
        last_commit: None,
        origin: None,
    };
    assert_eq!(
        collect_git_metadata(&answers),
        "Git metadata:\n- Repository: project\n- Branch: main\n- Dirty: true\n- Author: Ada\n- Email: Unknown\n- Last commit: None\n- Origin: None\n"
    );
}

#[test]
fn generation_prompt_and_answers() {
    let analysis = ReadmeAnalysis {
        questions: vec![Question {
            question: "Audience?".to_string(),
            options: vec!["Developers".to_string(), "Users".to_string()],
        }],
        extracted: ExtractedData {
            project_name: Some("demo".to_string()),
            project_type: None,
            tech_stack: vec!["Rust".to_string(), "Tokio".to_string()],
            main_functionality: vec!["parse".to_string()],
            inferred_features: None,
        },
    };
    let answer = format_answer(11, &analysis.questions[0], 1);
    assert_eq!(answer, "Q12: Audience?\nA: Users");
    let p = build_generation_prompt(&analysis, "meta", &vec![answer]);
    assert!(p.starts_with("# EXTRACTED PROJECT DATA (use as-is, do not repeat):\n\n**Project**: demo\n**Type**: other\n**Tech Stack**: Rust, Tokio\n**Core Functionality**:\n- parse\n\n**Inferred Features**:\nNone\n\n---\n\n# GIT METADATA (for natural reference):\nmeta\n\n---\n\n# USER RESPONSES:\nQ12: Audience?\nA: Users\n\n---\n\nGenerate"));
    assert_eq!(CommitVarient::Staged.to_string(), "staged");
}

#[test]
fn provider_key_variables() {
    assert_eq!(Provider::Gemini.api_key_variable(), "GEMINI_API_KEY");
    assert_eq!(Provider::Cerebras.api_key_variable(), "CEREBRAS_API_KEY");
    let e = Provider::Cerebras.missing_key_error("environment variable not found");
    assert_eq!(e.name, "CEREBRAS_API_KEY not found");
    assert_eq!(e.message, "environment variable not found");
}

#[test]
fn model_selection() {
    assert_eq!(select_model(Provider::Gemini, None).unwrap(), CliModel::Gemini25Flash);
    assert_eq!(select_model(Provider::Cerebras, None).unwrap(), CliModel::GptOss120b);
    assert_eq!(
        select_model(Provider::Gemini, Some(CliModel::Gemini25Pro)).unwrap(),
        CliModel::Gemini25Pro
    );
    let e = select_model(Provider::Gemini, Some(CliModel::GptOss120b)).unwrap_err();
    assert_eq!(e.name, "Gemini");
    assert_eq!(e.message, "Model gpt-oss-120b is not supported by Gemini");
    assert_eq!(CliModel::Gemini25FlashLite.id(), "gemini-2.5-flash-lite");
}

#[test]
fn user_messages_are_joined_with_blank_lines() {
    let m = vec!["first".to_string(), "second".to_string()];
    assert_eq!(combined_user_message(&m), "first\n\nsecond");
    assert_eq!(combined_user_message(&Vec::new()), "");
}
