use jkms::commands::{error_action, DefaultPromptApplication, ErrorAction, SearchType};
use jkms::error::{ExternalError, FinkError, IoErrorKind, PromptError, StorageError, ValidationError};
use jkms::frontmatter::serialize_prompt;
use jkms::model::{remove_tag, PromptMetadata};
use jkms::naming::{is_normalized, normalize};

fn rec(name: &str, display: &str, tags: &[&str]) -> PromptMetadata {
    PromptMetadata::new(
        name.to_string(),
        display.to_string(),
        tags.iter().map(|t| t.to_string()).collect(),
        format!("{}.md", name),
    )
}

fn sample() -> Vec<PromptMetadata> {
    vec![rec("code-review", "Code Review", &["code", "review"]), rec("bug-report", "Bug Report", &["bug", "issue"])]
}

#[test]
fn should_fail_when_creating_duplicate_prompt() {
    let mut records = vec![];
    let name = DefaultPromptApplication::check_create(&records, "test-prompt").ok().unwrap();
    assert_eq!(name, "test-prompt");
    let text = serialize_prompt("test-prompt", &vec![], "");
    assert!(text.contains("name: \"test-prompt\""));
    records.push(rec(&name, "test-prompt", &[]));
    match DefaultPromptApplication::check_create(&records, "test-prompt") {
        Err(FinkError::Prompt(PromptError::AlreadyExists(n))) => assert_eq!(n, "test-prompt"),
        _ => panic!("expected AlreadyExists"),
    }
    assert!(DefaultPromptApplication::check_create(&records, "Test Prompt").is_err());
}

#[test]
fn should_require_force_flag_for_deletion() {
    let records = sample();
    match DefaultPromptApplication::check_delete(&records, "code-review", false) {
        Err(e) => {
            assert!(e.user_message().contains("--force"));
            assert!(e.is_recoverable());
        }
        Ok(_) => panic!("deletion without force must be refused"),
    }
    assert_eq!(DefaultPromptApplication::check_delete(&records, "code-review", true).ok(), Some(0));
    assert!(matches!(
        DefaultPromptApplication::check_delete(&records, "missing", true),
        Err(FinkError::Prompt(PromptError::NotFound(_)))
    ));
}

#[test]
fn find_prompt_by_name() {
    let records = sample();
    assert_eq!(DefaultPromptApplication::find_prompt(&records, "bug-report").ok(), Some(1));
    match DefaultPromptApplication::find_prompt(&records, "nonexistent") {
        Err(e) => assert_eq!(e.message(), "Prompt not found: nonexistent"),
        Ok(_) => panic!("expected NotFound"),
    }
}

#[test]
fn should_search_prompts_by_name() {
    let records = sample();
    let bodies = vec!["review the diff".to_string(), "steps to reproduce".to_string()];
    assert_eq!(DefaultPromptApplication::search_prompts(&records, &bodies, "code", SearchType::Name), vec![0]);
    assert_eq!(DefaultPromptApplication::search_prompts(&records, &bodies, "REPORT", SearchType::Name), vec![1]);
    assert_eq!(DefaultPromptApplication::search_prompts(&records, &bodies, "REPRO", SearchType::Content), vec![1]);
}

#[test]
fn should_search_prompts_by_tag() {
    let records = sample();
    let bodies = vec![String::new(), String::new()];
    assert_eq!(DefaultPromptApplication::search_prompts(&records, &bodies, "iss", SearchType::Tag), vec![1]);
}

#[test]
fn should_show_message_when_no_search_results() {
    let records = sample();
    let bodies = vec![String::new(), String::new()];
    assert!(DefaultPromptApplication::search_prompts(&records, &bodies, "zzz", SearchType::Name).is_empty());
}

#[test]
fn list_filters_by_any_tag() {
    let listed = DefaultPromptApplication::list_prompts(sample(), Some(vec!["issue".to_string(), "none".to_string()]));
    assert_eq!(listed.len(), 1);
    assert_eq!(listed[0].name, "bug-report");
    assert_eq!(DefaultPromptApplication::list_prompts(sample(), None).len(), 2);
}

#[test]
fn settings_and_paths() {
    let mut app = DefaultPromptApplication::new("/base".to_string());
    assert!(app.editor().is_none());
    app.update_editor("vim");
    assert_eq!(app.editor().unwrap(), "vim");
    assert_eq!(app.prompt_file_path("a.md"), "/base/prompts/a.md");
    let c = DefaultPromptApplication::with_config("/x".to_string(), "nano".to_string());
    assert_eq!(c.base_path(), "/x");
    assert_eq!(c.editor().unwrap(), "nano");
}

#[test]
fn normalization() {
    assert_eq!(normalize("Code Review"), "code-review");
    assert_eq!(normalize("code-review"), "code-review");
    assert_eq!(normalize(&normalize("A B  C")), normalize("A B  C"));
    assert!(is_normalized("abc-d"));
    assert!(!is_normalized("Abc"));
    assert!(!is_normalized("a b"));
}

#[test]
fn tag_removal_keeps_order() {
    let tags = vec!["a".to_string(), "b".to_string(), "c".to_string()];
    assert_eq!(remove_tag(&tags, "b"), vec!["a", "c"]);
    assert_eq!(remove_tag(&tags, "z"), tags);
}

#[test]
fn error_messages() {
    let nf = FinkError::Prompt(PromptError::NotFound("x".to_string()));
    assert!(nf.user_message().starts_with("Could not find prompt 'x'"));
    assert!(nf.user_message().contains("jkms create x"));
    let ae = FinkError::Prompt(PromptError::AlreadyExists("y".to_string()));
    assert!(ae.user_message().contains("jkms edit y"));
    let pd = FinkError::Storage(StorageError::Io(IoErrorKind::PermissionDenied, "denied".to_string()));
    assert!(pd.user_message().starts_with("Permission denied."));
    assert!(!pd.is_recoverable());
    let io = FinkError::Storage(StorageError::Io(IoErrorKind::Other, "disk".to_string()));
    assert_eq!(io.user_message(), "IO error: disk");
    let cb = FinkError::External(ExternalError::ClipboardError("busy".to_string()));
    assert_eq!(cb.message(), "Clipboard error: busy");
    let v = FinkError::Validation(ValidationError::MissingRequired("name".to_string()));
    assert_eq!(v.message(), "Missing required field: name");
    assert!(v.is_recoverable());
    let p = FinkError::Storage(StorageError::InvalidPath("../x".to_string()));
    assert_eq!(p.message(), "Invalid path: ../x");
}

#[test]
fn relative_paths_must_stay_inside() {
    assert!(DefaultPromptApplication::check_relative_path("a.md").is_ok());
    assert!(DefaultPromptApplication::check_relative_path("sub/..x.md").is_ok());
    assert!(DefaultPromptApplication::check_relative_path("../a.md").is_err());
    assert!(DefaultPromptApplication::check_relative_path("sub/../../a.md").is_err());
    assert!(DefaultPromptApplication::check_relative_path("sub/..").is_err());
    match DefaultPromptApplication::check_relative_path("/etc/passwd") {
        Err(FinkError::Storage(StorageError::InvalidPath(p))) => assert_eq!(p, "/etc/passwd"),
        _ => panic!("expected InvalidPath"),
    }
}

#[test]
fn normalization_folds_unicode() {
    assert_eq!(normalize("Écrire Vite"), "écrire-vite");
    let records = vec![];
    assert_eq!(DefaultPromptApplication::check_create(&records, "É").ok(), Some("é".to_string()));
}

#[test]
fn create_refuses_empty_name() {
    let records = vec![];
    match DefaultPromptApplication::check_create(&records, "") {
        Err(FinkError::Validation(ValidationError::MissingRequired(f))) => assert_eq!(f, "name"),
        _ => panic!("expected MissingRequired"),
    }
}

#[test]
fn listing_is_ordered_by_name() {
    let listed = DefaultPromptApplication::list_prompts(sample(), None);
    assert_eq!(listed[0].name, "bug-report");
    assert_eq!(listed[1].name, "code-review");
}

#[test]
fn error_policy() {
    assert_eq!(error_action(&FinkError::Prompt(PromptError::NotFound("x".to_string()))), ErrorAction::Banner);
    assert_eq!(error_action(&FinkError::Prompt(PromptError::InvalidFormat("x".to_string()))), ErrorAction::Banner);
    assert_eq!(
        error_action(&FinkError::Validation(ValidationError::MissingRequired("n".to_string()))),
        ErrorAction::Banner
    );
    assert_eq!(
        error_action(&FinkError::Storage(StorageError::Io(IoErrorKind::Other, "d".to_string()))),
        ErrorAction::Exit
    );
    assert_eq!(
        error_action(&FinkError::External(ExternalError::EditorError("e".to_string()))),
        ErrorAction::Exit
    );
}

#[test]
fn search_folds_unicode_case() {
    let records = vec![rec("etude", "ÉTUDE", &[])];
    let bodies = vec![String::new()];
    assert_eq!(DefaultPromptApplication::search_prompts(&records, &bodies, "étu", SearchType::Name), vec![0]);
}
