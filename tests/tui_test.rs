use jkms::input::Key;
use jkms::model::PromptMetadata;
use jkms::tui::{run_app, AppMode, Command, EventHandler, PendingAction, TUIApp, TUI};

fn rec(name: &str, tags: &[&str]) -> PromptMetadata {
    PromptMetadata::new(
        name.to_string(),
        name.to_string(),
        tags.iter().map(|t| t.to_string()).collect(),
        format!("{}.md", name),
    )
}

fn sample() -> Vec<PromptMetadata> {
    vec![rec("n1", &["a"]), rec("n2", &["a", "b"]), rec("n3", &["b"])]
}

fn keys(app: &mut TUIApp, ks: &[Key]) {
    for k in ks {
        app.handle_key(*k);
    }
}

fn typed(app: &mut TUIApp, s: &str) {
    for c in s.chars() {
        app.handle_key(Key::Char(c));
    }
}

#[test]
fn test_create_dialog_integration() {
    let mut app = TUIApp::new(vec![], AppMode::Management);
    app.handle_key(Key::Char('n'));
    assert!(app.is_create_dialog_active());
    assert!(app.get_create_dialog().is_some());
}

#[test]
fn test_cancel_create_dialog() {
    let mut app = TUIApp::new(vec![], AppMode::Management);
    app.handle_key(Key::Char('n'));
    typed(&mut app, "test");
    assert!(matches!(app.handle_key(Key::Esc), Command::Nothing));
    assert!(!app.is_create_dialog_active());
}

#[test]
fn create_dialog_confirm_gives_create_command() {
    let mut app = TUIApp::new(vec![], AppMode::Management);
    app.handle_key(Key::Char('n'));
    typed(&mut app, "Test Prompt");
    keys(&mut app, &[Key::Tab, Key::Char('l'), Key::Char('l')]);
    match app.handle_key(Key::Enter) {
        Command::Create { name, display_name, template } => {
            assert_eq!(name, "test-prompt");
            assert_eq!(display_name, "Test Prompt");
            assert_eq!(template, 2);
        }
        _ => panic!("expected a create command"),
    }
    assert!(!app.is_create_dialog_active());
}

#[test]
fn create_dialog_refuses_existing_name() {
    let mut app = TUIApp::new(vec![rec("test-prompt", &[])], AppMode::Management);
    app.handle_key(Key::Char('n'));
    typed(&mut app, "test-prompt");
    assert!(matches!(app.handle_key(Key::Enter), Command::Nothing));
    assert!(app.has_error());
    assert!(app.is_create_dialog_active());
    app.handle_key(Key::Char('x'));
    assert!(!app.has_error());
    assert_eq!(app.get_create_dialog().unwrap().filename, "test-prompt");
}

#[test]
fn error_banner_swallows_next_key() {
    let mut app = TUIApp::new(sample(), AppMode::QuickSelect);
    app.set_error("boom".to_string());
    assert_eq!(app.error_message().unwrap(), "boom");
    app.handle_key(Key::Char('q'));
    assert!(!app.has_error());
    assert!(!app.should_quit());
    app.handle_key(Key::Char('q'));
    assert!(app.should_quit());
}

#[test]
fn quick_select_enter_copies_and_quits() {
    let mut app = TUIApp::new(sample(), AppMode::QuickSelect);
    app.handle_key(Key::Char('j'));
    match app.handle_key(Key::Enter) {
        Command::CopyBody { file_path } => assert_eq!(file_path, "n2.md"),
        _ => panic!("expected a copy"),
    }
    assert!(app.should_quit());
}

#[test]
fn enter_without_match_shows_error() {
    let mut app = TUIApp::new(sample(), AppMode::QuickSelect);
    app.handle_key(Key::Char('/'));
    assert!(app.is_search_active());
    typed(&mut app, "zz");
    assert_eq!(app.index.visible_len(), 0);
    assert!(matches!(app.handle_key(Key::Enter), Command::Nothing));
    assert!(app.has_error());
    assert!(!app.should_quit());
}

#[test]
fn search_typing_and_backspace() {
    let mut app = TUIApp::new(sample(), AppMode::Management);
    app.handle_key(Key::Char('/'));
    typed(&mut app, "n3");
    assert_eq!(app.index.query(), "n3");
    assert_eq!(app.index.visible_len(), 1);
    app.handle_key(Key::Backspace);
    assert_eq!(app.index.query(), "n");
    assert_eq!(app.index.visible_len(), 3);
    assert!(matches!(app.handle_key(Key::Enter), Command::Nothing));
    assert!(!app.should_quit());
    app.handle_key(Key::Esc);
    assert!(!app.is_search_active());
    assert_eq!(app.index.query(), "");
}

#[test]
fn mode_toggle_keeps_selection() {
    let mut app = TUIApp::new(sample(), AppMode::QuickSelect);
    keys(&mut app, &[Key::Down, Key::Down, Key::Char('m')]);
    assert_eq!(app.mode(), AppMode::Management);
    assert_eq!(app.index.selected_index(), Some(2));
    keys(&mut app, &[Key::Char('k'), Key::Char('m')]);
    assert_eq!(app.mode(), AppMode::QuickSelect);
    assert_eq!(app.index.selected_index(), Some(1));
}

#[test]
fn management_keys_ignored_in_quick_select() {
    let mut app = TUIApp::new(sample(), AppMode::QuickSelect);
    keys(&mut app, &[Key::Char('e'), Key::Char('d'), Key::Char('n'), Key::Char('t')]);
    assert!(app.dialog.is_none());
    assert_eq!(app.take_pending_action(), None);
}

#[test]
fn edit_key_queues_pending_action() {
    let mut app = TUIApp::new(sample(), AppMode::Management);
    app.handle_key(Key::Char('e'));
    assert_eq!(app.take_pending_action(), Some(PendingAction::Edit));
    assert_eq!(app.take_pending_action(), None);
    assert_eq!(app.selected_file_path(), Some("n1.md".to_string()));
}

#[test]
fn delete_needs_confirmation() {
    let mut app = TUIApp::new(sample(), AppMode::Management);
    app.handle_key(Key::Char('d'));
    assert!(app.is_showing_confirmation());
    assert!(matches!(app.handle_key(Key::Char('x')), Command::Nothing));
    assert!(app.is_showing_confirmation());
    assert!(matches!(app.handle_key(Key::Char('n')), Command::Nothing));
    assert!(!app.is_showing_confirmation());
    app.handle_key(Key::Char('d'));
    match app.handle_key(Key::Char('y')) {
        Command::Delete { file_path } => assert_eq!(file_path, "n1.md"),
        _ => panic!("expected a delete"),
    }
    app.reload(vec![rec("n2", &["a", "b"]), rec("n3", &["b"])]);
    assert_eq!(app.index.visible_len(), 2);
}

#[test]
fn only_one_dialog_at_a_time() {
    let mut app = TUIApp::new(sample(), AppMode::Management);
    app.handle_key(Key::Char('f'));
    assert!(app.is_tag_filter_dialog_active());
    keys(&mut app, &[Key::Char('n'), Key::Char('d'), Key::Char('t')]);
    assert!(app.is_tag_filter_dialog_active());
    assert!(!app.is_create_dialog_active());
    assert!(!app.is_showing_confirmation());
    assert!(!app.is_tag_management_active());
}

#[test]
fn filter_dialog_sets_and_clears_filter() {
    let mut app = TUIApp::new(sample(), AppMode::QuickSelect);
    app.handle_key(Key::Char('f'));
    assert_eq!(app.get_tag_filter_dialog().unwrap().tags, vec!["a", "b"]);
    keys(&mut app, &[Key::Down, Key::Enter]);
    assert!(!app.is_tag_filter_dialog_active());
    assert_eq!(app.index.tag_filter().as_deref(), Some("b"));
    assert_eq!(app.index.visible_len(), 2);
    keys(&mut app, &[Key::Char('f'), Key::Char('c')]);
    assert_eq!(app.index.tag_filter(), &None);
    assert_eq!(app.index.visible_len(), 3);
}

#[test]
fn tag_edit_gives_new_tag_lists() {
    let mut app = TUIApp::new(sample(), AppMode::Management);
    app.handle_key(Key::Down);
    app.handle_key(Key::Char('t'));
    assert!(app.is_tag_management_active());
    app.handle_key(Key::Char('a'));
    typed(&mut app, "c");
    match app.handle_key(Key::Enter) {
        Command::SetTags { file_path, tags } => {
            assert_eq!(file_path, "n2.md");
            assert_eq!(tags, vec!["a", "b", "c"]);
        }
        _ => panic!("expected new tags"),
    }
    app.handle_key(Key::Char('a'));
    typed(&mut app, "a");
    match app.handle_key(Key::Enter) {
        Command::SetTags { tags, .. } => assert_eq!(tags, vec!["a", "b"]),
        _ => panic!("expected new tags"),
    }
    keys(&mut app, &[Key::Char('r'), Key::Down]);
    match app.handle_key(Key::Enter) {
        Command::SetTags { tags, .. } => assert_eq!(tags, vec!["a"]),
        _ => panic!("expected new tags"),
    }
    assert!(app.is_tag_management_active());
    app.handle_key(Key::Esc);
    assert!(!app.is_tag_management_active());
}

#[test]
fn quit_keys() {
    let mut app = TUIApp::new(sample(), AppMode::QuickSelect);
    app.handle_key(Key::Esc);
    assert!(app.should_quit());
}

#[test]
fn event_handler_and_tui() {
    let tui = TUI::new(sample());
    assert_eq!(tui.app().mode(), AppMode::QuickSelect);
    let started = run_app(vec![]);
    assert_eq!(started.app().index.visible_len(), 0);
    let mut app = TUIApp::new(sample(), AppMode::Management);
    let handler = EventHandler::new();
    handler.handle_event(&mut app, Key::Char('j'));
    assert_eq!(app.index.selected_index(), Some(1));
}
