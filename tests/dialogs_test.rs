use jkms::dialogs::{
    ConfirmDialog, CreateDialog, CreateOutcome, DialogField, FilterOutcome, TagEditDialog,
    TagEditOutcome, TagFilterDialog, TagInputMode,
};
use jkms::input::Key;

#[test]
fn create_dialog_navigation() {
    let mut d = CreateDialog::new();
    assert_eq!(d.current_field(), DialogField::Filename);
    assert_eq!(d.handle_key(Key::Char('h')), CreateOutcome::Stay);
    assert_eq!(d.filename, "h");
    d.handle_key(Key::Tab);
    assert_eq!(d.current_field(), DialogField::Template);
    d.handle_key(Key::Char('l'));
    assert_eq!(d.template, 1);
    d.handle_key(Key::Char('h'));
    assert_eq!(d.template, 0);
    d.handle_key(Key::Char('h'));
    assert_eq!(d.template, 2);
    d.handle_key(Key::Char('x'));
    assert_eq!(d.filename, "h");
    d.handle_key(Key::Tab);
    assert_eq!(d.current_field(), DialogField::Filename);
    d.handle_key(Key::Char('l'));
    assert_eq!(d.filename, "hl");
    assert_eq!(d.template, 2);
}

#[test]
fn create_dialog_commits_only_when_valid() {
    let mut d = CreateDialog::new();
    assert!(!d.is_valid());
    assert_eq!(d.handle_key(Key::Enter), CreateOutcome::Stay);
    d.handle_key(Key::Char('a'));
    assert!(d.is_valid());
    assert_eq!(d.handle_key(Key::Enter), CreateOutcome::Confirm);
    d.handle_key(Key::Backspace);
    assert_eq!(d.filename, "");
    assert_eq!(d.handle_key(Key::Esc), CreateOutcome::Close);
}

#[test]
fn create_dialog_template_names() {
    let mut d = CreateDialog::new();
    assert_eq!(d.template_name(), "none");
    d.next_field();
    d.next_template();
    assert_eq!(d.template_name(), "default");
    d.handle_key(Key::Right);
    assert_eq!(d.template_name(), "basic");
    d.handle_key(Key::Left);
    assert_eq!(d.template_name(), "default");
}

#[test]
fn confirm_answers() {
    assert_eq!(ConfirmDialog::answer(Key::Char('y')), Some(true));
    assert_eq!(ConfirmDialog::answer(Key::Char('Y')), Some(true));
    assert_eq!(ConfirmDialog::answer(Key::Char('n')), Some(false));
    assert_eq!(ConfirmDialog::answer(Key::Char('N')), Some(false));
    assert_eq!(ConfirmDialog::answer(Key::Esc), Some(false));
    assert_eq!(ConfirmDialog::answer(Key::Char('x')), None);
    assert_eq!(ConfirmDialog::answer(Key::Enter), None);
}

#[test]
fn tag_filter_dialog_clamps_and_selects() {
    let mut d = TagFilterDialog::new(vec!["a".to_string(), "b".to_string()]);
    d.handle_key(Key::Up);
    assert_eq!(d.cursor, 0);
    d.handle_key(Key::Down);
    d.handle_key(Key::Down);
    assert_eq!(d.cursor, 1);
    match d.handle_key(Key::Enter) {
        FilterOutcome::Select(t) => assert_eq!(t, "b"),
        _ => panic!("expected a selected tag"),
    }
    assert!(matches!(d.handle_key(Key::Char('c')), FilterOutcome::Clear));
    assert!(matches!(d.handle_key(Key::Esc), FilterOutcome::Close));
    assert!(matches!(d.handle_key(Key::Char('z')), FilterOutcome::Stay));
}

#[test]
fn tag_filter_dialog_without_tags() {
    let mut d = TagFilterDialog::new(vec![]);
    assert!(d.get_selected_tag().is_none());
    assert!(matches!(d.handle_key(Key::Enter), FilterOutcome::Close));
}

#[test]
fn tag_edit_dialog_add_flow() {
    let mut d = TagEditDialog::new();
    assert_eq!(d.input_mode(), TagInputMode::ViewTags);
    d.handle_key(Key::Char('a'), 0);
    assert_eq!(d.input_mode(), TagInputMode::AddingTag);
    d.handle_key(Key::Char('x'), 0);
    d.handle_key(Key::Char('y'), 0);
    d.handle_key(Key::Backspace, 0);
    match d.handle_key(Key::Enter, 0) {
        TagEditOutcome::Add(t) => assert_eq!(t, "x"),
        _ => panic!("expected a tag to add"),
    }
    assert_eq!(d.input_mode(), TagInputMode::ViewTags);
    d.handle_key(Key::Char('a'), 0);
    assert!(matches!(d.handle_key(Key::Enter, 0), TagEditOutcome::Stay));
    assert!(matches!(d.handle_key(Key::Esc, 0), TagEditOutcome::Close));
}

#[test]
fn tag_edit_dialog_remove_flow() {
    let mut d = TagEditDialog::new();
    d.handle_key(Key::Char('r'), 3);
    assert_eq!(d.input_mode(), TagInputMode::RemovingTag);
    d.handle_key(Key::Down, 3);
    d.handle_key(Key::Down, 3);
    d.handle_key(Key::Down, 3);
    assert_eq!(d.cursor, 2);
    d.handle_key(Key::Up, 3);
    match d.handle_key(Key::Enter, 3) {
        TagEditOutcome::Remove(i) => assert_eq!(i, 1),
        _ => panic!("expected a tag to remove"),
    }
    d.handle_key(Key::Char('r'), 3);
    d.handle_key(Key::Esc, 3);
    assert_eq!(d.input_mode(), TagInputMode::ViewTags);
}
