use jkms::index::PromptIndex;
use jkms::model::PromptMetadata;

fn rec(name: &str, tags: &[&str]) -> PromptMetadata {
    PromptMetadata::new(
        name.to_string(),
        name.to_string(),
        tags.iter().map(|t| t.to_string()).collect(),
        format!("{}.md", name),
    )
}

fn visible_names(idx: &PromptIndex) -> Vec<String> {
    (0..idx.visible_len()).map(|i| idx.visible_at(i).name.clone()).collect()
}

fn selected_name(idx: &PromptIndex) -> Option<String> {
    idx.selected().map(|m| m.name.clone())
}

#[test]
fn tag_filter_then_search_then_clear() {
    let mut idx = PromptIndex::new(vec![rec("n1", &["a"]), rec("n2", &["a", "b"]), rec("n3", &["b"])]);
    assert_eq!(visible_names(&idx), vec!["n1", "n2", "n3"]);
    idx.set_tag_filter(Some("b".to_string()));
    assert_eq!(visible_names(&idx), vec!["n2", "n3"]);
    idx.set_query("3".to_string());
    assert_eq!(visible_names(&idx), vec!["n3"]);
    idx.set_query(String::new());
    assert_eq!(visible_names(&idx), vec!["n2", "n3"]);
    idx.set_tag_filter(None);
    assert_eq!(visible_names(&idx), vec!["n1", "n2", "n3"]);
}

#[test]
fn records_are_ordered_by_name() {
    let idx = PromptIndex::new(vec![rec("zeta", &[]), rec("alpha", &[]), rec("mid", &[])]);
    let names: Vec<String> = idx.records().iter().map(|m| m.name.clone()).collect();
    assert_eq!(names, vec!["alpha", "mid", "zeta"]);
    assert_eq!(idx.selected_index(), Some(0));
}

#[test]
fn empty_index_has_no_selection() {
    let idx = PromptIndex::new(vec![]);
    assert_eq!(idx.visible_len(), 0);
    assert_eq!(idx.selected_index(), None);
}

#[test]
fn selection_follows_record_across_filters() {
    let mut idx = PromptIndex::new(vec![rec("n1", &["a"]), rec("n2", &["a", "b"]), rec("n3", &["b"])]);
    idx.next();
    assert_eq!(selected_name(&idx), Some("n2".to_string()));
    idx.set_tag_filter(Some("b".to_string()));
    assert_eq!(selected_name(&idx), Some("n2".to_string()));
    assert_eq!(idx.selected_index(), Some(0));
    idx.set_tag_filter(None);
    assert_eq!(selected_name(&idx), Some("n2".to_string()));
    assert_eq!(idx.selected_index(), Some(1));
}

#[test]
fn selection_moves_to_nearest_earlier_record() {
    let mut idx = PromptIndex::new(vec![rec("n1", &["a"]), rec("n2", &["b"]), rec("n3", &["a"])]);
    idx.next();
    assert_eq!(selected_name(&idx), Some("n2".to_string()));
    idx.set_tag_filter(Some("a".to_string()));
    assert_eq!(selected_name(&idx), Some("n1".to_string()));
}

#[test]
fn selection_falls_back_to_first_then_clears() {
    let mut idx = PromptIndex::new(vec![rec("n1", &["a"]), rec("n2", &["b"])]);
    idx.set_tag_filter(Some("b".to_string()));
    assert_eq!(selected_name(&idx), Some("n2".to_string()));
    idx.set_tag_filter(Some("none".to_string()));
    assert_eq!(selected_name(&idx), None);
    idx.set_tag_filter(Some("a".to_string()));
    assert_eq!(selected_name(&idx), Some("n1".to_string()));
}

#[test]
fn next_and_previous_clamp_at_ends() {
    let mut idx = PromptIndex::new(vec![rec("a", &[]), rec("b", &[])]);
    idx.previous();
    assert_eq!(idx.selected_index(), Some(0));
    idx.next();
    idx.next();
    assert_eq!(idx.selected_index(), Some(1));
}

#[test]
fn search_is_case_insensitive_on_display_name() {
    let mut idx = PromptIndex::new(vec![
        PromptMetadata::new("code-review".to_string(), "Code Review".to_string(), vec![], "code-review.md".to_string()),
        PromptMetadata::new("bug-report".to_string(), "Bug Report".to_string(), vec![], "bug-report.md".to_string()),
    ]);
    idx.set_query("REVIEW".to_string());
    assert_eq!(visible_names(&idx), vec!["code-review"]);
    idx.set_query("code-review".to_string());
    assert_eq!(visible_names(&idx), Vec::<String>::new());
}

#[test]
fn all_tags_are_sorted_and_distinct() {
    let idx = PromptIndex::new(vec![rec("x", &["b", "a"]), rec("y", &["c", "a"])]);
    assert_eq!(idx.all_tags(), vec!["a", "b", "c"]);
}

#[test]
fn reload_keeps_selection_by_name() {
    let mut idx = PromptIndex::new(vec![rec("b", &[]), rec("c", &[])]);
    idx.next();
    assert_eq!(selected_name(&idx), Some("c".to_string()));
    idx.reload(vec![rec("a", &[]), rec("b", &[]), rec("c", &[])]);
    assert_eq!(selected_name(&idx), Some("c".to_string()));
    assert!(idx.contains_name("a"));
    assert!(!idx.contains_name("d"));
}

#[test]
fn reload_after_deleting_selected_stays_in_place() {
    let mut idx = PromptIndex::new(vec![rec("a", &[]), rec("b", &[]), rec("c", &[])]);
    idx.next();
    idx.reload(vec![rec("a", &[]), rec("c", &[])]);
    assert_eq!(selected_name(&idx), Some("c".to_string()));
}
