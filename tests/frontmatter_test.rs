use jkms::frontmatter::{parse_prompt, read_record, replace_tags, serialize_full_prompt, serialize_prompt};
use jkms::model::add_tag;

fn strings(v: &[&str]) -> Vec<String> {
    v.iter().map(|s| s.to_string()).collect()
}

#[test]
fn serialize_writes_header_then_body() {
    let text = serialize_prompt("Code Review", &strings(&["code", "review"]), "# Code Review Template");
    assert_eq!(
        text,
        "---\nname: \"Code Review\"\ntags: [\"code\", \"review\"]\n---\n# Code Review Template"
    );
    let empty = serialize_prompt("x", &vec![], "");
    assert_eq!(empty, "---\nname: \"x\"\ntags: []\n---\n");
}

#[test]
fn parse_reads_back_what_was_written() {
    let tags = strings(&["a", "b c", "ünï"]);
    let text = serialize_prompt("Name, with: colon", &tags, "line 1\n---\nline 3");
    let p = parse_prompt(&text).unwrap();
    assert_eq!(p.name, "Name, with: colon");
    assert_eq!(p.tags, tags);
    assert_eq!(p.body, "line 1\n---\nline 3");
}

#[test]
fn parse_refuses_other_text() {
    assert!(parse_prompt("no header").is_none());
    assert!(parse_prompt("---\nname: \"x\"\ntags: [\"a\"\n---\n").is_none());
    assert!(parse_prompt("---\nname: \"x\"\ntags: []\n").is_none());
}

#[test]
fn should_list_prompts_with_list_command() {
    let one = "---\nname: \"Code Review\"\ntags: [\"code\", \"review\"]\n---\n# Code Review Template";
    let two = "---\nname: \"Bug Report\"\ntags: [\"bug\", \"issue\"]\n---\n# Bug Report Template";
    let a = read_record("code-review.md", one).ok().unwrap();
    let b = read_record("bug-report.md", two).ok().unwrap();
    assert_eq!(a.name, "code-review");
    assert_eq!(a.display_name, "Code Review");
    assert_eq!(a.tags.join(", "), "code, review");
    assert_eq!(b.display_name, "Bug Report");
    assert_eq!(b.tags.join(", "), "bug, issue");
    assert!(read_record("bad.md", "plain").is_err());
}

#[test]
fn edit_round_trip() {
    let original = serialize_prompt("test", &strings(&["test"]), "# Original");
    let p = parse_prompt(&original).unwrap();
    let edited = serialize_prompt(&p.name, &p.tags, "# Edited");
    let tags = add_tag(&p.tags, "edited");
    let updated = replace_tags(&edited, &tags).ok().unwrap();
    let r = read_record("test.md", &updated).ok().unwrap();
    assert_eq!(r.tags, vec!["test", "edited"]);
    assert_eq!(parse_prompt(&updated).unwrap().body, "# Edited");
}

#[test]
fn name_with_quote_and_backslash_survives() {
    let name = "say \"hi\" \\ bye";
    let text = serialize_prompt(name, &vec![], "");
    assert_eq!(text, "---\nname: \"say \\\"hi\\\" \\\\ bye\"\ntags: []\n---\n");
    let p = parse_prompt(&text).unwrap();
    assert_eq!(p.name, name);
    assert_eq!(p.body, "");
    let q = parse_prompt(&serialize_prompt("\"", &vec![], "")).unwrap();
    assert_eq!(q.name, "\"");
}

#[test]
fn tags_are_cleaned_on_write_and_read() {
    let text = serialize_prompt("x", &strings(&["a", "", "b", "a"]), "body");
    let r = read_record("My Prompt.md", &text).ok().unwrap();
    assert_eq!(r.name, "my-prompt");
    assert_eq!(r.tags, vec!["a", "b"]);
    let updated = replace_tags(&text, &strings(&["c", "c", "", "d"])).ok().unwrap();
    assert_eq!(parse_prompt(&updated).unwrap().tags, vec!["c", "d"]);
    assert_eq!(parse_prompt(&updated).unwrap().body, "body");
    assert!(read_record(".md", &text).is_err());
}

#[test]
fn further_header_lines_are_kept() {
    let text = "---\nname: \"x\"\ntags: [\"a\"]\nauthor: \"me\"\nversion: 2\n---\nbody\n---\nmore";
    let p = parse_prompt(text).unwrap();
    assert_eq!(p.extra, "author: \"me\"\nversion: 2\n");
    assert_eq!(p.body, "body\n---\nmore");
    let updated = replace_tags(text, &strings(&["a", "b", "a"])).ok().unwrap();
    assert_eq!(
        updated,
        "---\nname: \"x\"\ntags: [\"a\", \"b\"]\nauthor: \"me\"\nversion: 2\n---\nbody\n---\nmore"
    );
    let full = serialize_full_prompt("x", &strings(&["t"]), "k: v\n", "b");
    assert_eq!(parse_prompt(&full).unwrap().extra, "k: v\n");
}
