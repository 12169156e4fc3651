use prompt_board::prompt::{
    column_exists, migrate_seed_examples, search_pattern, seed_if_empty, Prompt, PromptDraft,
};

fn draft(title: &str, content: &str, tags: &str) -> PromptDraft {
    PromptDraft { title: title.to_owned(), content: content.to_owned(), tags: tags.to_owned() }
}

#[test]
fn normalized_trims_every_field() {
    let d = draft("  Title \n", "\tbody [x]  ", " a, b ").normalized();
    assert_eq!(d.title, "Title");
    assert_eq!(d.content, "body [x]");
    assert_eq!(d.tags, "a, b");
}

#[test]
fn normalized_twice_is_normalized_once() {
    let once = draft(" t ", " c ", " g ").normalized();
    let twice = once.normalized();
    assert_eq!(once.title, twice.title);
    assert_eq!(once.content, twice.content);
    assert_eq!(once.tags, twice.tags);
}

#[test]
fn search_pattern_wraps_trimmed_query() {
    assert_eq!(search_pattern("  rust "), Some("%rust%".to_owned()));
    assert_eq!(search_pattern("邮件"), Some("%邮件%".to_owned()));
}

#[test]
fn blank_search_lists_everything() {
    assert_eq!(search_pattern(""), None);
    assert_eq!(search_pattern(" \t\u{3000}"), None);
}

#[test]
fn empty_store_gets_the_examples() {
    let drafts = seed_if_empty(0);
    let titles: Vec<&str> = drafts.iter().map(|d| d.title.as_str()).collect();
    assert_eq!(titles, vec!["改写为更清晰的表达", "代码审查", "需求拆解", "中文邮件"]);
    assert_eq!(drafts[2].tags, "产品, 规划");
    assert!(drafts[0].content.ends_with("[原文]"));
}

#[test]
fn non_empty_store_gets_no_examples() {
    assert!(seed_if_empty(1).is_empty());
    assert!(seed_if_empty(42).is_empty());
}

#[test]
fn english_mail_example_becomes_chinese() {
    let (id, d) = migrate_seed_examples(Some(7)).unwrap();
    assert_eq!(id, 7);
    assert_eq!(d.title, "中文邮件");
    assert_eq!(d.tags, "邮件, 中文");
    assert_eq!(d.content, seed_if_empty(0)[3].content);
    assert!(migrate_seed_examples(None).is_none());
}

#[test]
fn column_lookup() {
    let columns = vec!["id".to_owned(), "title".to_owned(), "last_used_at".to_owned()];
    assert!(column_exists(&columns, "last_used_at"));
    assert!(!column_exists(&columns, "updated_at"));
    assert!(!column_exists(&Vec::new(), "id"));
}

#[test]
fn duplicate_copies_a_prompt() {
    let p = Prompt { id: 3, title: "t".into(), content: "c".into(), tags: "g".into() };
    let q = p.duplicate();
    assert_eq!((q.id, q.title, q.content, q.tags), (3, "t".to_owned(), "c".to_owned(), "g".to_owned()));
}
