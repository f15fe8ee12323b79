use agent_task::models::{Priority, Status, Task};

fn sample_task() -> Task {
    Task {
        id: 1,
        title: "T".to_string(),
        description: None,
        status: "todo".to_string(),
        priority: "medium".to_string(),
        assigned_agent: None,
        tags: None,
        created_at: "2026-07-26T00:00:00Z".to_string(),
        updated_at: "2026-07-26T00:00:00Z".to_string(),
        due_date: None,
    }
}

#[test]
fn status_parse_error_strips_ansi_from_echoed_value() {
    let malicious = "\x1b]8;;http://evil.example\x07click\x1b]8;;\x07me";
    let err = Status::parse(malicious).unwrap_err().message();
    assert!(
        !err.contains('\u{1b}'),
        "error message must not contain ESC: {err}"
    );
    assert!(err.contains("clickme"));
}

#[test]
fn priority_parse_error_strips_ansi_from_echoed_value() {
    let malicious = "\x1b[31mnope\x1b[0m";
    let err = Priority::parse(malicious).unwrap_err().message();
    assert!(
        !err.contains('\u{1b}'),
        "error message must not contain ESC: {err}"
    );
    assert!(err.contains("nope"));
}

#[test]
fn status_parse_error_truncates_overlong_value() {
    let long = "x".repeat(500);
    let err = Status::parse(&long).unwrap_err().message();
    assert!(
        err.len() < 300,
        "error message should be bounded: {} bytes",
        err.len()
    );
    assert!(err.contains('…'));
}

#[test]
fn status_parse_valid_values_roundtrip() {
    for s in ["todo", "in_progress", "done", "blocked"] {
        assert_eq!(Status::parse(s).unwrap().as_str(), s);
    }
}

#[test]
fn priority_parse_valid_values_roundtrip() {
    for p in ["low", "medium", "high", "urgent"] {
        assert_eq!(Priority::parse(p).unwrap().as_str(), p);
    }
}

#[test]
fn task_tag_list_splits_trims_and_drops_empties() {
    let mut t = sample_task();
    t.tags = Some(" backend , , bugfix ,".to_string());
    assert_eq!(t.tag_list(), vec!["backend", "bugfix"]);
}

#[test]
fn task_tag_list_none_is_empty() {
    let mut t = sample_task();
    t.tags = None;
    assert!(t.tag_list().is_empty());
}

#[test]
fn task_has_tag_is_case_insensitive() {
    let mut t = sample_task();
    t.tags = Some("Backend,BugFix".to_string());
    assert!(t.has_tag("backend"));
    assert!(t.has_tag("BUGFIX"));
    assert!(!t.has_tag("frontend"));
}

// Further cases.

#[test]
fn status_and_priority_error_messages_are_exact() {
    assert_eq!(
        Status::parse("nope").unwrap_err().message(),
        "無効な status です: 'nope' (有効値: todo, in_progress, done, blocked)"
    );
    assert_eq!(
        Priority::parse("urgentish").unwrap_err().message(),
        "無効な priority です: 'urgentish' (有効値: low, medium, high, urgent)"
    );
    // Names are case-sensitive.
    assert!(Status::parse("TODO").is_err());
}

#[test]
fn emoji_and_colors_per_variant() {
    assert_eq!(Status::Todo.emoji(), "🟡");
    assert_eq!(Status::InProgress.emoji(), "🟢");
    assert_eq!(Status::Done.emoji(), "🔵");
    assert_eq!(Status::Blocked.emoji(), "🔴");
    assert_eq!(Priority::Low.ansi_color(), "\x1b[2m");
    assert_eq!(Priority::Medium.ansi_color(), "\x1b[36m");
    assert_eq!(Priority::High.ansi_color(), "\x1b[33m");
    assert_eq!(Priority::Urgent.ansi_color(), "\x1b[1;31m");
}

#[test]
fn tag_list_blank_and_unicode_whitespace() {
    let mut t = sample_task();
    t.tags = Some("  ,\u{3000}, ".to_string());
    assert!(t.tag_list().is_empty());
    t.tags = Some("\u{3000}日本語\u{a0},a b".to_string());
    assert_eq!(t.tag_list(), vec!["日本語", "a b"]);
    assert!(t.has_tag("A B"));
    assert!(!t.has_tag("日本"));
}
