use agent_task::models::Task;
use agent_task::output::{render_detail, render_table, truncate};
use unicode_width::UnicodeWidthStr;

fn display_width(s: &str) -> usize {
    UnicodeWidthStr::width(s)
}

fn task(id: i64, title: &str, status: &str, priority: &str) -> Task {
    Task {
        id,
        title: title.to_string(),
        description: None,
        status: status.to_string(),
        priority: priority.to_string(),
        assigned_agent: None,
        tags: None,
        created_at: "2026-07-26T00:00:00Z".to_string(),
        updated_at: "2026-07-26T00:00:00Z".to_string(),
        due_date: None,
    }
}

#[test]
fn truncate_short_text_unchanged() {
    assert_eq!(truncate("hello", 10), "hello");
}

#[test]
fn truncate_long_text_adds_ellipsis() {
    let t = truncate("this is a very long title indeed", 10);
    assert!(display_width(&t) <= 10);
    assert!(t.ends_with('…'));
}

// Further cases.

#[test]
fn truncate_exact_results() {
    assert_eq!(truncate("this is a very long title indeed", 10), "this is a…");
    assert_eq!(truncate("あいうえお", 5), "あい…");
    assert_eq!(truncate("abc", 0), "…");
}

#[test]
fn empty_table_is_a_single_message_line() {
    assert_eq!(render_table(&[], false), vec!["タスクが見つかりませんでした。"]);
    assert_eq!(
        render_table(&[], true),
        vec!["\x1b[90mタスクが見つかりませんでした。\x1b[0m"]
    );
}

#[test]
fn table_without_color_is_aligned() {
    let mut a = task(1, "A", "todo", "high");
    a.tags = Some("backend".to_string());
    let b = task(12, "B", "weird", "low");
    let lines = render_table(&[a, b], false);
    assert_eq!(lines.len(), 3);
    assert_eq!(
        lines[0],
        "ID  STATUS   PRIORITY  TITLE  ASSIGNED  TAGS     DUE       "
    );
    assert_eq!(
        lines[1],
        "1   🟡 todo  high      A      -         backend  -         "
    );
    assert_eq!(
        lines[2],
        "12  weird    low       B      -         -        -         "
    );
}

#[test]
fn table_with_color_paints_header_and_priority() {
    let lines = render_table(&[task(3, "T", "done", "urgent")], true);
    assert!(lines[0].starts_with("\x1b[1mID\x1b[0m  "));
    assert!(lines[1].contains("\x1b[1;31murgent\x1b[0m  "));
    assert!(lines[1].contains("🔵 done"));
}

#[test]
fn detail_view_lines() {
    let mut t = task(-5, "Title", "blocked", "medium");
    t.description = Some("line1\nline2".to_string());
    let lines = render_detail(&t, false);
    assert_eq!(
        lines,
        vec![
            "ID: -5",
            "Title: Title",
            "Status: 🔴 blocked",
            "Priority: medium",
            "Assigned: -",
            "Tags: -",
            "Due: -",
            "Created: 2026-07-26T00:00:00Z",
            "Updated: 2026-07-26T00:00:00Z",
            "Description: line1\nline2",
        ]
    );
    let colored = render_detail(&t, true);
    assert_eq!(colored[3], "\x1b[1mPriority\x1b[0m: \x1b[36mmedium\x1b[0m");
}
