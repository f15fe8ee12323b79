//! Whole command flows (add, list, show, update, complete, delete) against
//! an in-memory database, as a user of the command line drives them.

use agent_task::cli::{AddArgs, ListArgs, UpdateArgs};
use agent_task::commands::{add, complete, delete, list, show, update};
use agent_task::db::init_schema;
use agent_task::error::TaskError;
use agent_task::models::Task;
use agent_task::output::render_table;
use rusqlite::Connection;

const NOW: &str = "2026-07-26T00:00:00Z";

fn new_db() -> Connection {
    let conn = Connection::open_in_memory().unwrap();
    init_schema(&conn).unwrap();
    conn
}

fn add_args(title: &str) -> AddArgs {
    AddArgs {
        title: title.to_string(),
        description: None,
        status: "todo".to_string(),
        priority: "medium".to_string(),
        assigned: None,
        tags: None,
        due: None,
    }
}

fn update_args(id: i64) -> UpdateArgs {
    UpdateArgs {
        id,
        title: None,
        description: None,
        status: None,
        priority: None,
        assigned: None,
        tags: None,
        due: None,
    }
}

fn list_args() -> ListArgs {
    ListArgs { status: None, assigned: None, priority: None, tag: None, all: false, json: false }
}

fn add_ok(conn: &Connection, a: &AddArgs) -> Task {
    add(conn, a, NOW).unwrap()
}

fn add_err(conn: &Connection, a: &AddArgs) -> String {
    add(conn, a, NOW).unwrap_err().message()
}

fn table_text(tasks: &[Task]) -> String {
    render_table(tasks, false).join("\n")
}

fn titles(tasks: &[Task]) -> Vec<String> {
    tasks.iter().map(|t| t.title.clone()).collect()
}

#[test]
fn add_then_list_shows_task() {
    let conn = new_db();
    let mut a = add_args("最初のタスク");
    a.priority = "high".to_string();
    a.tags = Some("backend,bugfix".to_string());
    add_ok(&conn, &a);

    let shown = table_text(&list(&conn, &list_args()).unwrap());
    assert!(shown.contains("最初のタスク"));
    assert!(shown.contains("high"));
}

#[test]
fn list_default_hides_done_all_flag_shows_it() {
    let conn = new_db();
    add_ok(&conn, &add_args("完了予定タスク"));
    complete(&conn, 1, NOW).unwrap();

    let default_view = list(&conn, &list_args()).unwrap();
    assert!(!titles(&default_view).contains(&"完了予定タスク".to_string()));

    let mut all = list_args();
    all.all = true;
    assert!(titles(&list(&conn, &all).unwrap()).contains(&"完了予定タスク".to_string()));

    let mut done = list_args();
    done.status = Some("done".to_string());
    assert!(titles(&list(&conn, &done).unwrap()).contains(&"完了予定タスク".to_string()));
}

#[test]
fn show_returns_valid_json_with_expected_fields() {
    let conn = new_db();
    let mut a = add_args("JSON確認タスク");
    a.assigned = Some("alice".to_string());
    a.due = Some("2026-08-01".to_string());
    add_ok(&conn, &a);

    let t = show(&conn, 1).unwrap();
    assert_eq!(t.id, 1);
    assert_eq!(t.title, "JSON確認タスク");
    assert_eq!(t.assigned_agent.as_deref(), Some("alice"));
    assert_eq!(t.due_date.as_deref(), Some("2026-08-01"));
    assert_eq!(t.status, "todo");
}

#[test]
fn list_json_returns_valid_array() {
    let conn = new_db();
    add_ok(&conn, &add_args("A"));
    add_ok(&conn, &add_args("B"));
    let mut all = list_args();
    all.all = true;
    assert_eq!(list(&conn, &all).unwrap().len(), 2);
}

#[test]
fn update_changes_only_specified_fields() {
    let conn = new_db();
    let mut a = add_args("更新前");
    a.description = Some("元の説明".to_string());
    a.priority = "low".to_string();
    add_ok(&conn, &a);

    let mut u = update_args(1);
    u.status = Some("in_progress".to_string());
    u.assigned = Some("agy".to_string());
    update(&conn, &u, "2026-07-26T01:00:00Z").unwrap();

    let t = show(&conn, 1).unwrap();
    assert_eq!(t.status, "in_progress");
    assert_eq!(t.assigned_agent.as_deref(), Some("agy"));
    assert_eq!(t.title, "更新前");
    assert_eq!(t.priority, "low");
    assert_eq!(t.description.as_deref(), Some("元の説明"));
}

#[test]
fn complete_sets_status_done() {
    let conn = new_db();
    add_ok(&conn, &add_args("完了させる"));
    complete(&conn, 1, NOW).unwrap();
    assert_eq!(show(&conn, 1).unwrap().status, "done");
}

#[test]
fn delete_removes_task() {
    let conn = new_db();
    add_ok(&conn, &add_args("削除対象"));
    delete(&conn, 1).unwrap();
    assert!(show(&conn, 1).unwrap_err().message().contains("見つかりません"));
}

#[test]
fn show_missing_task_fails_with_message() {
    let conn = new_db();
    assert!(show(&conn, 999).unwrap_err().message().contains("見つかりません"));
}

#[test]
fn invalid_status_is_rejected() {
    let conn = new_db();
    let mut a = add_args("不正ステータス");
    a.status = "nope".to_string();
    assert!(add_err(&conn, &a).contains("無効な status"));
}

#[test]
fn invalid_priority_is_rejected() {
    let conn = new_db();
    let mut a = add_args("不正優先度");
    a.priority = "urgentish".to_string();
    assert!(add_err(&conn, &a).contains("無効な priority"));
}

#[test]
fn invalid_due_date_is_rejected() {
    let conn = new_db();
    let mut a = add_args("不正期限");
    a.due = Some("らくだ".to_string());
    assert!(add_err(&conn, &a).contains("無効な due"));
}

#[test]
fn valid_due_date_formats_are_accepted() {
    let conn = new_db();
    let mut a = add_args("A");
    a.due = Some("2026-08-01".to_string());
    add_ok(&conn, &a);
    let mut b = add_args("B");
    b.due = Some("2026-08-01T12:00:00+09:00".to_string());
    add_ok(&conn, &b);
}

#[test]
fn update_rejects_invalid_due_date() {
    let conn = new_db();
    add_ok(&conn, &add_args("T"));
    let mut u = update_args(1);
    u.due = Some("2026-13-99".to_string());
    assert!(update(&conn, &u, NOW).unwrap_err().message().contains("無効な due"));
}

#[test]
fn tag_filter_matches_exact_tag_only() {
    let conn = new_db();
    let mut a = add_args("A");
    a.tags = Some("backend,bugfix".to_string());
    add_ok(&conn, &a);
    let mut b = add_args("B");
    b.tags = Some("frontend".to_string());
    add_ok(&conn, &b);

    let mut l = list_args();
    l.tag = Some("backend".to_string());
    assert_eq!(titles(&list(&conn, &l).unwrap()), vec!["A"]);
}

#[test]
fn ansi_escape_sequences_are_sanitized_on_add() {
    let conn = new_db();
    add_ok(&conn, &add_args("\x1b[31mHacked\x1b[0m\x07Title"));
    let stored_title = show(&conn, 1).unwrap().title;
    assert!(!stored_title.contains('\u{1b}'));
    assert!(!stored_title.contains('\u{7}'));
    assert_eq!(stored_title, "HackedTitle");
}

#[test]
fn ansi_escape_sequences_are_sanitized_on_update() {
    let conn = new_db();
    add_ok(&conn, &add_args("普通のタイトル"));
    let mut u = update_args(1);
    u.description = Some("line1\x1b[2J\x1b[Hline2".to_string());
    update(&conn, &u, NOW).unwrap();

    let stored_desc = show(&conn, 1).unwrap().description.unwrap();
    assert!(!stored_desc.contains('\u{1b}'));
    assert_eq!(stored_desc, "line1line2");
}

#[test]
fn ansi_escape_in_assigned_and_tags_is_sanitized() {
    let conn = new_db();
    let mut a = add_args("T");
    a.assigned = Some("alice\x1b[31m".to_string());
    a.tags = Some("back\x1b[3mend,bug\x07fix".to_string());
    add_ok(&conn, &a);

    let t = show(&conn, 1).unwrap();
    assert_eq!(t.assigned_agent.as_deref(), Some("alice"));
    assert_eq!(t.tags.as_deref(), Some("backend,bugfix"));
}

#[test]
fn overlong_unterminated_csi_payload_does_not_swallow_trailing_title_text() {
    let conn = new_db();
    let junk_params: String = "9".repeat(50);
    add_ok(&conn, &add_args(&format!("\x1b[{junk_params}TAIL")));
    let stored = show(&conn, 1).unwrap().title;
    assert!(stored.ends_with("TAIL"), "後続文字列が欠落してはならない: {stored}");
    assert!(!stored.contains('\u{1b}'));
}

#[test]
fn tag_filter_percent_wildcard_is_escaped_in_cli() {
    let conn = new_db();
    let mut a = add_args("A");
    a.tags = Some("100%".to_string());
    add_ok(&conn, &a);
    let mut b = add_args("B");
    b.tags = Some("100X".to_string());
    add_ok(&conn, &b);

    let mut l = list_args();
    l.tag = Some("100%".to_string());
    assert_eq!(titles(&list(&conn, &l).unwrap()), vec!["A"]);
}

#[test]
fn add_rejects_empty_title() {
    let conn = new_db();
    assert!(add_err(&conn, &add_args("")).contains("空にすることはできません"));
}

#[test]
fn add_rejects_whitespace_only_title() {
    let conn = new_db();
    assert!(add_err(&conn, &add_args("   ")).contains("空にすることはできません"));
}

#[test]
fn add_rejects_overlong_title() {
    let conn = new_db();
    assert!(add_err(&conn, &add_args(&"a".repeat(501))).contains("長すぎます"));
}

#[test]
fn add_rejects_overlong_assigned_field() {
    let conn = new_db();
    let mut a = add_args("T");
    a.assigned = Some("a".repeat(301));
    assert!(add_err(&conn, &a).contains("長すぎます"));
}

#[test]
fn overlong_field_with_adversarial_content_is_rejected_quickly() {
    let conn = new_db();
    let mut a = add_args("T");
    a.assigned = Some("\x1b]".repeat(50_000));
    let start = std::time::Instant::now();
    assert!(add_err(&conn, &a).contains("長すぎます"));
    assert!(
        start.elapsed().as_secs() < 3,
        "rejection took {:?}; length validation should short-circuit before sanitizing",
        start.elapsed()
    );
}

#[test]
fn add_rejects_zero_width_space_only_title() {
    let conn = new_db();
    assert!(add_err(&conn, &add_args("\u{200b}\u{200b}\u{200b}")).contains("空にすることはできません"));
}

#[test]
fn add_rejects_title_with_zero_width_chars_interleaved_with_spaces() {
    let conn = new_db();
    assert!(add_err(&conn, &add_args("  \u{200b}  \u{200b}  ")).contains("空にすることはできません"));
}

#[test]
fn update_rejects_setting_title_to_empty() {
    let conn = new_db();
    add_ok(&conn, &add_args("元のタイトル"));
    let mut u = update_args(1);
    u.title = Some(String::new());
    assert!(update(&conn, &u, NOW).unwrap_err().message().contains("空にすることはできません"));
    assert_eq!(show(&conn, 1).unwrap().title, "元のタイトル");
}

#[test]
fn invalid_status_error_message_strips_ansi_escape_bytes() {
    let conn = new_db();
    let mut a = add_args("T");
    a.status = "\x1b]8;;http://evil.example\x07click\x1b]8;;\x07me".to_string();
    let stderr = add_err(&conn, &a);
    assert!(!stderr.contains('\u{1b}'), "stderr must not contain a raw ESC byte: {stderr:?}");
    assert!(stderr.contains("clickme"));
}

#[test]
fn invalid_priority_error_message_strips_ansi_escape_bytes() {
    let conn = new_db();
    add_ok(&conn, &add_args("T"));
    let mut u = update_args(1);
    u.priority = Some("\x1b[31mnope\x1b[0m".to_string());
    let stderr = update(&conn, &u, NOW).unwrap_err().message();
    assert!(!stderr.contains('\u{1b}'));
    assert!(stderr.contains("nope"));
}

#[test]
fn tag_filter_underscore_wildcard_is_escaped_in_cli() {
    let conn = new_db();
    let mut a = add_args("A");
    a.tags = Some("a_b".to_string());
    add_ok(&conn, &a);
    let mut b = add_args("B");
    b.tags = Some("axb".to_string());
    add_ok(&conn, &b);

    let mut l = list_args();
    l.tag = Some("a_b".to_string());
    assert_eq!(titles(&list(&conn, &l).unwrap()), vec!["A"]);
}

#[test]
fn update_with_no_fields_is_rejected() {
    let conn = new_db();
    let before = add_ok(&conn, &add_args("そのまま"));
    let e = update(&conn, &update_args(1), "2026-07-27T00:00:00Z").unwrap_err();
    assert!(matches!(e, TaskError::NoFieldsToUpdate));
    assert!(e.message().contains("フィールドが指定されていません"));
    let after = show(&conn, 1).unwrap();
    assert_eq!(after.updated_at, before.updated_at);
    // Refused before the database is read: the id need not even exist.
    assert!(matches!(update(&conn, &update_args(999), NOW), Err(TaskError::NoFieldsToUpdate)));
}

#[test]
fn raw_length_is_measured_before_cleaning() {
    let conn = new_db();
    // Cleaned, this is 296 characters; raw, it is 301 and over the limit.
    let mut a = add_args("T");
    a.assigned = Some(format!("\x1b[31m{}", "a".repeat(296)));
    match add(&conn, &a, NOW).unwrap_err() {
        TaskError::TooLong { field, len, max } => {
            assert_eq!(field, "assigned");
            assert_eq!(len, 301);
            assert_eq!(max, 300);
        }
        other => panic!("unexpected error: {other:?}"),
    }
    let mut t = add_args(&format!("\x1b[31m{}", "a".repeat(500)));
    t.priority = "high".to_string();
    assert!(add_err(&conn, &t).contains("長すぎます"));
    let mut u = update_args(1);
    u.title = Some(format!("\x1b[31m{}", "a".repeat(496)));
    assert!(update(&conn, &u, NOW).unwrap_err().message().contains("title が長すぎます (501 文字, 上限 500 文字)"));
    let mut all = list_args();
    all.all = true;
    assert!(list(&conn, &all).unwrap().is_empty());
}
