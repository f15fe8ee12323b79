use agent_task::cli::{AddArgs, ListArgs, UpdateArgs};
use agent_task::commands::{add, complete, delete, list, prepare_add, prepare_update, show, update};
use agent_task::db::init_schema;
use agent_task::error::TaskError;
use agent_task::models::{Priority, Status};
use rusqlite::Connection;

fn mem_conn() -> Connection {
    let conn = Connection::open_in_memory().unwrap();
    init_schema(&conn).unwrap();
    conn
}

fn add_args(title: &str) -> AddArgs {
    AddArgs {
        title: title.to_string(),
        description: None,
        status: "todo".to_string(),
        priority: "medium".to_string(),
        assigned: None,
        tags: None,
        due: None,
    }
}

fn update_args(id: i64) -> UpdateArgs {
    UpdateArgs {
        id,
        title: None,
        description: None,
        status: None,
        priority: None,
        assigned: None,
        tags: None,
        due: None,
    }
}

fn list_args() -> ListArgs {
    ListArgs { status: None, assigned: None, priority: None, tag: None, all: false, json: false }
}

#[test]
fn prepare_add_cleans_every_field() {
    let mut a = add_args("\x1b[31mHacked\x1b[0m\x07Title");
    a.description = Some("line1\x1b[2J\x1b[Hline2\n\tx".to_string());
    a.assigned = Some("alice\x1b[31m".to_string());
    a.tags = Some("back\x1b[3mend,bug\x07fix".to_string());
    a.due = Some("2026-08-01".to_string());
    a.priority = "urgent".to_string();
    let t = prepare_add(&a).unwrap();
    assert_eq!(t.title, "HackedTitle");
    assert_eq!(t.description.as_deref(), Some("line1line2\n\tx"));
    assert_eq!(t.assigned.as_deref(), Some("alice"));
    assert_eq!(t.tags.as_deref(), Some("backend,bugfix"));
    assert_eq!(t.status, Status::Todo);
    assert_eq!(t.priority, Priority::Urgent);
}

#[test]
fn prepare_add_refusals_in_order() {
    let mut a = add_args("");
    a.status = "nope".to_string();
    a.priority = "urgentish".to_string();
    assert!(matches!(prepare_add(&a), Err(TaskError::InvalidStatus(_))));
    a.status = "todo".to_string();
    assert!(matches!(prepare_add(&a), Err(TaskError::InvalidPriority(_))));
    a.priority = "low".to_string();
    assert!(matches!(prepare_add(&a), Err(TaskError::EmptyTitle)));
    a.title = "x".repeat(501);
    assert!(matches!(prepare_add(&a), Err(TaskError::TooLong { len: 501, max: 500, .. })));
    a.title = "ok".to_string();
    a.assigned = Some("a".repeat(301));
    let e = prepare_add(&a).unwrap_err();
    assert!(e.message().contains("長すぎます"));
    a.assigned = None;
    a.due = Some("らくだ".to_string());
    assert!(prepare_add(&a).unwrap_err().message().contains("無効な due"));
    a.due = Some("\u{200b}\u{200b}".to_string());
    assert!(matches!(prepare_add(&a), Err(TaskError::InvalidDue(_))));
}

#[test]
fn add_show_update_complete_delete_flow() {
    let conn = mem_conn();
    let mut a = add_args("最初のタスク");
    a.description = Some("元の説明".to_string());
    a.priority = "low".to_string();
    let t = add(&conn, &a, "2026-07-26T00:00:00Z").unwrap();
    assert_eq!(t.id, 1);
    assert_eq!(t.created_at, "2026-07-26T00:00:00Z");

    let mut u = update_args(t.id);
    u.status = Some("in_progress".to_string());
    u.assigned = Some("agy".to_string());
    let t2 = update(&conn, &u, "2026-07-26T01:00:00Z").unwrap();
    assert_eq!(t2.status, "in_progress");
    assert_eq!(t2.assigned_agent.as_deref(), Some("agy"));
    assert_eq!(t2.title, "最初のタスク");
    assert_eq!(t2.priority, "low");
    assert_eq!(t2.description.as_deref(), Some("元の説明"));

    let mut bad = update_args(t.id);
    bad.title = Some("   ".to_string());
    assert!(matches!(update(&conn, &bad, "x"), Err(TaskError::EmptyTitle)));
    assert_eq!(show(&conn, t.id).unwrap().title, "最初のタスク");

    let done = complete(&conn, t.id, "2026-07-26T02:00:00Z").unwrap();
    assert_eq!(done.status, "done");
    assert!(list(&conn, &list_args()).unwrap().is_empty());
    let mut all = list_args();
    all.all = true;
    assert_eq!(list(&conn, &all).unwrap().len(), 1);

    delete(&conn, t.id).unwrap();
    let e = show(&conn, t.id).unwrap_err();
    assert_eq!(e.message(), "タスクが見つかりません (ID: 1)");
    assert!(matches!(delete(&conn, t.id), Err(TaskError::NotFound(1))));
    assert!(matches!(complete(&conn, 999, "x"), Err(TaskError::NotFound(999))));
    let mut missing = update_args(999);
    missing.status = Some("done".to_string());
    assert!(matches!(update(&conn, &missing, "x"), Err(TaskError::NotFound(999))));
}

#[test]
fn list_rejects_invalid_names_and_orders_by_priority() {
    let conn = mem_conn();
    let mut l = list_args();
    l.status = Some("nope".to_string());
    assert!(matches!(list(&conn, &l), Err(TaskError::InvalidStatus(_))));
    let mut l = list_args();
    l.priority = Some("\x1b[31mnope\x1b[0m".to_string());
    let e = list(&conn, &l).unwrap_err().message();
    assert!(!e.contains('\u{1b}'));

    for (title, p) in [("L", "low"), ("U", "urgent"), ("M", "medium"), ("H", "high")] {
        let mut a = add_args(title);
        a.priority = p.to_string();
        add(&conn, &a, "2026-07-26T00:00:00Z").unwrap();
    }
    let titles: Vec<String> = list(&conn, &list_args()).unwrap().into_iter().map(|t| t.title).collect();
    assert_eq!(titles, vec!["U", "H", "M", "L"]);
}

#[test]
fn update_rejects_invalid_due_date_and_priority() {
    let mut u = update_args(1);
    u.due = Some("2026-13-99".to_string());
    assert!(prepare_update(&u).unwrap_err().message().contains("無効な due"));
    let mut u = update_args(1);
    u.priority = Some("\x1b[31mnope\x1b[0m".to_string());
    let m = prepare_update(&u).unwrap_err().message();
    assert!(!m.contains('\u{1b}'));
    assert!(m.contains("nope"));
}

#[test]
fn database_and_lookup_errors() {
    let conn = Connection::open_in_memory().unwrap();
    // No schema: SQLite refuses the query.
    let e = list(&conn, &list_args()).unwrap_err();
    assert!(matches!(e, TaskError::Database(_)));
    assert!(e.message().contains("no such table"));
    let missing = agent_task::db::inserted_task(None).unwrap_err();
    assert!(matches!(missing, TaskError::InsertedTaskMissing));
    assert_eq!(missing.message(), "挿入直後のタスク取得に失敗しました");
    assert!(agent_task::commands::deletion_outcome(true, 3).is_ok());
    assert_eq!(
        agent_task::commands::deletion_outcome(false, -3).unwrap_err().message(),
        "タスクが見つかりません (ID: -3)"
    );
}

#[test]
fn prepare_update_refuses_an_update_naming_no_field() {
    let e = prepare_update(&update_args(1)).unwrap_err();
    assert!(matches!(e, TaskError::NoFieldsToUpdate));
    assert_eq!(
        e.message(),
        "更新するフィールドが指定されていません (title, description, status, priority, assigned, tags, due のいずれかを指定してください)"
    );
    let mut u = update_args(1);
    u.tags = Some(String::new());
    assert!(prepare_update(&u).is_ok());
}

#[test]
fn prepare_update_checks_raw_lengths_before_the_title() {
    let mut u = update_args(1);
    u.title = Some("   ".to_string());
    u.description = Some("\x1b[2J".repeat(5250));
    // The description is 21000 characters raw, 0 once cleaned: refused
    // for its raw length before the blank title is looked at.
    match prepare_update(&u).unwrap_err() {
        TaskError::TooLong { field, len, max } => {
            assert_eq!((field.as_str(), len, max), ("description", 21000, 20000));
        }
        other => panic!("unexpected error: {other:?}"),
    }
    u.description = None;
    assert!(matches!(prepare_update(&u), Err(TaskError::EmptyTitle)));
}
