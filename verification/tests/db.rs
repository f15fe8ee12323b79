use agent_task::db::{
    add_task, complete_task, delete_task, get_task, init_schema, is_transient_busy, list_tasks,
    update_task, ListFilter,
};
use rusqlite::Connection;
use std::time::Duration;

fn mem_conn() -> Connection {
    let conn = Connection::open_in_memory().unwrap();
    init_schema(&conn).unwrap();
    conn
}

#[test]
fn schema_creates_table_and_indexes() {
    let conn = mem_conn();
    let table_count: i64 = conn
        .query_row(
            "SELECT count(*) FROM sqlite_master WHERE type = 'table' AND name = 'tasks'",
            [],
            |r| r.get(0),
        )
        .unwrap();
    assert_eq!(table_count, 1);

    let index_count: i64 = conn
        .query_row(
            "SELECT count(*) FROM sqlite_master WHERE type = 'index' AND name IN ('idx_tasks_status', 'idx_tasks_assigned')",
            [],
            |r| r.get(0),
        )
        .unwrap();
    assert_eq!(index_count, 2);
}

#[test]
fn schema_init_is_idempotent() {
    let conn = mem_conn();
    init_schema(&conn).unwrap();
    init_schema(&conn).unwrap();
}

#[test]
fn add_and_get_task_roundtrip() {
    let conn = mem_conn();
    let t = add_task(
        &conn,
        "テストタスク",
        Some("説明文"),
        "todo",
        "medium",
        Some("alice"),
        Some("backend,bugfix"),
        Some("2026-08-01"),
        "2026-07-26T00:00:00Z",
    )
    .unwrap();
    assert_eq!(t.title, "テストタスク");
    assert_eq!(t.status, "todo");
    assert_eq!(t.tag_list(), vec!["backend", "bugfix"]);

    let fetched = get_task(&conn, t.id).unwrap().unwrap();
    assert_eq!(fetched.id, t.id);
    assert_eq!(fetched.assigned_agent.as_deref(), Some("alice"));
}

#[test]
fn get_task_missing_returns_none() {
    let conn = mem_conn();
    assert!(get_task(&conn, 999).unwrap().is_none());
}

#[test]
fn list_default_excludes_done_unless_all() {
    let conn = mem_conn();
    add_task(&conn, "A", None, "todo", "medium", None, None, None, "2026-07-26T00:00:00Z").unwrap();
    add_task(&conn, "B", None, "done", "medium", None, None, None, "2026-07-26T00:00:00Z").unwrap();

    let default_list = list_tasks(&conn, &ListFilter::default()).unwrap();
    assert_eq!(default_list.len(), 1);
    assert_eq!(default_list[0].title, "A");

    let all_list = list_tasks(
        &conn,
        &ListFilter {
            all: true,
            ..Default::default()
        },
    )
    .unwrap();
    assert_eq!(all_list.len(), 2);
}

#[test]
fn list_filters_by_status_assigned_priority_tag() {
    let conn = mem_conn();
    add_task(
        &conn,
        "A",
        None,
        "todo",
        "high",
        Some("alice"),
        Some("backend"),
        None,
        "2026-07-26T00:00:00Z",
    )
    .unwrap();
    add_task(
        &conn,
        "B",
        None,
        "in_progress",
        "low",
        Some("agy"),
        Some("frontend,ui"),
        None,
        "2026-07-26T00:00:00Z",
    )
    .unwrap();

    let by_status = list_tasks(
        &conn,
        &ListFilter {
            status: Some("in_progress".into()),
            ..Default::default()
        },
    )
    .unwrap();
    assert_eq!(by_status.len(), 1);
    assert_eq!(by_status[0].title, "B");

    let by_assigned = list_tasks(
        &conn,
        &ListFilter {
            assigned: Some("alice".into()),
            ..Default::default()
        },
    )
    .unwrap();
    assert_eq!(by_assigned.len(), 1);
    assert_eq!(by_assigned[0].title, "A");

    let by_priority = list_tasks(
        &conn,
        &ListFilter {
            priority: Some("low".into()),
            ..Default::default()
        },
    )
    .unwrap();
    assert_eq!(by_priority.len(), 1);
    assert_eq!(by_priority[0].title, "B");

    let by_tag = list_tasks(
        &conn,
        &ListFilter {
            tag: Some("ui".into()),
            ..Default::default()
        },
    )
    .unwrap();
    assert_eq!(by_tag.len(), 1);
    assert_eq!(by_tag[0].title, "B");
}

#[test]
fn update_task_changes_only_given_fields() {
    let conn = mem_conn();
    let t = add_task(
        &conn,
        "Orig",
        Some("desc"),
        "todo",
        "medium",
        None,
        None,
        None,
        "2026-07-26T00:00:00Z",
    )
    .unwrap();

    let updated = update_task(
        &conn,
        t.id,
        None,
        None,
        Some("in_progress"),
        None,
        None,
        None,
        None,
        "2026-07-26T01:00:00Z",
    )
    .unwrap()
    .unwrap();
    assert_eq!(updated.status, "in_progress");
    assert_eq!(updated.title, "Orig");
    assert_eq!(updated.description.as_deref(), Some("desc"));
    assert_eq!(updated.updated_at, "2026-07-26T01:00:00Z");
}

#[test]
fn update_missing_task_returns_none() {
    let conn = mem_conn();
    let res = update_task(
        &conn,
        42,
        Some("x"),
        None,
        None,
        None,
        None,
        None,
        None,
        "2026-07-26T00:00:00Z",
    )
    .unwrap();
    assert!(res.is_none());
}

#[test]
fn complete_task_sets_status_done() {
    let conn = mem_conn();
    let t = add_task(&conn, "T", None, "in_progress", "medium", None, None, None, "2026-07-26T00:00:00Z")
        .unwrap();
    let done = complete_task(&conn, t.id, "2026-07-26T02:00:00Z")
        .unwrap()
        .unwrap();
    assert_eq!(done.status, "done");
}

#[test]
fn tag_filter_normalizes_internal_spaces_like_stored_column() {
    let conn = mem_conn();
    add_task(
        &conn,
        "A",
        None,
        "todo",
        "medium",
        None,
        Some("back end,other"),
        None,
        "2026-07-26T00:00:00Z",
    )
    .unwrap();

    for query in ["backend", "back end"] {
        let matches = list_tasks(
            &conn,
            &ListFilter {
                tag: Some(query.into()),
                ..Default::default()
            },
        )
        .unwrap();
        assert_eq!(
            matches.len(),
            1,
            "query {query:?} should match the \"back end\" tag"
        );
    }
}

#[test]
fn tag_filter_escapes_percent_wildcard() {
    let conn = mem_conn();
    add_task(&conn, "A", None, "todo", "medium", None, Some("100%"), None, "2026-07-26T00:00:00Z").unwrap();
    add_task(&conn, "B", None, "todo", "medium", None, Some("100X"), None, "2026-07-26T00:00:00Z").unwrap();

    let matches = list_tasks(
        &conn,
        &ListFilter {
            tag: Some("100%".into()),
            ..Default::default()
        },
    )
    .unwrap();
    assert_eq!(matches.len(), 1);
    assert_eq!(matches[0].title, "A");
}

#[test]
fn tag_filter_escapes_underscore_wildcard() {
    let conn = mem_conn();
    add_task(&conn, "A", None, "todo", "medium", None, Some("a_b"), None, "2026-07-26T00:00:00Z").unwrap();
    add_task(&conn, "B", None, "todo", "medium", None, Some("axb"), None, "2026-07-26T00:00:00Z").unwrap();

    let matches = list_tasks(
        &conn,
        &ListFilter {
            tag: Some("a_b".into()),
            ..Default::default()
        },
    )
    .unwrap();
    assert_eq!(matches.len(), 1);
    assert_eq!(matches[0].title, "A");
}

#[test]
fn delete_task_removes_row() {
    let conn = mem_conn();
    let t = add_task(&conn, "T", None, "todo", "medium", None, None, None, "2026-07-26T00:00:00Z").unwrap();
    assert!(delete_task(&conn, t.id).unwrap());
    assert!(get_task(&conn, t.id).unwrap().is_none());
    assert!(!delete_task(&conn, t.id).unwrap());
}

#[test]
fn is_transient_busy_detects_sqlite_busy_error() {
    let tmp = tempfile::TempDir::new().unwrap();
    let path = tmp.path().join("locktest.db");

    let conn1 = Connection::open(&path).unwrap();
    conn1.execute_batch("BEGIN EXCLUSIVE").unwrap();

    let conn2 = Connection::open(&path).unwrap();
    conn2.busy_timeout(Duration::from_millis(0)).unwrap();
    let err = conn2
        .execute("CREATE TABLE t (id INTEGER)", [])
        .unwrap_err();

    assert!(
        is_transient_busy(&err),
        "expected a transient-busy error, got: {err}"
    );
}

#[test]
fn is_transient_busy_is_false_for_unrelated_errors() {
    let err = rusqlite::Error::QueryReturnedNoRows;
    assert!(!is_transient_busy(&err));
}
