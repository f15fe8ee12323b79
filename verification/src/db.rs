//! Task storage in SQLite: the schema, the SQL text and bound values of
//! each query, and the create/read/update/delete operations that run them
//! through `rusqlite`.

use vstd::prelude::*;
use crate::error::TaskError;
use crate::models::{Task, opt_chars};
use crate::text::{chars_of, str_eq, string_from_chars, trim_chars, trim_seq};

verus! {

#[verifier::external_type_specification]
#[verifier::external_body]
pub struct ExConnection(rusqlite::Connection);

#[verifier::external_type_specification]
#[verifier::external_body]
pub struct ExSqlValue(rusqlite::types::Value);

pub const SCHEMA_SQL: &'static str = "
CREATE TABLE IF NOT EXISTS tasks (
    id INTEGER PRIMARY KEY AUTOINCREMENT,
    title TEXT NOT NULL,
    description TEXT,
    status TEXT NOT NULL DEFAULT 'todo',
    priority TEXT NOT NULL DEFAULT 'medium',
    assigned_agent TEXT,
    tags TEXT,
    created_at TEXT NOT NULL,
    updated_at TEXT NOT NULL,
    due_date TEXT
);

CREATE INDEX IF NOT EXISTS idx_tasks_status ON tasks(status);
CREATE INDEX IF NOT EXISTS idx_tasks_assigned ON tasks(assigned_agent);
";

/// Selects every column of `tasks`, in the order `row_to_task` reads them.
pub const SELECT_TASKS: &'static str =
    "SELECT id, title, description, status, priority, assigned_agent, tags, created_at, updated_at, due_date FROM tasks";

pub const INSERT_SQL: &'static str =
    "INSERT INTO tasks (title, description, status, priority, assigned_agent, tags, created_at, updated_at, due_date)
         VALUES (?1, ?2, ?3, ?4, ?5, ?6, ?7, ?7, ?8)";

pub const GET_BY_ID: &'static str = " WHERE id = ?1";

pub const DELETE_SQL: &'static str = "DELETE FROM tasks WHERE id = ?1";

pub const LIST_WHERE: &'static str = " WHERE 1=1";

pub const STATUS_EQ: &'static str = " AND status = ?";

pub const NOT_DONE: &'static str = " AND status != 'done'";

pub const ASSIGNED_EQ: &'static str = " AND assigned_agent = ?";

pub const PRIORITY_EQ: &'static str = " AND priority = ?";

pub const TAG_LIKE: &'static str = " AND (',' || REPLACE(tags, ' ', '') || ',') LIKE ? ESCAPE '\\'";

pub const LIST_ORDER: &'static str =
    " ORDER BY CASE priority WHEN 'urgent' THEN 0 WHEN 'high' THEN 1 WHEN 'medium' THEN 2 WHEN 'low' THEN 3 ELSE 4 END, id ASC";

/// A value bound to a `?` placeholder.
#[derive(Debug)]
pub enum SqlValue {
    Null,
    Integer(i64),
    Text(String),
}

/// The mathematical content of a bound value.
pub enum SqlArg {
    Null,
    Integer(i64),
    Text(Seq<char>),
}

impl View for SqlValue {
    type V = SqlArg;

    open spec fn view(&self) -> SqlArg {
        match self {
            SqlValue::Null => SqlArg::Null,
            SqlValue::Integer(i) => SqlArg::Integer(*i),
            SqlValue::Text(s) => SqlArg::Text(s@),
        }
    }
}

pub open spec fn args_view(v: Seq<SqlValue>) -> Seq<SqlArg> {
    v.map_values(|x: SqlValue| x@)
}

pub open spec fn text_or_null(o: Option<Seq<char>>) -> SqlArg {
    match o {
        Some(s) => SqlArg::Text(s),
        None => SqlArg::Null,
    }
}

pub open spec fn opt_str(o: Option<&str>) -> Option<Seq<char>> {
    match o {
        Some(s) => Some(s@),
        None => None,
    }
}

/// Filters accepted by `list`.
#[derive(Debug)]
pub struct ListFilter {
    pub status: Option<String>,
    pub assigned: Option<String>,
    pub priority: Option<String>,
    pub tag: Option<String>,
    pub all: bool,
}

impl Default for ListFilter {
    fn default() -> (f: ListFilter)
        ensures
            f.status is None,
            f.assigned is None,
            f.priority is None,
            f.tag is None,
            !f.all,
    {
        ListFilter { status: None, assigned: None, priority: None, tag: None, all: false }
    }
}

/// `c` as it must appear in a `LIKE ... ESCAPE '\'` pattern to match
/// itself literally.
pub open spec fn like_escaped_char(c: char) -> Seq<char> {
    if c == '\\' {
        seq!['\\', '\\']
    } else if c == '%' {
        seq!['\\', '%']
    } else if c == '_' {
        seq!['\\', '_']
    } else {
        seq![c]
    }
}

/// `s` with `\`, `%` and `_` escaped by a backslash.
pub open spec fn like_escaped(s: Seq<char>) -> Seq<char>
    decreases s.len(),
{
    if s.len() == 0 {
        Seq::empty()
    } else {
        like_escaped(s.drop_last()) + like_escaped_char(s.last())
    }
}

/// `s` without its ASCII spaces.
pub open spec fn without_spaces(s: Seq<char>) -> Seq<char>
    decreases s.len(),
{
    if s.len() == 0 {
        Seq::empty()
    } else if s.last() == ' ' {
        without_spaces(s.drop_last())
    } else {
        without_spaces(s.drop_last()).push(s.last())
    }
}

/// The `LIKE` pattern that finds `tag` as a whole element of the stored,
/// space-stripped, comma-separated tag list.
pub open spec fn tag_pattern(tag: Seq<char>) -> Seq<char> {
    seq!['%', ','] + like_escaped(without_spaces(trim_seq(tag))) + seq![',', '%']
}

/// Escape `\`, `%` and `_` so a value can be put in a SQL
/// `LIKE ... ESCAPE '\'` pattern and matched literally.
fn escape_like(input: &[char]) -> (out: Vec<char>)
    ensures
        out@ == like_escaped(input@),
{
    let mut out: Vec<char> = Vec::new();
    let mut i: usize = 0;
    assert(input@.take(0) =~= Seq::<char>::empty());
    while i < input.len()
        invariant
            i <= input@.len(),
            out@ == like_escaped(input@.take(i as int)),
        decreases input@.len() - i,
    {
        let c = input[i];
        assert(input@.take(i + 1).drop_last() =~= input@.take(i as int));
        let ghost before = out@;
        if c == '\\' || c == '%' || c == '_' {
            out.push('\\');
        }
        out.push(c);
        assert(out@ =~= before + like_escaped_char(c));
        i = i + 1;
    }
    assert(input@.take(input@.len() as int) =~= input@);
    out
}

fn remove_spaces(input: &[char]) -> (out: Vec<char>)
    ensures
        out@ == without_spaces(input@),
{
    let mut out: Vec<char> = Vec::new();
    let mut i: usize = 0;
    assert(input@.take(0) =~= Seq::<char>::empty());
    while i < input.len()
        invariant
            i <= input@.len(),
            out@ == without_spaces(input@.take(i as int)),
        decreases input@.len() - i,
    {
        assert(input@.take(i + 1).drop_last() =~= input@.take(i as int));
        if input[i] != ' ' {
            out.push(input[i]);
        }
        i = i + 1;
    }
    assert(input@.take(input@.len() as int) =~= input@);
    out
}

/// The `LIKE` pattern for a tag filter (see [`tag_pattern`]).
pub fn tag_like_pattern(tag: &str) -> (p: String)
    ensures
        p@ == tag_pattern(tag@),
{
    let cs = chars_of(tag);
    let trimmed = trim_chars(cs.as_slice());
    let compact = remove_spaces(trimmed.as_slice());
    let escaped = escape_like(compact.as_slice());
    let mut p = String::new();
    p.push('%');
    p.push(',');
    let mid = string_from_chars(escaped.as_slice());
    p.append(mid.as_str());
    p.push(',');
    p.push('%');
    assert(p@ =~= tag_pattern(tag@));
    p
}

/// A clause bound to at most one value, present only when `value` is.
pub open spec fn optional_clause(clause: Seq<char>, value: Option<String>) -> (Seq<char>, Seq<SqlArg>) {
    match value {
        Some(v) => (clause, seq![SqlArg::Text(v@)]),
        None => (Seq::empty(), Seq::empty()),
    }
}

/// The status condition: an explicit status, or else (unless `all`) every
/// status but `done`.
pub open spec fn status_clause(f: ListFilter) -> (Seq<char>, Seq<SqlArg>) {
    match f.status {
        Some(s) => (STATUS_EQ@, seq![SqlArg::Text(s@)]),
        None => if f.all {
            (Seq::empty(), Seq::empty())
        } else {
            (NOT_DONE@, Seq::empty())
        },
    }
}

pub open spec fn tag_clause(f: ListFilter) -> (Seq<char>, Seq<SqlArg>) {
    match f.tag {
        Some(t) => (TAG_LIKE@, seq![SqlArg::Text(tag_pattern(t@))]),
        None => (Seq::empty(), Seq::empty()),
    }
}

/// The SQL text of the `list` query for `f`.
pub open spec fn list_sql(f: ListFilter) -> Seq<char> {
    SELECT_TASKS@ + LIST_WHERE@ + status_clause(f).0 + optional_clause(ASSIGNED_EQ@, f.assigned).0
        + optional_clause(PRIORITY_EQ@, f.priority).0 + tag_clause(f).0 + LIST_ORDER@
}

/// The values bound to the `list` query for `f`, in placeholder order.
pub open spec fn list_args(f: ListFilter) -> Seq<SqlArg> {
    status_clause(f).1 + optional_clause(ASSIGNED_EQ@, f.assigned).1 + optional_clause(
        PRIORITY_EQ@,
        f.priority,
    ).1 + tag_clause(f).1
}

fn add_optional_clause(
    sql: &mut String,
    args: &mut Vec<SqlValue>,
    clause: &str,
    value: &Option<String>,
)
    ensures
        final(sql)@ == old(sql)@ + optional_clause(clause@, *value).0,
        args_view(final(args)@) == args_view(old(args)@) + optional_clause(clause@, *value).1,
{
    match value {
        Some(v) => {
            sql.append(clause);
            args.push(SqlValue::Text(v.clone()));
            assert(args_view(args@) =~= args_view(old(args)@) + seq![SqlArg::Text(v@)]);
        },
        None => {
            assert(sql@ =~= old(sql)@ + Seq::<char>::empty());
            assert(args_view(args@) =~= args_view(old(args)@) + Seq::<SqlArg>::empty());
        },
    }
}

/// The SQL text and bound values of the `list` query: tasks matching every
/// given filter, `done` tasks hidden unless a status is given or `all` is
/// set, ordered by priority (urgent first) and then by id.
pub fn list_query(filter: &ListFilter) -> (r: (String, Vec<SqlValue>))
    ensures
        r.0@ == list_sql(*filter),
        args_view(r.1@) == list_args(*filter),
{
    let mut sql = String::from_str(SELECT_TASKS);
    sql.append(LIST_WHERE);
    let mut args: Vec<SqlValue> = Vec::new();
    match &filter.status {
        Some(s) => {
            sql.append(STATUS_EQ);
            args.push(SqlValue::Text(s.clone()));
        },
        None => {
            if !filter.all {
                sql.append(NOT_DONE);
            }
        },
    }
    assert(sql@ =~= SELECT_TASKS@ + LIST_WHERE@ + status_clause(*filter).0);
    assert(args_view(args@) =~= status_clause(*filter).1);
    add_optional_clause(&mut sql, &mut args, ASSIGNED_EQ, &filter.assigned);
    add_optional_clause(&mut sql, &mut args, PRIORITY_EQ, &filter.priority);
    let ghost before = args_view(args@);
    match &filter.tag {
        Some(t) => {
            sql.append(TAG_LIKE);
            args.push(SqlValue::Text(tag_like_pattern(t.as_str())));
            assert(args_view(args@) =~= before + tag_clause(*filter).1);
        },
        None => {
            assert(args_view(args@) =~= before + tag_clause(*filter).1);
        },
    }
    sql.append(LIST_ORDER);
    assert(sql@ =~= list_sql(*filter));
    assert(args_view(args@) =~= list_args(*filter));
    (sql, args)
}


pub const UPDATE_HEAD: &'static str = "UPDATE tasks SET updated_at = ?";

pub const UPDATE_TAIL: &'static str = " WHERE id = ?";

pub const SET_SEPARATOR: &'static str = ", ";

pub const SET_PLACEHOLDER: &'static str = " = ?";

/// The `, column = ?` assignment for a field that is being changed.
pub open spec fn assignment(column: Seq<char>, value: Option<Seq<char>>) -> (Seq<char>, Seq<SqlArg>) {
    match value {
        Some(v) => (SET_SEPARATOR@ + column + SET_PLACEHOLDER@, seq![SqlArg::Text(v)]),
        None => (Seq::empty(), Seq::empty()),
    }
}

/// The SQL text of the update: `updated_at` always, then each given field
/// in the order title, description, status, priority, assigned_agent, tags,
/// due_date.
pub open spec fn update_sql(
    title: Option<Seq<char>>,
    description: Option<Seq<char>>,
    status: Option<Seq<char>>,
    priority: Option<Seq<char>>,
    assigned: Option<Seq<char>>,
    tags: Option<Seq<char>>,
    due: Option<Seq<char>>,
) -> Seq<char> {
    UPDATE_HEAD@ + assignment("title"@, title).0 + assignment("description"@, description).0
        + assignment("status"@, status).0 + assignment("priority"@, priority).0 + assignment(
        "assigned_agent"@,
        assigned,
    ).0 + assignment("tags"@, tags).0 + assignment("due_date"@, due).0 + UPDATE_TAIL@
}

/// The values bound to the update: the timestamp, the given fields in
/// order, then the id.
pub open spec fn update_args(
    id: i64,
    title: Option<Seq<char>>,
    description: Option<Seq<char>>,
    status: Option<Seq<char>>,
    priority: Option<Seq<char>>,
    assigned: Option<Seq<char>>,
    tags: Option<Seq<char>>,
    due: Option<Seq<char>>,
    now: Seq<char>,
) -> Seq<SqlArg> {
    seq![SqlArg::Text(now)] + assignment("title"@, title).1 + assignment("description"@, description).1
        + assignment("status"@, status).1 + assignment("priority"@, priority).1 + assignment(
        "assigned_agent"@,
        assigned,
    ).1 + assignment("tags"@, tags).1 + assignment("due_date"@, due).1 + seq![SqlArg::Integer(id)]
}

fn add_assignment(sql: &mut String, args: &mut Vec<SqlValue>, column: &str, value: Option<&str>)
    ensures
        final(sql)@ == old(sql)@ + assignment(column@, opt_str(value)).0,
        args_view(final(args)@) == args_view(old(args)@) + assignment(column@, opt_str(value)).1,
{
    match value {
        Some(v) => {
            sql.append(SET_SEPARATOR);
            sql.append(column);
            sql.append(SET_PLACEHOLDER);
            args.push(SqlValue::Text(String::from_str(v)));
            assert(sql@ =~= old(sql)@ + assignment(column@, opt_str(value)).0);
            assert(args_view(args@) =~= args_view(old(args)@) + seq![SqlArg::Text(v@)]);
        },
        None => {
            assert(sql@ =~= old(sql)@ + Seq::<char>::empty());
            assert(args_view(args@) =~= args_view(old(args)@) + Seq::<SqlArg>::empty());
        },
    }
}

/// The SQL text and bound values of an update that sets `updated_at` to
/// `now` and changes only the given fields of task `id`.
pub fn update_query(
    id: i64,
    title: Option<&str>,
    description: Option<&str>,
    status: Option<&str>,
    priority: Option<&str>,
    assigned: Option<&str>,
    tags: Option<&str>,
    due: Option<&str>,
    now: &str,
) -> (r: (String, Vec<SqlValue>))
    ensures
        r.0@ == update_sql(
            opt_str(title),
            opt_str(description),
            opt_str(status),
            opt_str(priority),
            opt_str(assigned),
            opt_str(tags),
            opt_str(due),
        ),
        args_view(r.1@) == update_args(
            id,
            opt_str(title),
            opt_str(description),
            opt_str(status),
            opt_str(priority),
            opt_str(assigned),
            opt_str(tags),
            opt_str(due),
            now@,
        ),
{
    let mut sql = String::from_str(UPDATE_HEAD);
    let mut args: Vec<SqlValue> = Vec::new();
    args.push(SqlValue::Text(String::from_str(now)));
    assert(args_view(args@) =~= seq![SqlArg::Text(now@)]);
    add_assignment(&mut sql, &mut args, "title", title);
    add_assignment(&mut sql, &mut args, "description", description);
    add_assignment(&mut sql, &mut args, "status", status);
    add_assignment(&mut sql, &mut args, "priority", priority);
    add_assignment(&mut sql, &mut args, "assigned_agent", assigned);
    add_assignment(&mut sql, &mut args, "tags", tags);
    add_assignment(&mut sql, &mut args, "due_date", due);
    sql.append(UPDATE_TAIL);
    let ghost before = args_view(args@);
    args.push(SqlValue::Integer(id));
    assert(args_view(args@) =~= before + seq![SqlArg::Integer(id)]);
    (sql, args)
}

fn text_value(s: &str) -> (v: SqlValue)
    ensures
        v@ == SqlArg::Text(s@),
{
    SqlValue::Text(String::from_str(s))
}

fn text_or_null_value(o: Option<&str>) -> (v: SqlValue)
    ensures
        v@ == text_or_null(opt_str(o)),
{
    match o {
        Some(s) => text_value(s),
        None => SqlValue::Null,
    }
}

/// The values bound to [`INSERT_SQL`]: `?1` title, `?2` description, `?3`
/// status, `?4` priority, `?5` assigned agent, `?6` tags, `?7` the creation
/// (and update) time, `?8` due date; absent optional fields are NULL.
pub open spec fn insert_args(
    title: Seq<char>,
    description: Option<Seq<char>>,
    status: Seq<char>,
    priority: Seq<char>,
    assigned: Option<Seq<char>>,
    tags: Option<Seq<char>>,
    due: Option<Seq<char>>,
    now: Seq<char>,
) -> Seq<SqlArg> {
    seq![
        SqlArg::Text(title),
        text_or_null(description),
        SqlArg::Text(status),
        SqlArg::Text(priority),
        text_or_null(assigned),
        text_or_null(tags),
        SqlArg::Text(now),
        text_or_null(due),
    ]
}

pub fn insert_values(
    title: &str,
    description: Option<&str>,
    status: &str,
    priority: &str,
    assigned: Option<&str>,
    tags: Option<&str>,
    due: Option<&str>,
    now: &str,
) -> (v: Vec<SqlValue>)
    ensures
        args_view(v@) == insert_args(
            title@,
            opt_str(description),
            status@,
            priority@,
            opt_str(assigned),
            opt_str(tags),
            opt_str(due),
            now@,
        ),
{
    let mut v: Vec<SqlValue> = Vec::new();
    v.push(text_value(title));
    v.push(text_or_null_value(description));
    v.push(text_value(status));
    v.push(text_value(priority));
    v.push(text_or_null_value(assigned));
    v.push(text_or_null_value(tags));
    v.push(text_value(now));
    v.push(text_or_null_value(due));
    assert(args_view(v@) =~= insert_args(
        title@,
        opt_str(description),
        status@,
        priority@,
        opt_str(assigned),
        opt_str(tags),
        opt_str(due),
        now@,
    ));
    v
}

#[verifier::external_type_specification]
#[verifier::external_body]
pub struct ExRow<'stmt>(rusqlite::Row<'stmt>);

/// The ten columns of a `tasks` row, in [`SELECT_TASKS`] order.
pub type TaskColumns = (
    i64,
    String,
    Option<String>,
    String,
    String,
    Option<String>,
    Option<String>,
    String,
    String,
    Option<String>,
);

/// Calls `rusqlite::Row::get` for each of the ten columns, in order.
/// Nothing is claimed of the values, which come from the database.
#[verifier::external_body]
fn read_columns(row: &rusqlite::Row) -> Result<TaskColumns, rusqlite::Error> {
    Ok((
        row.get(0)?, row.get(1)?, row.get(2)?, row.get(3)?, row.get(4)?,
        row.get(5)?, row.get(6)?, row.get(7)?, row.get(8)?, row.get(9)?,
    ))
}

pub open spec fn task_from_columns_spec(c: TaskColumns) -> Task {
    Task {
        id: c.0,
        title: c.1,
        description: c.2,
        status: c.3,
        priority: c.4,
        assigned_agent: c.5,
        tags: c.6,
        created_at: c.7,
        updated_at: c.8,
        due_date: c.9,
    }
}

/// The task a row holds, column by column.
pub fn task_from_columns(c: TaskColumns) -> (t: Task)
    ensures
        t == task_from_columns_spec(c),
{
    Task {
        id: c.0,
        title: c.1,
        description: c.2,
        status: c.3,
        priority: c.4,
        assigned_agent: c.5,
        tags: c.6,
        created_at: c.7,
        updated_at: c.8,
        due_date: c.9,
    }
}

/// Reads a task from a row of a query over the columns of [`SELECT_TASKS`].
fn row_to_task(row: &rusqlite::Row) -> Result<Task, rusqlite::Error> {
    let columns = read_columns(row)?;
    Ok(task_from_columns(columns))
}

/// The first task of a query's result, if there is one.
pub fn first_task(rows: Vec<Task>) -> (t: Option<Task>)
    ensures
        t is Some <==> rows@.len() > 0,
        t matches Some(x) ==> x == rows@[0],
{
    let mut rows = rows;
    if rows.len() == 0 {
        None
    } else {
        Some(rows.swap_remove(0))
    }
}

/// The task read back after an insert, or the error for a row that could
/// not be read back.
pub fn inserted_task(found: Option<Task>) -> (r: Result<Task, TaskError>)
    ensures
        found matches Some(t) ==> (r matches Ok(u) && u == t),
        found is None ==> r matches Err(TaskError::InsertedTaskMissing),
{
    match found {
        Some(t) => Ok(t),
        None => Err(TaskError::InsertedTaskMissing),
    }
}

/// Converts bound values to `rusqlite` values, one for one (`Null`,
/// `Integer`, `Text`). The result is opaque to the proofs.
#[verifier::external_body]
fn to_sqlite_values(args: &[SqlValue]) -> Vec<rusqlite::types::Value> {
    args.iter().map(|a| match a {
        SqlValue::Null => rusqlite::types::Value::Null,
        SqlValue::Integer(i) => rusqlite::types::Value::Integer(*i),
        SqlValue::Text(s) => rusqlite::types::Value::Text(s.clone()),
    }).collect()
}

/// The statements this library writes with: the insert, the delete by id,
/// and an update of some set of fields.
pub open spec fn is_write_statement(sql: Seq<char>) -> bool {
    ||| sql == INSERT_SQL@
    ||| sql == DELETE_SQL@
    ||| exists|t: Option<Seq<char>>, d: Option<Seq<char>>, s: Option<Seq<char>>, p: Option<Seq<char>>,
        a: Option<Seq<char>>, g: Option<Seq<char>>, u: Option<Seq<char>>|
        sql == #[trigger] update_sql(t, d, s, p, a, g, u)
}

/// The queries this library reads tasks with: one task by id, or a list.
pub open spec fn is_read_query(sql: Seq<char>) -> bool {
    ||| sql == get_sql()
    ||| exists|f: ListFilter| sql == #[trigger] list_sql(f)
}

/// Calls `rusqlite::Connection::execute_batch`. Nothing is claimed of the
/// outcome, which depends on the database's state; callers may only run
/// the schema.
#[verifier::external_body]
fn sql_execute_batch(conn: &rusqlite::Connection, sql: &str) -> Result<(), rusqlite::Error>
    requires
        sql@ == SCHEMA_SQL@,
{
    conn.execute_batch(sql)
}

/// Calls `rusqlite::Connection::execute` with `values` bound in order.
/// Nothing is claimed of the outcome (the number of changed rows, or an
/// error), which depends on the database's state.
#[verifier::external_body]
fn sql_execute(
    conn: &rusqlite::Connection,
    sql: &str,
    values: Vec<rusqlite::types::Value>,
) -> Result<usize, rusqlite::Error>
    requires
        is_write_statement(sql@),
{
    conn.execute(sql, rusqlite::params_from_iter(values))
}

/// Calls `rusqlite::Connection::prepare` and `Statement::query_map` with
/// `values` bound in order, reading each row with the verified
/// `row_to_task`. Nothing is claimed of the rows, which depend on the
/// database's state.
#[verifier::external_body]
fn sql_query_tasks(
    conn: &rusqlite::Connection,
    sql: &str,
    values: Vec<rusqlite::types::Value>,
) -> Result<Vec<Task>, rusqlite::Error>
    requires
        is_read_query(sql@),
{
    let mut stmt = conn.prepare(sql)?;
    let rows = stmt.query_map(rusqlite::params_from_iter(values), |r| row_to_task(r))?;
    rows.collect()
}

/// Calls `rusqlite::Connection::last_insert_rowid`. Nothing is claimed of
/// the id, which depends on the database's state.
#[verifier::external_body]
fn sql_last_insert_rowid(conn: &rusqlite::Connection) -> i64 {
    conn.last_insert_rowid()
}

/// Creates the `tasks` table and its indexes unless they exist.
pub fn init_schema(conn: &rusqlite::Connection) -> (r: Result<(), TaskError>)
    ensures
        r is Err ==> r matches Err(TaskError::Database(_)),
{
    match sql_execute_batch(conn, SCHEMA_SQL) {
        Ok(()) => Ok(()),
        Err(e) => Err(TaskError::Database(e)),
    }
}

/// The values bound to a statement keyed by one task id (`?1`).
pub open spec fn by_id_args(id: i64) -> Seq<SqlArg> {
    seq![SqlArg::Integer(id)]
}

/// The SQL text of the query for one task: [`SELECT_TASKS`] restricted by
/// [`GET_BY_ID`].
pub open spec fn get_sql() -> Seq<char> {
    SELECT_TASKS@ + GET_BY_ID@
}

/// The bound values of a statement keyed by task `id`.
pub fn by_id_values(id: i64) -> (v: Vec<SqlValue>)
    ensures
        args_view(v@) == by_id_args(id),
{
    let mut v: Vec<SqlValue> = Vec::new();
    v.push(SqlValue::Integer(id));
    assert(args_view(v@) =~= by_id_args(id));
    v
}

/// The SQL text and bound values of the query for task `id`.
pub fn get_query(id: i64) -> (r: (String, Vec<SqlValue>))
    ensures
        r.0@ == get_sql(),
        args_view(r.1@) == by_id_args(id),
{
    let mut sql = String::from_str(SELECT_TASKS);
    sql.append(GET_BY_ID);
    (sql, by_id_values(id))
}

/// The task of a query by id: its first row, when that row has the id.
pub fn task_with_id(found: Option<Task>, id: i64) -> (r: Option<Task>)
    ensures
        r matches Some(t) ==> t.id == id,
        found matches Some(t) && t.id == id ==> r == found,
        (found matches Some(t) && t.id != id) || found is None ==> r is None,
{
    match found {
        Some(t) => if t.id == id {
            Some(t)
        } else {
            None
        },
        None => None,
    }
}

/// Reads the task with the given id, if it exists: the first row of
/// [`get_query`]. A task it returns has that id.
pub fn get_task(conn: &rusqlite::Connection, id: i64) -> (r: Result<Option<Task>, TaskError>)
    ensures
        r is Err ==> r matches Err(TaskError::Database(_)),
        r matches Ok(Some(t)) ==> t.id == id,
{
    let (sql, args) = get_query(id);
    match sql_query_tasks(conn, sql.as_str(), to_sqlite_values(args.as_slice())) {
        Ok(rows) => Ok(task_with_id(first_task(rows), id)),
        Err(e) => Err(TaskError::Database(e)),
    }
}

/// A stored task holds exactly the values an insert gave it, with `now` as
/// its creation and update time.
pub open spec fn holds_inserted(
    t: Task,
    title: Seq<char>,
    description: Option<Seq<char>>,
    status: Seq<char>,
    priority: Seq<char>,
    assigned: Option<Seq<char>>,
    tags: Option<Seq<char>>,
    due: Option<Seq<char>>,
    now: Seq<char>,
) -> bool {
    &&& t.title@ == title
    &&& opt_chars(t.description) == description
    &&& t.status@ == status
    &&& t.priority@ == priority
    &&& opt_chars(t.assigned_agent) == assigned
    &&& opt_chars(t.tags) == tags
    &&& opt_chars(t.due_date) == due
    &&& t.created_at@ == now
    &&& t.updated_at@ == now
}

/// A stored task of id `id` holds every value an update gave (a `None`
/// leaves a field free), with `now` as its update time.
pub open spec fn holds_updated(
    t: Task,
    id: i64,
    title: Option<Seq<char>>,
    description: Option<Seq<char>>,
    status: Option<Seq<char>>,
    priority: Option<Seq<char>>,
    assigned: Option<Seq<char>>,
    tags: Option<Seq<char>>,
    due: Option<Seq<char>>,
    now: Seq<char>,
) -> bool {
    &&& t.id == id
    &&& (title matches Some(x) ==> t.title@ == x)
    &&& (description is Some ==> opt_chars(t.description) == description)
    &&& (status matches Some(x) ==> t.status@ == x)
    &&& (priority matches Some(x) ==> t.priority@ == x)
    &&& (assigned is Some ==> opt_chars(t.assigned_agent) == assigned)
    &&& (tags is Some ==> opt_chars(t.tags) == tags)
    &&& (due is Some ==> opt_chars(t.due_date) == due)
    &&& t.updated_at@ == now
}

fn same_opt_text(stored: &Option<String>, given: Option<&str>) -> (r: bool)
    ensures
        r == (opt_chars(*stored) == opt_str(given)),
{
    match stored {
        Some(a) => match given {
            Some(b) => str_eq(a.as_str(), b),
            None => false,
        },
        None => given.is_none(),
    }
}

fn text_if_given(stored: &String, given: Option<&str>) -> (r: bool)
    ensures
        r == (opt_str(given) matches Some(x) ==> stored@ == x),
{
    match given {
        Some(b) => str_eq(stored.as_str(), b),
        None => true,
    }
}

fn opt_text_if_given(stored: &Option<String>, given: Option<&str>) -> (r: bool)
    ensures
        r == (opt_str(given) is Some ==> opt_chars(*stored) == opt_str(given)),
{
    match given {
        Some(_) => same_opt_text(stored, given),
        None => true,
    }
}

/// Whether a task read back holds what an insert gave it.
fn is_as_inserted(
    t: &Task,
    title: &str,
    description: Option<&str>,
    status: &str,
    priority: &str,
    assigned: Option<&str>,
    tags: Option<&str>,
    due: Option<&str>,
    now: &str,
) -> (b: bool)
    ensures
        b == holds_inserted(
            *t,
            title@,
            opt_str(description),
            status@,
            priority@,
            opt_str(assigned),
            opt_str(tags),
            opt_str(due),
            now@,
        ),
{
    str_eq(t.title.as_str(), title) && same_opt_text(&t.description, description) && str_eq(
        t.status.as_str(),
        status,
    ) && str_eq(t.priority.as_str(), priority) && same_opt_text(&t.assigned_agent, assigned)
        && same_opt_text(&t.tags, tags) && same_opt_text(&t.due_date, due) && str_eq(
        t.created_at.as_str(),
        now,
    ) && str_eq(t.updated_at.as_str(), now)
}

/// Whether a task read back holds what an update gave it.
fn is_as_updated(
    t: &Task,
    id: i64,
    title: Option<&str>,
    description: Option<&str>,
    status: Option<&str>,
    priority: Option<&str>,
    assigned: Option<&str>,
    tags: Option<&str>,
    due: Option<&str>,
    now: &str,
) -> (b: bool)
    ensures
        b == holds_updated(
            *t,
            id,
            opt_str(title),
            opt_str(description),
            opt_str(status),
            opt_str(priority),
            opt_str(assigned),
            opt_str(tags),
            opt_str(due),
            now@,
        ),
{
    t.id == id && text_if_given(&t.title, title) && opt_text_if_given(&t.description, description)
        && text_if_given(&t.status, status) && text_if_given(&t.priority, priority)
        && opt_text_if_given(&t.assigned_agent, assigned) && opt_text_if_given(&t.tags, tags)
        && opt_text_if_given(&t.due_date, due) && str_eq(t.updated_at.as_str(), now)
}

/// Inserts a task and returns it as stored; a row that cannot be read back
/// as it was inserted (another writer changed it in between) is reported
/// as [`TaskError::InsertedTaskMissing`].
pub fn add_task(
    conn: &rusqlite::Connection,
    title: &str,
    description: Option<&str>,
    status: &str,
    priority: &str,
    assigned: Option<&str>,
    tags: Option<&str>,
    due: Option<&str>,
    now: &str,
) -> (r: Result<Task, TaskError>)
    ensures
        r is Err ==> (r matches Err(TaskError::Database(_)) || r matches Err(
            TaskError::InsertedTaskMissing,
        )),
        r matches Ok(t) ==> holds_inserted(
            t,
            title@,
            opt_str(description),
            status@,
            priority@,
            opt_str(assigned),
            opt_str(tags),
            opt_str(due),
            now@,
        ),
{
    let args = insert_values(title, description, status, priority, assigned, tags, due, now);
    match sql_execute(conn, INSERT_SQL, to_sqlite_values(args.as_slice())) {
        Ok(_) => {},
        Err(e) => {
            return Err(TaskError::Database(e));
        },
    }
    let id = sql_last_insert_rowid(conn);
    let found = get_task(conn, id)?;
    let t = inserted_task(found)?;
    if is_as_inserted(&t, title, description, status, priority, assigned, tags, due, now) {
        Ok(t)
    } else {
        Err(TaskError::InsertedTaskMissing)
    }
}

/// The tasks matching `filter` (see [`list_query`]).
pub fn list_tasks(conn: &rusqlite::Connection, filter: &ListFilter) -> (r: Result<Vec<Task>, TaskError>)
    ensures
        r is Err ==> r matches Err(TaskError::Database(_)),
{
    let (sql, args) = list_query(filter);
    match sql_query_tasks(conn, sql.as_str(), to_sqlite_values(args.as_slice())) {
        Ok(tasks) => Ok(tasks),
        Err(e) => Err(TaskError::Database(e)),
    }
}

/// Changes only the given fields of task `id` (and its `updated_at`), then
/// reads it back; `None` when no such task exists, or when it cannot be
/// read back holding the given values (another writer changed it in
/// between).
pub fn update_task(
    conn: &rusqlite::Connection,
    id: i64,
    title: Option<&str>,
    description: Option<&str>,
    status: Option<&str>,
    priority: Option<&str>,
    assigned: Option<&str>,
    tags: Option<&str>,
    due: Option<&str>,
    now: &str,
) -> (r: Result<Option<Task>, TaskError>)
    ensures
        r is Err ==> r matches Err(TaskError::Database(_)),
        r matches Ok(Some(t)) ==> holds_updated(
            t,
            id,
            opt_str(title),
            opt_str(description),
            opt_str(status),
            opt_str(priority),
            opt_str(assigned),
            opt_str(tags),
            opt_str(due),
            now@,
        ),
{
    let (sql, args) = update_query(id, title, description, status, priority, assigned, tags, due, now);
    match sql_execute(conn, sql.as_str(), to_sqlite_values(args.as_slice())) {
        Ok(_) => {},
        Err(e) => {
            return Err(TaskError::Database(e));
        },
    }
    match get_task(conn, id)? {
        Some(t) => if is_as_updated(&t, id, title, description, status, priority, assigned, tags, due, now) {
            Ok(Some(t))
        } else {
            Ok(None)
        },
        None => Ok(None),
    }
}

/// Sets the status of task `id` to `done` (an update of that one field).
pub fn complete_task(conn: &rusqlite::Connection, id: i64, now: &str) -> (r: Result<
    Option<Task>,
    TaskError,
>)
    ensures
        r is Err ==> r matches Err(TaskError::Database(_)),
        r matches Ok(Some(t)) ==> t.id == id && t.status@ == "done"@ && t.updated_at@ == now@,
{
    update_task(conn, id, None, None, Some("done"), None, None, None, None, now)
}

/// Whether a delete removed a row, given the number of rows SQLite
/// reports as changed.
pub fn removed_any(affected: usize) -> (b: bool)
    ensures
        b == (affected > 0),
{
    affected > 0
}

/// Deletes task `id` ([`DELETE_SQL`] with [`by_id_values`] bound);
/// whether a row was removed.
pub fn delete_task(conn: &rusqlite::Connection, id: i64) -> (r: Result<bool, TaskError>)
    ensures
        r is Err ==> r matches Err(TaskError::Database(_)),
{
    let args = by_id_values(id);
    match sql_execute(conn, DELETE_SQL, to_sqlite_values(args.as_slice())) {
        Ok(affected) => Ok(removed_any(affected)),
        Err(e) => Err(TaskError::Database(e)),
    }
}


/// The extended result code that `rusqlite::Error::sqlite_extended_error_code`
/// gives for an error: that of a `SqliteFailure`, else none.
pub uninterp spec fn sqlite_extended_code_of(e: rusqlite::Error) -> Option<i32>;

/// `rusqlite::Error::sqlite_extended_error_code`: the extended result code
/// of an error that SQLite itself reported. Claimed: the result is a
/// function of the error value alone (the source reads the `extended_code`
/// field of a `SqliteFailure` and gives `None` for every other variant);
/// which code that is, is not stated.
pub assume_specification[ rusqlite::Error::sqlite_extended_error_code ](e: &rusqlite::Error) -> (r: Option<i32>)
    ensures
        r == sqlite_extended_code_of(*e),
;

/// SQLite's primary result codes for a busy database and a locked table.
pub const SQLITE_BUSY: i32 = 5;
pub const SQLITE_LOCKED: i32 = 6;

/// Whether an extended result code denotes `SQLITE_BUSY` or `SQLITE_LOCKED`
/// (its primary code is its low byte).
pub open spec fn is_busy_or_locked(code: Option<i32>) -> bool {
    match code {
        Some(c) => (c & 0xff) == SQLITE_BUSY || (c & 0xff) == SQLITE_LOCKED,
        None => false,
    }
}

/// Whether an extended result code denotes `SQLITE_BUSY` or `SQLITE_LOCKED`.
pub fn busy_or_locked_code(code: Option<i32>) -> (b: bool)
    ensures
        b == is_busy_or_locked(code),
{
    match code {
        Some(c) => (c & 0xff) == SQLITE_BUSY || (c & 0xff) == SQLITE_LOCKED,
        None => false,
    }
}

/// Whether `err` is the transient `SQLITE_BUSY`/`SQLITE_LOCKED` condition
/// that opening a database may retry on; any other error is not. The
/// decision on the code SQLite reported is [`busy_or_locked_code`].
pub fn is_transient_busy(err: &rusqlite::Error) -> (b: bool)
    ensures
        b == is_busy_or_locked(sqlite_extended_code_of(*err)),
{
    let code = err.sqlite_extended_error_code();
    busy_or_locked_code(code)
}

/// Number of attempts at opening the database before giving up on a
/// transient busy/locked error.
pub const OPEN_DB_MAX_ATTEMPTS: u32 = 5;

/// What to do after a failed attempt at opening the database.
#[derive(Debug, PartialEq, Eq, Structural)]
pub enum OpenRetry {
    /// Wait this many milliseconds, then try again.
    RetryAfterMillis(u64),
    /// Report the error.
    GiveUp,
}

/// The retry rule for opening the database: after the failed attempt
/// number `attempt` (from 0), retry only on a transient busy/locked error
/// and only while attempts remain, waiting 50 ms times the attempt count.
pub open spec fn open_retry_spec(attempt: u32, transient: bool) -> OpenRetry {
    if transient && attempt + 1 < OPEN_DB_MAX_ATTEMPTS {
        OpenRetry::RetryAfterMillis((50 * (attempt + 1)) as u64)
    } else {
        OpenRetry::GiveUp
    }
}

pub fn open_retry(attempt: u32, transient: bool) -> (r: OpenRetry)
    ensures
        r == open_retry_spec(attempt, transient),
{
    if transient && attempt < OPEN_DB_MAX_ATTEMPTS - 1 {
        OpenRetry::RetryAfterMillis(50 * (attempt as u64 + 1))
    } else {
        OpenRetry::GiveUp
    }
}

/// Opening is attempted at most [`OPEN_DB_MAX_ATTEMPTS`] times, and each
/// wait is longer than the one before.
pub proof fn open_retry_is_bounded(attempt: u32, transient: bool)
    ensures
        attempt + 1 >= OPEN_DB_MAX_ATTEMPTS ==> open_retry_spec(attempt, transient) == OpenRetry::GiveUp,
        !transient ==> open_retry_spec(attempt, transient) == OpenRetry::GiveUp,
        attempt > 0 && open_retry_spec(attempt, transient) is RetryAfterMillis ==> ({
            let prev = open_retry_spec((attempt - 1) as u32, transient);
            prev matches OpenRetry::RetryAfterMillis(p) && open_retry_spec(attempt, transient)
                matches OpenRetry::RetryAfterMillis(q) && p < q
        }),
{
}

/// The outcome of checking a database directory.
#[derive(Debug, PartialEq, Eq, Structural)]
pub enum DirTrust {
    Trusted,
    /// The path does not resolve to a directory.
    NotADirectory,
    /// Owned by another user and without the sticky bit.
    UntrustedOwner,
}

/// The sticky bit of a Unix mode.
pub const STICKY_BIT: u32 = 0o1000;

/// A resolved database directory is trusted when it is a directory owned by
/// the running user, or a shared directory carrying the sticky bit.
pub open spec fn dir_trust_spec(is_dir: bool, owner_uid: u32, running_uid: u32, mode: u32) -> DirTrust {
    if !is_dir {
        DirTrust::NotADirectory
    } else if owner_uid != running_uid && (mode & STICKY_BIT) == 0 {
        DirTrust::UntrustedOwner
    } else {
        DirTrust::Trusted
    }
}

/// Decides whether a resolved directory may hold the database, from its
/// metadata and the running user's id.
pub fn dir_trust(is_dir: bool, owner_uid: u32, running_uid: u32, mode: u32) -> (r: DirTrust)
    ensures
        r == dir_trust_spec(is_dir, owner_uid, running_uid, mode),
{
    if !is_dir {
        return DirTrust::NotADirectory;
    }
    let has_sticky_bit = mode & STICKY_BIT != 0;
    if owner_uid != running_uid && !has_sticky_bit {
        return DirTrust::UntrustedOwner;
    }
    DirTrust::Trusted
}

/// How the database file is opened.
#[derive(Debug, Clone, Copy, PartialEq, Eq, Structural)]
pub enum DbFilePlan {
    /// A symbolic link stands at the file's path: refuse to use it, since
    /// it may point anywhere.
    RefuseSymlink,
    /// No file yet: open (creating it), then restrict the new file to
    /// owner-only read and write.
    OpenNewRestricted,
    /// Open the existing file and leave its permissions as they are.
    OpenExisting,
}

pub open spec fn db_file_plan_spec(is_symlink: bool, exists: bool) -> DbFilePlan {
    if is_symlink {
        DbFilePlan::RefuseSymlink
    } else if !exists {
        DbFilePlan::OpenNewRestricted
    } else {
        DbFilePlan::OpenExisting
    }
}

/// Decides how to open the database file, given whether a symbolic link
/// stands at its path and whether a file exists there: a link is never
/// opened, and only a file this open creates has its permissions changed.
pub fn db_file_plan(is_symlink: bool, exists: bool) -> (r: DbFilePlan)
    ensures
        r == db_file_plan_spec(is_symlink, exists),
        r == DbFilePlan::RefuseSymlink <==> is_symlink,
        r == DbFilePlan::OpenNewRestricted ==> !exists,
{
    if is_symlink {
        DbFilePlan::RefuseSymlink
    } else if !exists {
        DbFilePlan::OpenNewRestricted
    } else {
        DbFilePlan::OpenExisting
    }
}

/// A step in preparing the directory that holds the database.
#[derive(Debug, Clone, Copy, PartialEq, Eq, Structural)]
pub enum DirStep {
    /// Look at the directory itself, without following a link there.
    ProbeDir,
    /// The directory is missing: look at its parent.
    ProbeParent,
    /// The parent exists: check that it may be trusted.
    CheckParent,
    /// Create the missing parents.
    CreateParents,
    /// Create the directory, owner-only (an existing one is accepted, since
    /// several processes may race to create it).
    CreateDir,
    /// Check that the directory, as it now stands, may be trusted.
    CheckDir,
    /// The directory is ready.
    Done,
    /// Preparing failed; the failure of the last step is reported.
    Failed,
}

/// How a step turned out.
#[derive(Debug, Clone, Copy, PartialEq, Eq, Structural)]
pub enum DirEvent {
    Succeeded,
    /// The path looked at does not exist.
    Missing,
    Failed,
}

/// The step after `step` turned out as `event`; `has_parent` says whether
/// the directory has a non-empty parent path to prepare.
pub open spec fn dir_step_spec(step: DirStep, event: DirEvent, has_parent: bool) -> DirStep {
    match step {
        DirStep::ProbeDir => match event {
            DirEvent::Succeeded => DirStep::CheckDir,
            DirEvent::Missing => if has_parent { DirStep::ProbeParent } else { DirStep::CreateDir },
            DirEvent::Failed => DirStep::Failed,
        },
        DirStep::ProbeParent => if event == DirEvent::Succeeded {
            DirStep::CheckParent
        } else {
            DirStep::CreateParents
        },
        DirStep::CheckParent => if event == DirEvent::Succeeded {
            DirStep::CreateParents
        } else {
            DirStep::Failed
        },
        DirStep::CreateParents => if event == DirEvent::Succeeded {
            DirStep::CreateDir
        } else {
            DirStep::Failed
        },
        DirStep::CreateDir => if event == DirEvent::Succeeded {
            DirStep::CheckDir
        } else {
            DirStep::Failed
        },
        DirStep::CheckDir => if event == DirEvent::Succeeded {
            DirStep::Done
        } else {
            DirStep::Failed
        },
        DirStep::Done => DirStep::Done,
        DirStep::Failed => DirStep::Failed,
    }
}

/// Decides the next step in preparing the database directory.
pub fn next_dir_step(step: DirStep, event: DirEvent, has_parent: bool) -> (r: DirStep)
    ensures
        r == dir_step_spec(step, event, has_parent),
{
    let ok = match event {
        DirEvent::Succeeded => true,
        _ => false,
    };
    match step {
        DirStep::ProbeDir => match event {
            DirEvent::Succeeded => DirStep::CheckDir,
            DirEvent::Missing => if has_parent {
                DirStep::ProbeParent
            } else {
                DirStep::CreateDir
            },
            DirEvent::Failed => DirStep::Failed,
        },
        DirStep::ProbeParent => if ok {
            DirStep::CheckParent
        } else {
            DirStep::CreateParents
        },
        DirStep::CheckParent => if ok {
            DirStep::CreateParents
        } else {
            DirStep::Failed
        },
        DirStep::CreateParents => if ok {
            DirStep::CreateDir
        } else {
            DirStep::Failed
        },
        DirStep::CreateDir => if ok {
            DirStep::CheckDir
        } else {
            DirStep::Failed
        },
        DirStep::CheckDir => if ok {
            DirStep::Done
        } else {
            DirStep::Failed
        },
        DirStep::Done => DirStep::Done,
        DirStep::Failed => DirStep::Failed,
    }
}

/// How many steps at most remain from `step`.
pub open spec fn dir_steps_left(step: DirStep) -> nat {
    match step {
        DirStep::ProbeDir => 6,
        DirStep::ProbeParent => 5,
        DirStep::CheckParent => 4,
        DirStep::CreateParents => 3,
        DirStep::CreateDir => 2,
        DirStep::CheckDir => 1,
        DirStep::Done => 0,
        DirStep::Failed => 0,
    }
}

/// Preparing the directory always ends, and it ends ready only right after
/// a trust check of the directory succeeded: an existing directory is
/// checked and nothing is created; a created one is checked again; an
/// existing parent is checked before anything is created under it.
pub proof fn dir_preparation_ends_checked(step: DirStep, event: DirEvent, has_parent: bool)
    ensures
        step != DirStep::Done && step != DirStep::Failed ==> dir_steps_left(
            dir_step_spec(step, event, has_parent),
        ) < dir_steps_left(step),
        dir_step_spec(step, event, has_parent) == DirStep::Done ==> step == DirStep::Done || (step
            == DirStep::CheckDir && event == DirEvent::Succeeded),
        step == DirStep::ProbeDir && event == DirEvent::Succeeded ==> dir_step_spec(step, event, has_parent)
            == DirStep::CheckDir,
        step == DirStep::CreateDir && event == DirEvent::Succeeded ==> dir_step_spec(step, event, has_parent)
            == DirStep::CheckDir,
        dir_step_spec(step, event, has_parent) == DirStep::CreateParents ==> step == DirStep::ProbeParent
            && event != DirEvent::Succeeded || step == DirStep::CheckParent && event == DirEvent::Succeeded,
{
}

/// The database path given by the environment, unless it is blank.
pub fn db_path_override(value: Option<&str>) -> (r: Option<String>)
    ensures
        match value {
            Some(p) => if crate::text::all_white_space(p@) {
                r is None
            } else {
                r matches Some(s) && s@ == p@
            },
            None => r is None,
        },
{
    match value {
        Some(p) => {
            let cs = chars_of(p);
            let t = trim_chars(cs.as_slice());
            proof {
                crate::text::lemma_trim_empty_iff_all_white_space(p@);
            }
            if t.len() == 0 {
                None
            } else {
                Some(String::from_str(p))
            }
        },
        None => None,
    }
}


/// The text a `LIKE ... ESCAPE '\'` pattern matches when it is free of
/// wildcards: each `\` takes the next character literally; `None` when the
/// pattern holds an unescaped `%` or `_`, or ends in a lone `\`.
pub open spec fn like_literal(p: Seq<char>) -> Option<Seq<char>>
    decreases p.len(),
{
    if p.len() == 0 {
        Some(Seq::empty())
    } else if p[0] == '\\' {
        if p.len() >= 2 {
            match like_literal(p.skip(2)) {
                Some(r) => Some(seq![p[1]] + r),
                None => None,
            }
        } else {
            None
        }
    } else if p[0] == '%' || p[0] == '_' {
        None
    } else {
        match like_literal(p.drop_first()) {
            Some(r) => Some(seq![p[0]] + r),
            None => None,
        }
    }
}

proof fn lemma_like_escaped_front(s: Seq<char>)
    requires
        s.len() > 0,
    ensures
        like_escaped(s) == like_escaped_char(s[0]) + like_escaped(s.drop_first()),
    decreases s.len(),
{
    if s.len() == 1 {
        assert(s.drop_last() =~= Seq::<char>::empty());
        assert(s.drop_first() =~= Seq::<char>::empty());
        assert(like_escaped(s) =~= like_escaped_char(s[0]) + like_escaped(s.drop_first()));
    } else {
        lemma_like_escaped_front(s.drop_last());
        assert(s.drop_last().drop_first() =~= s.drop_first().drop_last());
        assert(s.drop_first().last() == s.last());
        assert(like_escaped(s) =~= like_escaped_char(s[0]) + like_escaped(s.drop_first()));
    }
}

proof fn lemma_like_escaped_roundtrip(s: Seq<char>)
    ensures
        like_literal(like_escaped(s)) == Some(s),
    decreases s.len(),
{
    if s.len() == 0 {
        assert(like_escaped(s) =~= Seq::<char>::empty());
    } else {
        lemma_like_escaped_front(s);
        lemma_like_escaped_roundtrip(s.drop_first());
        let p = like_escaped(s);
        let rest = like_escaped(s.drop_first());
        let c = s[0];
        if c == '\\' || c == '%' || c == '_' {
            assert(p.skip(2) =~= rest);
        } else {
            assert(p.drop_first() =~= rest);
        }
        assert(seq![c] + s.drop_first() =~= s);
    }
}

/// The tag filter's pattern is `%,` and `,%` around a wildcard-free
/// pattern that matches exactly the trimmed, space-stripped tag: a `%` or
/// `_` in the tag never acts as a wildcard.
pub proof fn tag_pattern_matches_tag_literally(tag: Seq<char>)
    ensures
        tag_pattern(tag) == seq!['%', ','] + like_escaped(without_spaces(trim_seq(tag))) + seq![
            ',',
            '%',
        ],
        like_literal(like_escaped(without_spaces(trim_seq(tag)))) == Some(
            without_spaces(trim_seq(tag)),
        ),
{
    lemma_like_escaped_roundtrip(without_spaces(trim_seq(tag)));
}


/// The number of `?` placeholders in a SQL text.
pub open spec fn placeholders(s: Seq<char>) -> nat
    decreases s.len(),
{
    if s.len() == 0 {
        0
    } else {
        placeholders(s.drop_last()) + if s.last() == '?' {
            1nat
        } else {
            0nat
        }
    }
}

proof fn lemma_placeholders_add(a: Seq<char>, b: Seq<char>)
    ensures
        placeholders(a + b) == placeholders(a) + placeholders(b),
    decreases b.len(),
{
    if b.len() == 0 {
        assert(a + b =~= a);
    } else {
        lemma_placeholders_add(a, b.drop_last());
        assert((a + b).drop_last() =~= a + b.drop_last());
    }
}

proof fn lemma_placeholders_none(s: Seq<char>)
    requires
        forall|k: int| 0 <= k < s.len() ==> #[trigger] s[k] != '?',
    ensures
        placeholders(s) == 0,
    decreases s.len(),
{
    if s.len() > 0 {
        lemma_placeholders_none(s.drop_last());
    }
}

proof fn lemma_placeholders_one(s: Seq<char>, j: int)
    requires
        0 <= j < s.len(),
        s[j] == '?',
        forall|k: int| 0 <= k < s.len() && k != j ==> #[trigger] s[k] != '?',
    ensures
        placeholders(s) == 1,
{
    let a = s.take(j);
    let b = s.skip(j + 1);
    assert(s =~= a + seq!['?'] + b);
    lemma_placeholders_none(a);
    assert forall|k: int| 0 <= k < b.len() implies #[trigger] b[k] != '?' by {
        assert(b[k] == s[k + j + 1]);
    }
    lemma_placeholders_none(b);
    lemma_placeholders_add(a, seq!['?']);
    lemma_placeholders_add(a + seq!['?'], b);
    assert(placeholders(seq!['?']) == 1) by {
        assert(seq!['?'].drop_last() =~= Seq::<char>::empty());
        assert(placeholders(Seq::<char>::empty()) == 0);
    }
}

proof fn lemma_list_literals()
    ensures
        placeholders(SELECT_TASKS@) == 0,
        placeholders(LIST_WHERE@) == 0,
        placeholders(NOT_DONE@) == 0,
        placeholders(LIST_ORDER@) == 0,
        placeholders(STATUS_EQ@) == 1,
        placeholders(ASSIGNED_EQ@) == 1,
        placeholders(PRIORITY_EQ@) == 1,
        placeholders(TAG_LIKE@) == 1,
{
    reveal_strlit("SELECT id, title, description, status, priority, assigned_agent, tags, created_at, updated_at, due_date FROM tasks");
    reveal_strlit(" WHERE 1=1");
    reveal_strlit(" AND status != 'done'");
    reveal_strlit(" ORDER BY CASE priority WHEN 'urgent' THEN 0 WHEN 'high' THEN 1 WHEN 'medium' THEN 2 WHEN 'low' THEN 3 ELSE 4 END, id ASC");
    reveal_strlit(" AND status = ?");
    reveal_strlit(" AND assigned_agent = ?");
    reveal_strlit(" AND priority = ?");
    reveal_strlit(" AND (',' || REPLACE(tags, ' ', '') || ',') LIKE ? ESCAPE '\\'");
    lemma_placeholders_none(SELECT_TASKS@);
    lemma_placeholders_none(LIST_WHERE@);
    lemma_placeholders_none(NOT_DONE@);
    lemma_placeholders_none(LIST_ORDER@);
    lemma_placeholders_one(STATUS_EQ@, STATUS_EQ@.len() - 1);
    lemma_placeholders_one(ASSIGNED_EQ@, ASSIGNED_EQ@.len() - 1);
    lemma_placeholders_one(PRIORITY_EQ@, PRIORITY_EQ@.len() - 1);
    lemma_placeholders_one(TAG_LIKE@, 49);
}

/// The queries keyed by a task id, to read it and to delete it, each have
/// exactly one placeholder, and one value is bound to it.
pub proof fn by_id_queries_bind_every_placeholder(id: i64)
    ensures
        placeholders(get_sql()) == by_id_args(id).len(),
        placeholders(DELETE_SQL@) == by_id_args(id).len(),
{
    lemma_list_literals();
    reveal_strlit(" WHERE id = ?1");
    reveal_strlit("DELETE FROM tasks WHERE id = ?1");
    lemma_placeholders_one(GET_BY_ID@, GET_BY_ID@.len() - 2);
    lemma_placeholders_one(DELETE_SQL@, DELETE_SQL@.len() - 2);
    lemma_placeholders_add(SELECT_TASKS@, GET_BY_ID@);
}

/// `s` ends with `tail`.
pub open spec fn ends_with(s: Seq<char>, tail: Seq<char>) -> bool {
    s.len() >= tail.len() && s.subrange(s.len() - tail.len(), s.len() as int) == tail
}

/// Every statement this library writes with, except the insert of a new
/// row, is limited to the one row whose id is bound: the delete ends with
/// `WHERE id = ?1` (its only placeholder, see
/// [`by_id_queries_bind_every_placeholder`]) and every update ends with
/// `WHERE id = ?`, the id being its last bound value.
pub proof fn writes_touch_one_row_by_id(sql: Seq<char>)
    requires
        is_write_statement(sql),
        sql != INSERT_SQL@,
    ensures
        sql == DELETE_SQL@ ==> sql == "DELETE FROM tasks"@ + " WHERE id = ?1"@,
        sql != DELETE_SQL@ ==> ends_with(sql, " WHERE id = ?"@),
{
    reveal_strlit("DELETE FROM tasks WHERE id = ?1");
    reveal_strlit("DELETE FROM tasks");
    reveal_strlit(" WHERE id = ?1");
    reveal_strlit(" WHERE id = ?");
    assert(DELETE_SQL@ =~= "DELETE FROM tasks"@ + " WHERE id = ?1"@);
    if sql != DELETE_SQL@ {
        let (t, d, st, p, a, g, u) = choose|t: Option<Seq<char>>, d: Option<Seq<char>>, st: Option<Seq<char>>,
            p: Option<Seq<char>>, a: Option<Seq<char>>, g: Option<Seq<char>>, u: Option<Seq<char>>|
            sql == #[trigger] update_sql(t, d, st, p, a, g, u);
        let head = UPDATE_HEAD@ + assignment("title"@, t).0 + assignment("description"@, d).0
            + assignment("status"@, st).0 + assignment("priority"@, p).0 + assignment(
            "assigned_agent"@,
            a,
        ).0 + assignment("tags"@, g).0 + assignment("due_date"@, u).0;
        assert(sql == head + UPDATE_TAIL@);
        assert(sql.subrange(sql.len() - UPDATE_TAIL@.len(), sql.len() as int) =~= UPDATE_TAIL@);
    }
}

/// Every `?` of the `list` query gets exactly one bound value: the query
/// has as many placeholders as values.
pub proof fn list_query_binds_every_placeholder(f: ListFilter)
    ensures
        placeholders(list_sql(f)) == list_args(f).len(),
{
    lemma_list_literals();
    assert(placeholders(Seq::<char>::empty()) == 0);
    let s0 = SELECT_TASKS@ + LIST_WHERE@;
    let s1 = s0 + status_clause(f).0;
    let s2 = s1 + optional_clause(ASSIGNED_EQ@, f.assigned).0;
    let s3 = s2 + optional_clause(PRIORITY_EQ@, f.priority).0;
    let s4 = s3 + tag_clause(f).0;
    lemma_placeholders_add(SELECT_TASKS@, LIST_WHERE@);
    lemma_placeholders_add(s0, status_clause(f).0);
    lemma_placeholders_add(s1, optional_clause(ASSIGNED_EQ@, f.assigned).0);
    lemma_placeholders_add(s2, optional_clause(PRIORITY_EQ@, f.priority).0);
    lemma_placeholders_add(s3, tag_clause(f).0);
    lemma_placeholders_add(s4, LIST_ORDER@);
}

proof fn lemma_assignment_placeholders(column: Seq<char>, value: Option<Seq<char>>)
    requires
        forall|k: int| 0 <= k < column.len() ==> #[trigger] column[k] != '?',
    ensures
        placeholders(assignment(column, value).0) == assignment(column, value).1.len(),
{
    reveal_strlit(", ");
    reveal_strlit(" = ?");
    assert(placeholders(Seq::<char>::empty()) == 0);
    if value is Some {
        lemma_placeholders_none(SET_SEPARATOR@);
        lemma_placeholders_none(column);
        lemma_placeholders_one(SET_PLACEHOLDER@, 3);
        lemma_placeholders_add(SET_SEPARATOR@, column);
        lemma_placeholders_add(SET_SEPARATOR@ + column, SET_PLACEHOLDER@);
    }
}

/// Every `?` of an update gets exactly one bound value: the update has as
/// many placeholders as values.
pub proof fn update_query_binds_every_placeholder(
    id: i64,
    title: Option<Seq<char>>,
    description: Option<Seq<char>>,
    status: Option<Seq<char>>,
    priority: Option<Seq<char>>,
    assigned: Option<Seq<char>>,
    tags: Option<Seq<char>>,
    due: Option<Seq<char>>,
    now: Seq<char>,
)
    ensures
        placeholders(update_sql(title, description, status, priority, assigned, tags, due))
            == update_args(id, title, description, status, priority, assigned, tags, due, now).len(),
{
    reveal_strlit("UPDATE tasks SET updated_at = ?");
    reveal_strlit(" WHERE id = ?");
    reveal_strlit("title");
    reveal_strlit("description");
    reveal_strlit("status");
    reveal_strlit("priority");
    reveal_strlit("assigned_agent");
    reveal_strlit("tags");
    reveal_strlit("due_date");
    lemma_placeholders_one(UPDATE_HEAD@, UPDATE_HEAD@.len() - 1);
    lemma_placeholders_one(UPDATE_TAIL@, UPDATE_TAIL@.len() - 1);
    let a1 = assignment("title"@, title);
    let a2 = assignment("description"@, description);
    let a3 = assignment("status"@, status);
    let a4 = assignment("priority"@, priority);
    let a5 = assignment("assigned_agent"@, assigned);
    let a6 = assignment("tags"@, tags);
    let a7 = assignment("due_date"@, due);
    lemma_assignment_placeholders("title"@, title);
    lemma_assignment_placeholders("description"@, description);
    lemma_assignment_placeholders("status"@, status);
    lemma_assignment_placeholders("priority"@, priority);
    lemma_assignment_placeholders("assigned_agent"@, assigned);
    lemma_assignment_placeholders("tags"@, tags);
    lemma_assignment_placeholders("due_date"@, due);
    let s1 = UPDATE_HEAD@ + a1.0;
    let s2 = s1 + a2.0;
    let s3 = s2 + a3.0;
    let s4 = s3 + a4.0;
    let s5 = s4 + a5.0;
    let s6 = s5 + a6.0;
    let s7 = s6 + a7.0;
    lemma_placeholders_add(UPDATE_HEAD@, a1.0);
    lemma_placeholders_add(s1, a2.0);
    lemma_placeholders_add(s2, a3.0);
    lemma_placeholders_add(s3, a4.0);
    lemma_placeholders_add(s4, a5.0);
    lemma_placeholders_add(s5, a6.0);
    lemma_placeholders_add(s6, a7.0);
    lemma_placeholders_add(s7, UPDATE_TAIL@);
}

} // verus!
