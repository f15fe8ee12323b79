//! The decisions behind each command: which arguments are refused and with
//! what error, how accepted values are cleaned before they are stored, and
//! which stored task the command reports. Printing is left to the caller.

use vstd::prelude::*;
use crate::cli::{AddArgs, ListArgs, UpdateArgs};
use crate::db::{self, ListFilter};
use crate::error::{ErrorView, TaskError};
use crate::models::{
    Priority, Status, Task, opt_chars, priority_name_roundtrip, status_name_roundtrip,
};
use crate::sanitize::{
    clean_line, clean_line_output_is_terminal_safe, clean_line_spec, clean_multiline,
    clean_multiline_output_is_terminal_safe, clean_multiline_spec, line_safe, message_echo_spec,
    multiline_safe,
};
use crate::validate::{
    check_max_len, due_date_is_valid, require_non_empty_title, title_is_visible, validate_due_date,
    MAX_DESCRIPTION_CHARS, MAX_SHORT_FIELD_CHARS, MAX_TITLE_CHARS,
};

verus! {

pub open spec fn map_clean_line(o: Option<Seq<char>>) -> Option<Seq<char>> {
    match o {
        Some(s) => Some(clean_line_spec(s)),
        None => None,
    }
}

pub open spec fn map_clean_multiline(o: Option<Seq<char>>) -> Option<Seq<char>> {
    match o {
        Some(s) => Some(clean_multiline_spec(s)),
        None => None,
    }
}

/// The earlier of two refusals.
pub open spec fn first_of(a: Option<ErrorView>, b: Option<ErrorView>) -> Option<ErrorView> {
    if a is Some {
        a
    } else {
        b
    }
}

/// Refusal of an optional value longer than `max` characters.
pub open spec fn length_refusal(field: Seq<char>, v: Option<Seq<char>>, max: nat) -> Option<ErrorView> {
    match v {
        Some(c) => if c.len() > max {
            Some(ErrorView::TooLong { field, len: c.len(), max })
        } else {
            None
        },
        None => None,
    }
}

/// Refusal of a raw optional field over its limit, in the order they are
/// checked: description, assigned agent, tags, due date.
pub open spec fn optional_lengths_refusal(
    description: Option<Seq<char>>,
    assigned: Option<Seq<char>>,
    tags: Option<Seq<char>>,
    due: Option<Seq<char>>,
) -> Option<ErrorView> {
    first_of(
        length_refusal("description"@, description, MAX_DESCRIPTION_CHARS as nat),
        first_of(
            length_refusal("assigned"@, assigned, MAX_SHORT_FIELD_CHARS as nat),
            first_of(
                length_refusal("tags"@, tags, MAX_SHORT_FIELD_CHARS as nat),
                length_refusal("due"@, due, MAX_SHORT_FIELD_CHARS as nat),
            ),
        ),
    )
}

/// Refusal of any raw value over its limit, measured before anything is
/// cleaned: the title first, then the optional fields.
pub open spec fn raw_lengths_refusal(
    title: Option<Seq<char>>,
    description: Option<Seq<char>>,
    assigned: Option<Seq<char>>,
    tags: Option<Seq<char>>,
    due: Option<Seq<char>>,
) -> Option<ErrorView> {
    first_of(
        length_refusal("title"@, title, MAX_TITLE_CHARS as nat),
        optional_lengths_refusal(description, assigned, tags, due),
    )
}

/// Refusal of a cleaned title that renders with no visible column.
pub open spec fn title_refusal(t: Seq<char>) -> Option<ErrorView> {
    if !title_is_visible(t) {
        Some(ErrorView::EmptyTitle)
    } else {
        None
    }
}

/// Refusal of a cleaned optional due date that is not a valid date.
pub open spec fn due_refusal(v: Option<Seq<char>>) -> Option<ErrorView> {
    match v {
        Some(c) => if !due_date_is_valid(c) {
            Some(ErrorView::InvalidDue(message_echo_spec(c)))
        } else {
            None
        },
        None => None,
    }
}

/// Refusal of the cleaned values: the title when given, then the due date.
pub open spec fn cleaned_refusal(title: Option<Seq<char>>, due: Option<Seq<char>>) -> Option<ErrorView> {
    first_of(
        match map_clean_line(title) {
            Some(t) => title_refusal(t),
            None => None,
        },
        due_refusal(map_clean_line(due)),
    )
}

pub open spec fn status_refusal(s: Seq<char>) -> Option<ErrorView> {
    if Status::from_name(s) is None {
        Some(ErrorView::InvalidStatus(message_echo_spec(s)))
    } else {
        None
    }
}

pub open spec fn priority_refusal(s: Seq<char>) -> Option<ErrorView> {
    if Priority::from_name(s) is None {
        Some(ErrorView::InvalidPriority(message_echo_spec(s)))
    } else {
        None
    }
}

pub open spec fn opt_status_refusal(s: Option<Seq<char>>) -> Option<ErrorView> {
    match s {
        Some(v) => status_refusal(v),
        None => None,
    }
}

pub open spec fn opt_priority_refusal(s: Option<Seq<char>>) -> Option<ErrorView> {
    match s {
        Some(v) => priority_refusal(v),
        None => None,
    }
}

/// Why `add` refuses its arguments, checked in order: status, priority,
/// the raw length of every text field (before any cleaning), the cleaned
/// title, then the cleaned due date; `None` when accepted.
pub open spec fn add_refusal(a: AddArgs) -> Option<ErrorView> {
    first_of(
        status_refusal(a.status@),
        first_of(
            priority_refusal(a.priority@),
            first_of(
                raw_lengths_refusal(
                    Some(a.title@),
                    opt_chars(a.description),
                    opt_chars(a.assigned),
                    opt_chars(a.tags),
                    opt_chars(a.due),
                ),
                cleaned_refusal(Some(a.title@), opt_chars(a.due)),
            ),
        ),
    )
}

/// An update that names none of the fields it could change.
pub open spec fn names_no_field(a: UpdateArgs) -> bool {
    &&& a.title is None
    &&& a.description is None
    &&& a.status is None
    &&& a.priority is None
    &&& a.assigned is None
    &&& a.tags is None
    &&& a.due is None
}

/// Why `update` refuses its arguments, checked in order: no field named at
/// all, status and priority when given, the raw length of every given text
/// field (before any cleaning), the cleaned title, then the cleaned due
/// date; `None` when accepted.
pub open spec fn update_refusal(a: UpdateArgs) -> Option<ErrorView> {
    if names_no_field(a) {
        Some(ErrorView::NoFieldsToUpdate)
    } else {
        first_of(
            opt_status_refusal(opt_chars(a.status)),
            first_of(
                opt_priority_refusal(opt_chars(a.priority)),
                first_of(
                    raw_lengths_refusal(
                        opt_chars(a.title),
                        opt_chars(a.description),
                        opt_chars(a.assigned),
                        opt_chars(a.tags),
                        opt_chars(a.due),
                    ),
                    cleaned_refusal(opt_chars(a.title), opt_chars(a.due)),
                ),
            ),
        )
    }
}

/// A task about to be added, with every text field cleaned.
#[derive(Debug)]
pub struct NewTask {
    pub title: String,
    pub description: Option<String>,
    pub status: Status,
    pub priority: Priority,
    pub assigned: Option<String>,
    pub tags: Option<String>,
    pub due: Option<String>,
}

/// The cleaned text fields an update changes; `None` leaves a field as is.
#[derive(Debug)]
pub struct FieldChanges {
    pub title: Option<String>,
    pub description: Option<String>,
    pub assigned: Option<String>,
    pub tags: Option<String>,
    pub due: Option<String>,
}

fn clean_opt_line(v: &Option<String>) -> (r: Option<String>)
    ensures
        opt_chars(r) == map_clean_line(opt_chars(*v)),
{
    match v {
        Some(s) => Some(clean_line(s.as_str())),
        None => None,
    }
}

fn clean_opt_multiline(v: &Option<String>) -> (r: Option<String>)
    ensures
        opt_chars(r) == map_clean_multiline(opt_chars(*v)),
{
    match v {
        Some(s) => Some(clean_multiline(s.as_str())),
        None => None,
    }
}

fn check_opt_len(v: &Option<String>, field: &str, max: usize) -> (r: Result<(), TaskError>)
    ensures
        r matches Err(e) ==> length_refusal(field@, opt_chars(*v), max as nat) == Some(e@),
        r is Ok ==> length_refusal(field@, opt_chars(*v), max as nat) is None,
{
    match v {
        Some(s) => check_max_len(s.as_str(), field, max),
        None => Ok(()),
    }
}

/// Checks the raw lengths of the optional fields shared by `add` and
/// `update`.
fn check_optional_lengths(
    description: &Option<String>,
    assigned: &Option<String>,
    tags: &Option<String>,
    due: &Option<String>,
) -> (r: Result<(), TaskError>)
    ensures
        r matches Err(e) ==> optional_lengths_refusal(
            opt_chars(*description),
            opt_chars(*assigned),
            opt_chars(*tags),
            opt_chars(*due),
        ) == Some(e@),
        r is Ok ==> optional_lengths_refusal(
            opt_chars(*description),
            opt_chars(*assigned),
            opt_chars(*tags),
            opt_chars(*due),
        ) is None,
{
    check_opt_len(description, "description", MAX_DESCRIPTION_CHARS)?;
    check_opt_len(assigned, "assigned", MAX_SHORT_FIELD_CHARS)?;
    check_opt_len(tags, "tags", MAX_SHORT_FIELD_CHARS)?;
    check_opt_len(due, "due", MAX_SHORT_FIELD_CHARS)
}

fn check_opt_due(v: &Option<String>) -> (r: Result<(), TaskError>)
    ensures
        r matches Err(e) ==> due_refusal(opt_chars(*v)) == Some(e@),
        r is Ok ==> due_refusal(opt_chars(*v)) is None,
{
    match v {
        Some(d) => validate_due_date(d.as_str()),
        None => Ok(()),
    }
}

/// Cleans the optional fields shared by `add` and `update` and checks the
/// cleaned due date.
fn clean_optional_fields(
    description: &Option<String>,
    assigned: &Option<String>,
    tags: &Option<String>,
    due: &Option<String>,
) -> (r: Result<(Option<String>, Option<String>, Option<String>, Option<String>), TaskError>)
    ensures
        r matches Err(e) ==> due_refusal(map_clean_line(opt_chars(*due))) == Some(e@),
        r matches Ok(f) ==> {
            &&& due_refusal(map_clean_line(opt_chars(*due))) is None
            &&& opt_chars(f.0) == map_clean_multiline(opt_chars(*description))
            &&& opt_chars(f.1) == map_clean_line(opt_chars(*assigned))
            &&& opt_chars(f.2) == map_clean_line(opt_chars(*tags))
            &&& opt_chars(f.3) == map_clean_line(opt_chars(*due))
        },
{
    let d = clean_opt_multiline(description);
    let a = clean_opt_line(assigned);
    let t = clean_opt_line(tags);
    let u = clean_opt_line(due);
    check_opt_due(&u)?;
    Ok((d, a, t, u))
}

/// Checks and cleans the arguments of `add`: the task that will be stored,
/// or the first reason to refuse them. Lengths are measured on the raw
/// arguments, so an oversized value is refused before it is cleaned.
pub fn prepare_add(args: &AddArgs) -> (r: Result<NewTask, TaskError>)
    ensures
        r matches Err(e) ==> add_refusal(*args) == Some(e@),
        r matches Ok(t) ==> {
            &&& add_refusal(*args) is None
            &&& Status::from_name(args.status@) == Some(t.status)
            &&& Priority::from_name(args.priority@) == Some(t.priority)
            &&& t.title@ == clean_line_spec(args.title@)
            &&& opt_chars(t.description) == map_clean_multiline(opt_chars(args.description))
            &&& opt_chars(t.assigned) == map_clean_line(opt_chars(args.assigned))
            &&& opt_chars(t.tags) == map_clean_line(opt_chars(args.tags))
            &&& opt_chars(t.due) == map_clean_line(opt_chars(args.due))
        },
{
    let status = Status::parse(args.status.as_str())?;
    let priority = Priority::parse(args.priority.as_str())?;
    check_max_len(args.title.as_str(), "title", MAX_TITLE_CHARS)?;
    check_optional_lengths(&args.description, &args.assigned, &args.tags, &args.due)?;
    let title = clean_line(args.title.as_str());
    require_non_empty_title(title.as_str())?;
    let (description, assigned, tags, due) = clean_optional_fields(
        &args.description,
        &args.assigned,
        &args.tags,
        &args.due,
    )?;
    Ok(NewTask { title, description, status, priority, assigned, tags, due })
}

/// Checks and cleans the arguments of `update`: the field changes to
/// store, or the first reason to refuse them. An update that names no
/// field is refused; lengths are measured on the raw arguments, so an
/// oversized value is refused before it is cleaned.
pub fn prepare_update(args: &UpdateArgs) -> (r: Result<FieldChanges, TaskError>)
    ensures
        r matches Err(e) ==> update_refusal(*args) == Some(e@),
        r matches Ok(c) ==> {
            &&& update_refusal(*args) is None
            &&& opt_chars(c.title) == map_clean_line(opt_chars(args.title))
            &&& opt_chars(c.description) == map_clean_multiline(opt_chars(args.description))
            &&& opt_chars(c.assigned) == map_clean_line(opt_chars(args.assigned))
            &&& opt_chars(c.tags) == map_clean_line(opt_chars(args.tags))
            &&& opt_chars(c.due) == map_clean_line(opt_chars(args.due))
        },
{
    if args.title.is_none() && args.description.is_none() && args.status.is_none()
        && args.priority.is_none() && args.assigned.is_none() && args.tags.is_none()
        && args.due.is_none() {
        return Err(TaskError::NoFieldsToUpdate);
    }
    match &args.status {
        Some(s) => {
            Status::parse(s.as_str())?;
        },
        None => {},
    }
    match &args.priority {
        Some(p) => {
            Priority::parse(p.as_str())?;
        },
        None => {},
    }
    check_opt_len(&args.title, "title", MAX_TITLE_CHARS)?;
    check_optional_lengths(&args.description, &args.assigned, &args.tags, &args.due)?;
    let title = clean_opt_line(&args.title);
    match &title {
        Some(t) => {
            require_non_empty_title(t.as_str())?;
        },
        None => {},
    }
    let (description, assigned, tags, due) = clean_optional_fields(
        &args.description,
        &args.assigned,
        &args.tags,
        &args.due,
    )?;
    Ok(FieldChanges { title, description, assigned, tags, due })
}

fn as_opt_str(o: &Option<String>) -> (r: Option<&str>)
    ensures
        db::opt_str(r) == opt_chars(*o),
{
    match o {
        Some(s) => Some(s.as_str()),
        None => None,
    }
}

/// The task that was found, or the not-found error for `id`.
pub fn require_found(found: Option<Task>, id: i64) -> (r: Result<Task, TaskError>)
    ensures
        found matches Some(t) ==> (r matches Ok(u) && u == t),
        found is None ==> (r matches Err(e) && e@ == ErrorView::NotFound(id)),
{
    match found {
        Some(t) => Ok(t),
        None => Err(TaskError::NotFound(id)),
    }
}

/// `add`: checks and cleans the arguments, then stores the task with
/// `now` as its creation time and returns it as stored: with the given
/// status and priority and every text field as cleaned.
pub fn add(conn: &rusqlite::Connection, args: &AddArgs, now: &str) -> (r: Result<Task, TaskError>)
    ensures
        add_refusal(*args) matches Some(v) ==> (r matches Err(e) && e@ == v),
        add_refusal(*args) is None ==> (r matches Err(e) ==> (e@ is Database
            || e@ is InsertedTaskMissing)),
        r matches Ok(t) ==> {
            &&& t.status@ == args.status@
            &&& t.priority@ == args.priority@
            &&& t.title@ == clean_line_spec(args.title@)
            &&& opt_chars(t.description) == map_clean_multiline(opt_chars(args.description))
            &&& opt_chars(t.assigned_agent) == map_clean_line(opt_chars(args.assigned))
            &&& opt_chars(t.tags) == map_clean_line(opt_chars(args.tags))
            &&& opt_chars(t.due_date) == map_clean_line(opt_chars(args.due))
            &&& t.created_at@ == now@
            &&& t.updated_at@ == now@
        },
{
    let t = prepare_add(args)?;
    proof {
        status_name_roundtrip(t.status, args.status@);
        priority_name_roundtrip(t.priority, args.priority@);
    }
    db::add_task(
        conn,
        t.title.as_str(),
        as_opt_str(&t.description),
        t.status.as_str(),
        t.priority.as_str(),
        as_opt_str(&t.assigned),
        as_opt_str(&t.tags),
        as_opt_str(&t.due),
        now,
    )
}

/// `update`: checks and cleans the arguments, then changes the given
/// fields of the task and returns it as stored: it holds every given
/// status and priority as given and every given text field as cleaned.
pub fn update(conn: &rusqlite::Connection, args: &UpdateArgs, now: &str) -> (r: Result<Task, TaskError>)
    ensures
        names_no_field(*args) ==> (r matches Err(e) && e@ == ErrorView::NoFieldsToUpdate),
        update_refusal(*args) matches Some(v) ==> (r matches Err(e) && e@ == v),
        update_refusal(*args) is None ==> (r matches Err(e) ==> (e@ is Database || e@
            == ErrorView::NotFound(args.id))),
        r matches Ok(t) ==> {
            &&& t.id == args.id
            &&& (opt_chars(args.status) matches Some(x) ==> t.status@ == x)
            &&& (opt_chars(args.priority) matches Some(x) ==> t.priority@ == x)
            &&& (opt_chars(args.title) matches Some(x) ==> t.title@ == clean_line_spec(x))
            &&& (args.description is Some ==> opt_chars(t.description) == map_clean_multiline(
                opt_chars(args.description),
            ))
            &&& (args.assigned is Some ==> opt_chars(t.assigned_agent) == map_clean_line(
                opt_chars(args.assigned),
            ))
            &&& (args.tags is Some ==> opt_chars(t.tags) == map_clean_line(opt_chars(args.tags)))
            &&& (args.due is Some ==> opt_chars(t.due_date) == map_clean_line(opt_chars(args.due)))
            &&& t.updated_at@ == now@
        },
{
    let c = prepare_update(args)?;
    let found = db::update_task(
        conn,
        args.id,
        as_opt_str(&c.title),
        as_opt_str(&c.description),
        as_opt_str(&args.status),
        as_opt_str(&args.priority),
        as_opt_str(&c.assigned),
        as_opt_str(&c.tags),
        as_opt_str(&c.due),
        now,
    )?;
    require_found(found, args.id)
}

/// `show`: the task with this id.
pub fn show(conn: &rusqlite::Connection, id: i64) -> (r: Result<Task, TaskError>)
    ensures
        r matches Err(e) ==> (e@ is Database || e@ == ErrorView::NotFound(id)),
        r matches Ok(t) ==> t.id == id,
{
    let found = db::get_task(conn, id)?;
    require_found(found, id)
}

/// `complete`: marks the task done and returns it as stored.
pub fn complete(conn: &rusqlite::Connection, id: i64, now: &str) -> (r: Result<Task, TaskError>)
    ensures
        r matches Err(e) ==> (e@ is Database || e@ == ErrorView::NotFound(id)),
        r matches Ok(t) ==> t.id == id && t.status@ == "done"@ && t.updated_at@ == now@,
{
    let found = db::complete_task(conn, id, now)?;
    require_found(found, id)
}

/// The outcome of a delete, given whether a row was removed.
pub fn deletion_outcome(deleted: bool, id: i64) -> (r: Result<(), TaskError>)
    ensures
        r is Ok <==> deleted,
        r matches Err(e) ==> e@ == ErrorView::NotFound(id),
{
    if deleted {
        Ok(())
    } else {
        Err(TaskError::NotFound(id))
    }
}

/// `delete`: removes the task.
pub fn delete(conn: &rusqlite::Connection, id: i64) -> (r: Result<(), TaskError>)
    ensures
        r matches Err(e) ==> (e@ is Database || e@ == ErrorView::NotFound(id)),
{
    let deleted = db::delete_task(conn, id)?;
    deletion_outcome(deleted, id)
}

fn clone_opt(o: &Option<String>) -> (r: Option<String>)
    ensures
        r == *o,
{
    match o {
        Some(s) => Some(s.clone()),
        None => None,
    }
}

/// Checks the arguments of `list` (status and priority must be valid names
/// when given) and builds its filter.
pub fn prepare_list(args: &ListArgs) -> (r: Result<ListFilter, TaskError>)
    ensures
        r matches Err(e) ==> first_of(
            opt_status_refusal(opt_chars(args.status)),
            opt_priority_refusal(opt_chars(args.priority)),
        ) == Some(e@),
        r matches Ok(f) ==> {
            &&& first_of(
                opt_status_refusal(opt_chars(args.status)),
                opt_priority_refusal(opt_chars(args.priority)),
            ) is None
            &&& f.status == args.status
            &&& f.assigned == args.assigned
            &&& f.priority == args.priority
            &&& f.tag == args.tag
            &&& f.all == args.all
        },
{
    match &args.status {
        Some(s) => {
            Status::parse(s.as_str())?;
        },
        None => {},
    }
    match &args.priority {
        Some(p) => {
            Priority::parse(p.as_str())?;
        },
        None => {},
    }
    Ok(
        ListFilter {
            status: clone_opt(&args.status),
            assigned: clone_opt(&args.assigned),
            priority: clone_opt(&args.priority),
            tag: clone_opt(&args.tag),
            all: args.all,
        },
    )
}

/// `list`: checks the arguments, then reads the matching tasks.
pub fn list(conn: &rusqlite::Connection, args: &ListArgs) -> (r: Result<Vec<Task>, TaskError>)
    ensures
        first_of(opt_status_refusal(opt_chars(args.status)), opt_priority_refusal(opt_chars(args.priority)))
            matches Some(v) ==> (r matches Err(e) && e@ == v),
        first_of(opt_status_refusal(opt_chars(args.status)), opt_priority_refusal(opt_chars(args.priority)))
            is None ==> (r matches Err(e) ==> e@ is Database),
{
    let filter = prepare_list(args)?;
    db::list_tasks(conn, &filter)
}


/// An optional single-line value that is terminal-safe and within `max`.
pub open spec fn fits_line(o: Option<Seq<char>>, max: nat) -> bool {
    match o {
        Some(s) => line_safe(s) && s.len() <= max,
        None => true,
    }
}

/// An optional raw value of at most `max` characters.
pub open spec fn within(o: Option<Seq<char>>, max: nat) -> bool {
    match o {
        Some(s) => s.len() <= max,
        None => true,
    }
}

proof fn lemma_fits_line(o: Option<Seq<char>>, max: nat)
    requires
        within(o, max),
    ensures
        fits_line(map_clean_line(o), max),
{
    if let Some(s) = o {
        clean_line_output_is_terminal_safe(s);
    }
}

proof fn lemma_optional_fields_clean(
    description: Option<Seq<char>>,
    assigned: Option<Seq<char>>,
    tags: Option<Seq<char>>,
    due: Option<Seq<char>>,
)
    requires
        optional_lengths_refusal(description, assigned, tags, due) is None,
        due_refusal(map_clean_line(due)) is None,
    ensures
        within(description, MAX_DESCRIPTION_CHARS as nat),
        within(assigned, MAX_SHORT_FIELD_CHARS as nat),
        within(tags, MAX_SHORT_FIELD_CHARS as nat),
        within(due, MAX_SHORT_FIELD_CHARS as nat),
        match map_clean_multiline(description) {
            Some(d) => multiline_safe(d) && d.len() <= MAX_DESCRIPTION_CHARS,
            None => true,
        },
        fits_line(map_clean_line(assigned), MAX_SHORT_FIELD_CHARS as nat),
        fits_line(map_clean_line(tags), MAX_SHORT_FIELD_CHARS as nat),
        fits_line(map_clean_line(due), MAX_SHORT_FIELD_CHARS as nat),
        map_clean_line(due) matches Some(d) ==> due_date_is_valid(d),
{
    if let Some(d) = description {
        clean_multiline_output_is_terminal_safe(d);
    }
    lemma_fits_line(assigned, MAX_SHORT_FIELD_CHARS as nat);
    lemma_fits_line(tags, MAX_SHORT_FIELD_CHARS as nat);
    lemma_fits_line(due, MAX_SHORT_FIELD_CHARS as nat);
}

/// Whatever `add` accepts had every raw argument within its limit (title
/// 500 characters, description 20000, assigned agent, tags and due date
/// 300 each) before cleaning, and is stored with a known status and
/// priority, a visible, terminal-safe title, a terminal-safe description
/// (only `\n` and `\t` kept among control characters), a terminal-safe
/// assigned agent, tags and due date, each still within its limit, and a
/// valid due date.
pub proof fn accepted_add_is_clean(a: AddArgs)
    requires
        add_refusal(a) is None,
    ensures
        Status::from_name(a.status@) is Some,
        Priority::from_name(a.priority@) is Some,
        a.title@.len() <= MAX_TITLE_CHARS,
        within(opt_chars(a.description), MAX_DESCRIPTION_CHARS as nat),
        within(opt_chars(a.assigned), MAX_SHORT_FIELD_CHARS as nat),
        within(opt_chars(a.tags), MAX_SHORT_FIELD_CHARS as nat),
        within(opt_chars(a.due), MAX_SHORT_FIELD_CHARS as nat),
        title_is_visible(clean_line_spec(a.title@)),
        fits_line(Some(clean_line_spec(a.title@)), MAX_TITLE_CHARS as nat),
        match map_clean_multiline(opt_chars(a.description)) {
            Some(d) => multiline_safe(d) && d.len() <= MAX_DESCRIPTION_CHARS,
            None => true,
        },
        fits_line(map_clean_line(opt_chars(a.assigned)), MAX_SHORT_FIELD_CHARS as nat),
        fits_line(map_clean_line(opt_chars(a.tags)), MAX_SHORT_FIELD_CHARS as nat),
        fits_line(map_clean_line(opt_chars(a.due)), MAX_SHORT_FIELD_CHARS as nat),
        map_clean_line(opt_chars(a.due)) matches Some(d) ==> due_date_is_valid(d),
{
    clean_line_output_is_terminal_safe(a.title@);
    lemma_optional_fields_clean(
        opt_chars(a.description),
        opt_chars(a.assigned),
        opt_chars(a.tags),
        opt_chars(a.due),
    );
}

/// Whatever `update` accepts names at least one field, had every given raw
/// argument within its limit before cleaning, and changes a task only to a
/// known status and priority and to values that are terminal-safe, within
/// their length limits, visible (the title) and valid (the due date).
pub proof fn accepted_update_is_clean(a: UpdateArgs)
    requires
        update_refusal(a) is None,
    ensures
        !names_no_field(a),
        opt_chars(a.status) matches Some(s) ==> Status::from_name(s) is Some,
        opt_chars(a.priority) matches Some(p) ==> Priority::from_name(p) is Some,
        within(opt_chars(a.title), MAX_TITLE_CHARS as nat),
        within(opt_chars(a.description), MAX_DESCRIPTION_CHARS as nat),
        within(opt_chars(a.assigned), MAX_SHORT_FIELD_CHARS as nat),
        within(opt_chars(a.tags), MAX_SHORT_FIELD_CHARS as nat),
        within(opt_chars(a.due), MAX_SHORT_FIELD_CHARS as nat),
        map_clean_line(opt_chars(a.title)) matches Some(t) ==> title_is_visible(t),
        fits_line(map_clean_line(opt_chars(a.title)), MAX_TITLE_CHARS as nat),
        match map_clean_multiline(opt_chars(a.description)) {
            Some(d) => multiline_safe(d) && d.len() <= MAX_DESCRIPTION_CHARS,
            None => true,
        },
        fits_line(map_clean_line(opt_chars(a.assigned)), MAX_SHORT_FIELD_CHARS as nat),
        fits_line(map_clean_line(opt_chars(a.tags)), MAX_SHORT_FIELD_CHARS as nat),
        fits_line(map_clean_line(opt_chars(a.due)), MAX_SHORT_FIELD_CHARS as nat),
        map_clean_line(opt_chars(a.due)) matches Some(d) ==> due_date_is_valid(d),
{
    lemma_fits_line(opt_chars(a.title), MAX_TITLE_CHARS as nat);
    lemma_optional_fields_clean(
        opt_chars(a.description),
        opt_chars(a.assigned),
        opt_chars(a.tags),
        opt_chars(a.due),
    );
}

/// A raw value over its limit is refused for its raw length, whatever
/// cleaning would have made of it: with a valid status and priority, an
/// `add` whose raw title is too long is refused with the title's raw
/// length, and one with a raw assigned agent over its limit (the title and
/// description within theirs) is refused with the agent's raw length.
pub proof fn add_measures_raw_lengths(a: AddArgs)
    requires
        Status::from_name(a.status@) is Some,
        Priority::from_name(a.priority@) is Some,
    ensures
        a.title@.len() > MAX_TITLE_CHARS ==> add_refusal(a) == Some(
            ErrorView::TooLong {
                field: "title"@,
                len: a.title@.len(),
                max: MAX_TITLE_CHARS as nat,
            },
        ),
        ({
            &&& a.title@.len() <= MAX_TITLE_CHARS
            &&& within(opt_chars(a.description), MAX_DESCRIPTION_CHARS as nat)
            &&& opt_chars(a.assigned) is Some
            &&& opt_chars(a.assigned)->0.len() > MAX_SHORT_FIELD_CHARS
        }) ==> add_refusal(a) == Some(
            ErrorView::TooLong {
                field: "assigned"@,
                len: opt_chars(a.assigned)->0.len(),
                max: MAX_SHORT_FIELD_CHARS as nat,
            },
        ),
{
}

} // verus!
