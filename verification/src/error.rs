//! The library's error type and the messages shown for each error.

use vstd::prelude::*;
use crate::sanitize::{
    clean_line_output_is_terminal_safe, clean_line_spec, is_dropped, line_safe, message_echo_spec,
    MESSAGE_ECHO_LIMIT,
};

verus! {

#[verifier::external_type_specification]
#[verifier::external_body]
pub struct ExSqlError(rusqlite::Error);

/// Why a request was refused or failed.
#[derive(Debug)]
pub enum TaskError {
    /// A status outside `todo|in_progress|done|blocked`; holds the rejected
    /// value as sanitized for echoing.
    InvalidStatus(String),
    /// A priority outside `low|medium|high|urgent`; holds the rejected value
    /// as sanitized for echoing.
    InvalidPriority(String),
    /// A title that renders with zero visible columns.
    EmptyTitle,
    /// A field longer than its limit, in characters.
    TooLong { field: String, len: usize, max: usize },
    /// A due date that is neither `YYYY-MM-DD` nor RFC3339; holds the
    /// rejected value as sanitized for echoing.
    InvalidDue(String),
    /// An update that names no field to change.
    NoFieldsToUpdate,
    /// The row just inserted could not be read back.
    InsertedTaskMissing,
    /// No task has this id.
    NotFound(i64),
    /// SQLite reported an error.
    Database(rusqlite::Error),
}

/// The content of an error, with its texts as character sequences.
pub enum ErrorView {
    InvalidStatus(Seq<char>),
    InvalidPriority(Seq<char>),
    EmptyTitle,
    TooLong { field: Seq<char>, len: nat, max: nat },
    InvalidDue(Seq<char>),
    NoFieldsToUpdate,
    InsertedTaskMissing,
    NotFound(i64),
    Database,
}

impl View for TaskError {
    type V = ErrorView;

    open spec fn view(&self) -> ErrorView {
        match self {
            TaskError::InvalidStatus(s) => ErrorView::InvalidStatus(s@),
            TaskError::InvalidPriority(s) => ErrorView::InvalidPriority(s@),
            TaskError::EmptyTitle => ErrorView::EmptyTitle,
            TaskError::TooLong { field, len, max } => ErrorView::TooLong {
                field: field@,
                len: *len as nat,
                max: *max as nat,
            },
            TaskError::InvalidDue(s) => ErrorView::InvalidDue(s@),
            TaskError::NoFieldsToUpdate => ErrorView::NoFieldsToUpdate,
            TaskError::InsertedTaskMissing => ErrorView::InsertedTaskMissing,
            TaskError::NotFound(id) => ErrorView::NotFound(*id),
            TaskError::Database(_) => ErrorView::Database,
        }
    }
}

pub open spec fn invalid_status_message(shown: Seq<char>) -> Seq<char> {
    "無効な status です: '"@ + shown + "' (有効値: todo, in_progress, done, blocked)"@
}

pub open spec fn invalid_priority_message(shown: Seq<char>) -> Seq<char> {
    "無効な priority です: '"@ + shown + "' (有効値: low, medium, high, urgent)"@
}

pub open spec fn invalid_due_message(shown: Seq<char>) -> Seq<char> {
    "無効な due です: '"@ + shown + "' (有効形式: YYYY-MM-DD または RFC3339)"@
}

pub open spec fn no_fields_message() -> Seq<char> {
    "更新するフィールドが指定されていません (title, description, status, priority, assigned, tags, due のいずれかを指定してください)"@
}

/// The message of every error; that of `Database` is the SQLite error's
/// own text (see [`sqlite_error_text_of`]).
pub open spec fn message_spec(e: &TaskError) -> Seq<char> {
    match e {
        TaskError::InvalidStatus(shown) => invalid_status_message(shown@),
        TaskError::InvalidPriority(shown) => invalid_priority_message(shown@),
        TaskError::EmptyTitle => "title を空にすることはできません"@,
        TaskError::TooLong { field, len, max } => field@ + " が長すぎます ("@ + crate::text::decimal(
            *len as nat,
        ) + " 文字, 上限 "@ + crate::text::decimal(*max as nat) + " 文字)"@,
        TaskError::InvalidDue(shown) => invalid_due_message(shown@),
        TaskError::NoFieldsToUpdate => no_fields_message(),
        TaskError::InsertedTaskMissing => "挿入直後のタスク取得に失敗しました"@,
        TaskError::NotFound(id) => "タスクが見つかりません (ID: "@ + crate::text::signed_decimal(*id as int)
            + ")"@,
        TaskError::Database(e) => sqlite_error_text_of(*e),
    }
}

/// The text `rusqlite::Error`'s `Display` gives for an error.
pub uninterp spec fn sqlite_error_text_of(e: rusqlite::Error) -> Seq<char>;

/// Calls `rusqlite::Error`'s `Display` (through `to_string`). Claimed: the
/// text is a function of the error value alone (the source formats the
/// error's own fields: SQLite's message or code description, or the
/// wrapped error's text); what the text is, is not stated.
#[verifier::external_body]
fn sql_error_text(e: &rusqlite::Error) -> (t: String)
    ensures
        t@ == sqlite_error_text_of(*e),
{
    e.to_string()
}

impl TaskError {
    /// The human-readable message for this error.
    pub fn message(&self) -> (m: String)
        ensures
            m@ == message_spec(self),
    {
        match self {
            TaskError::InvalidStatus(shown) => {
                let mut m = String::from_str("無効な status です: '");
                m.append(shown.as_str());
                m.append("' (有効値: todo, in_progress, done, blocked)");
                m
            },
            TaskError::InvalidPriority(shown) => {
                let mut m = String::from_str("無効な priority です: '");
                m.append(shown.as_str());
                m.append("' (有効値: low, medium, high, urgent)");
                m
            },
            TaskError::EmptyTitle => String::from_str("title を空にすることはできません"),
            TaskError::TooLong { field, len, max } => {
                let mut m = String::from_str(field.as_str());
                m.append(" が長すぎます (");
                crate::text::push_decimal(&mut m, *len as u64);
                m.append(" 文字, 上限 ");
                crate::text::push_decimal(&mut m, *max as u64);
                m.append(" 文字)");
                m
            },
            TaskError::InvalidDue(shown) => {
                let mut m = String::from_str("無効な due です: '");
                m.append(shown.as_str());
                m.append("' (有効形式: YYYY-MM-DD または RFC3339)");
                m
            },
            TaskError::NoFieldsToUpdate => String::from_str(
                "更新するフィールドが指定されていません (title, description, status, priority, assigned, tags, due のいずれかを指定してください)",
            ),
            TaskError::InsertedTaskMissing => String::from_str("挿入直後のタスク取得に失敗しました"),
            TaskError::NotFound(id) => {
                let mut m = String::from_str("タスクが見つかりません (ID: ");
                crate::text::push_signed_decimal(&mut m, *id);
                m.append(")");
                m
            },
            TaskError::Database(e) => sql_error_text(e),
        }
    }
}


proof fn lemma_safe_concat(a: Seq<char>, b: Seq<char>)
    requires
        line_safe(a),
        line_safe(b),
    ensures
        line_safe(a + b),
{
    assert forall|k: int| 0 <= k < (a + b).len() implies !is_dropped(#[trigger] (a + b)[k], false) by {
        if k >= a.len() {
            assert((a + b)[k] == b[k - a.len()]);
        }
    }
}

/// The message that refuses an invalid status, priority or due date
/// holds no control character, bidirectional-formatting character or
/// line/paragraph separator, whatever the refused input was: it only
/// echoes the input in sanitized form.
pub proof fn refusal_messages_are_terminal_safe(input: Seq<char>)
    ensures
        line_safe(invalid_status_message(message_echo_spec(input))),
        line_safe(invalid_priority_message(message_echo_spec(input))),
        line_safe(invalid_due_message(message_echo_spec(input))),
{
    let shown = message_echo_spec(input);
    clean_line_output_is_terminal_safe(input);
    let c = clean_line_spec(input);
    if c.len() > MESSAGE_ECHO_LIMIT {
        assert forall|k: int| 0 <= k < shown.len() implies !is_dropped(#[trigger] shown[k], false) by {
            if k < MESSAGE_ECHO_LIMIT {
                assert(shown[k] == c[k]);
            }
        }
    }
    reveal_strlit("無効な status です: '");
    reveal_strlit("' (有効値: todo, in_progress, done, blocked)");
    reveal_strlit("無効な priority です: '");
    reveal_strlit("' (有効値: low, medium, high, urgent)");
    reveal_strlit("無効な due です: '");
    reveal_strlit("' (有効形式: YYYY-MM-DD または RFC3339)");
    assert(line_safe("無効な status です: '"@));
    assert(line_safe("' (有効値: todo, in_progress, done, blocked)"@));
    assert(line_safe("無効な priority です: '"@));
    assert(line_safe("' (有効値: low, medium, high, urgent)"@));
    assert(line_safe("無効な due です: '"@));
    assert(line_safe("' (有効形式: YYYY-MM-DD または RFC3339)"@));
    lemma_safe_concat("無効な status です: '"@, shown);
    lemma_safe_concat("無効な status です: '"@ + shown, "' (有効値: todo, in_progress, done, blocked)"@);
    lemma_safe_concat("無効な priority です: '"@, shown);
    lemma_safe_concat("無効な priority です: '"@ + shown, "' (有効値: low, medium, high, urgent)"@);
    lemma_safe_concat("無効な due です: '"@, shown);
    lemma_safe_concat("無効な due です: '"@ + shown, "' (有効形式: YYYY-MM-DD または RFC3339)"@);
}

} // verus!
