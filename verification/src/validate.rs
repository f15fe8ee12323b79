//! Size, non-emptiness and date-format validation applied to user-supplied
//! task fields before they reach the database. Lengths are checked on the
//! raw values, before sanitizing (see `sanitize`), so that an oversized
//! value is refused without being processed; the title's visibility and the
//! due date's format are checked on the sanitized values.

use vstd::prelude::*;
use crate::error::TaskError;
use crate::sanitize::{message_echo_spec, sanitize_for_message};
use crate::text::{chars_of, is_white_space, is_whitespace_char, string_from_chars};

verus! {

pub const MAX_TITLE_CHARS: usize = 500;
pub const MAX_DESCRIPTION_CHARS: usize = 20_000;
/// Applies to assigned agent, tags and due date: short, single-line fields.
pub const MAX_SHORT_FIELD_CHARS: usize = 300;

/// The display width in terminal columns that `unicode-width` gives a
/// string (`UnicodeWidthStr::width`).
pub uninterp spec fn unicode_display_width(s: Seq<char>) -> usize;

/// Calls `unicode_width::UnicodeWidthStr::width`. Claimed: the result is a
/// function of the string's characters alone, and the empty string has
/// width 0 (the crate folds over the characters starting from 0).
#[verifier::external_body]
pub(crate) fn display_width(s: &str) -> (w: usize)
    ensures
        w == unicode_display_width(s@),
        s@.len() == 0 ==> w == 0,
{
    unicode_width::UnicodeWidthStr::width(s)
}

/// `s` with every `White_Space` character removed, wherever it stands.
pub open spec fn without_white_space(s: Seq<char>) -> Seq<char>
    decreases s.len(),
{
    if s.len() == 0 {
        Seq::empty()
    } else {
        let r = without_white_space(s.drop_last());
        if is_white_space(s.last()) {
            r
        } else {
            r.push(s.last())
        }
    }
}

/// A title is acceptable when, with all whitespace removed, it still takes
/// up at least one terminal column.
pub open spec fn title_is_visible(title: Seq<char>) -> bool {
    unicode_display_width(without_white_space(title)) != 0
}

/// The verdict on a title, given the display width of its non-whitespace
/// characters.
pub fn check_title_width(visible_width: usize) -> (r: Result<(), TaskError>)
    ensures
        r is Ok <==> visible_width != 0,
        r is Err ==> r matches Err(TaskError::EmptyTitle),
{
    if visible_width == 0 {
        Err(TaskError::EmptyTitle)
    } else {
        Ok(())
    }
}

/// Rejects a title that renders with zero visible terminal columns, also
/// when invisible characters are interleaved with spaces.
pub fn require_non_empty_title(title: &str) -> (r: Result<(), TaskError>)
    ensures
        r is Ok <==> title_is_visible(title@),
        r is Err ==> r matches Err(TaskError::EmptyTitle),
{
    let cs = chars_of(title);
    let mut visible: Vec<char> = Vec::new();
    let mut i: usize = 0;
    assert(cs@.take(0) =~= Seq::<char>::empty());
    while i < cs.len()
        invariant
            i <= cs@.len(),
            visible@ == without_white_space(cs@.take(i as int)),
        decreases cs@.len() - i,
    {
        assert(cs@.take(i + 1).drop_last() =~= cs@.take(i as int));
        if !is_whitespace_char(cs[i]) {
            visible.push(cs[i]);
        }
        i = i + 1;
    }
    assert(cs@.take(cs@.len() as int) =~= cs@);
    let v = string_from_chars(visible.as_slice());
    check_title_width(display_width(v.as_str()))
}

/// Rejects `value` when it holds more than `max_chars` characters
/// (characters, not bytes).
pub fn check_max_len(value: &str, field_name: &str, max_chars: usize) -> (r: Result<(), TaskError>)
    ensures
        r is Ok <==> value@.len() <= max_chars,
        r is Err ==> (r matches Err(TaskError::TooLong { field, len, max }) && field@ == field_name@
            && len == value@.len() && max == max_chars),
{
    let len = value.unicode_len();
    if len > max_chars {
        return Err(TaskError::TooLong { field: String::from_str(field_name), len, max: max_chars });
    }
    Ok(())
}

pub open spec fn is_ascii_digit(c: char) -> bool {
    '0' <= c && c <= '9'
}

/// Starts with a four-digit year followed by `-`. Stated over characters:
/// since ASCII digits and `-` are one byte each, this is the same as
/// checking the first five bytes.
pub open spec fn four_digit_year(s: Seq<char>) -> bool {
    &&& s.len() > 4
    &&& is_ascii_digit(s[0])
    &&& is_ascii_digit(s[1])
    &&& is_ascii_digit(s[2])
    &&& is_ascii_digit(s[3])
    &&& s[4] == '-'
}

fn has_four_digit_year(value: &[char]) -> (b: bool)
    ensures
        b == four_digit_year(value@),
{
    value.len() > 4 && '0' <= value[0] && value[0] <= '9' && '0' <= value[1] && value[1] <= '9'
        && '0' <= value[2] && value[2] <= '9' && '0' <= value[3] && value[3] <= '9' && value[4]
        == '-'
}

/// Whether `chrono::NaiveDate::parse_from_str(s, "%Y-%m-%d")` succeeds.
pub uninterp spec fn chrono_accepts_plain_date(s: Seq<char>) -> bool;

/// Whether `chrono::DateTime::parse_from_rfc3339(s)` succeeds.
pub uninterp spec fn chrono_accepts_rfc3339(s: Seq<char>) -> bool;

/// Calls `chrono::NaiveDate::parse_from_str` with the format `%Y-%m-%d`.
/// Claimed: whether it succeeds is a function of the input's characters.
/// Only called on input that starts with a four-digit year.
#[verifier::external_body]
fn parses_as_plain_date(value: &str) -> (ok: bool)
    requires
        four_digit_year(value@),
    ensures
        ok == chrono_accepts_plain_date(value@),
{
    chrono::NaiveDate::parse_from_str(value, "%Y-%m-%d").is_ok()
}

/// Calls `chrono::DateTime::parse_from_rfc3339`. Claimed: whether it
/// succeeds is a function of the input's characters. Only called on input
/// that starts with a four-digit year.
#[verifier::external_body]
fn parses_as_rfc3339(value: &str) -> (ok: bool)
    requires
        four_digit_year(value@),
    ensures
        ok == chrono_accepts_rfc3339(value@),
{
    chrono::DateTime::parse_from_rfc3339(value).is_ok()
}

/// The verdict on a due date, given whether it reads as a plain date and
/// whether it reads as an RFC3339 timestamp.
pub fn due_date_verdict(value: &str, is_plain_date: bool, is_rfc3339: bool) -> (r: Result<
    (),
    TaskError,
>)
    ensures
        r is Ok <==> (is_plain_date || is_rfc3339),
        r is Err ==> (r matches Err(TaskError::InvalidDue(shown)) && shown@ == message_echo_spec(
            value@,
        )),
{
    if is_plain_date || is_rfc3339 {
        return Ok(());
    }
    Err(TaskError::InvalidDue(sanitize_for_message(value)))
}

/// A due date is accepted when it starts with a four-digit year and
/// `chrono` reads it as `YYYY-MM-DD` or as RFC3339.
pub open spec fn due_date_is_valid(s: Seq<char>) -> bool {
    four_digit_year(s) && (chrono_accepts_plain_date(s) || chrono_accepts_rfc3339(s))
}

/// Validates that `value` is a `YYYY-MM-DD` date or an RFC3339 timestamp
/// with a four-digit year; a refused value is echoed back sanitized.
pub fn validate_due_date(value: &str) -> (r: Result<(), TaskError>)
    ensures
        r is Ok <==> due_date_is_valid(value@),
        r is Err ==> (r matches Err(TaskError::InvalidDue(shown)) && shown@ == message_echo_spec(
            value@,
        )),
{
    let cs = chars_of(value);
    let has_year = has_four_digit_year(cs.as_slice());
    let is_plain_date = has_year && parses_as_plain_date(value);
    let is_rfc3339 = has_year && parses_as_rfc3339(value);
    due_date_verdict(value, is_plain_date, is_rfc3339)
}

} // verus!
