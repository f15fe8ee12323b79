use agent_task::error::TaskError;
use agent_task::validate::{
    check_max_len, check_title_width, due_date_verdict, require_non_empty_title,
    validate_due_date, MAX_SHORT_FIELD_CHARS,
};

#[test]
fn empty_title_is_rejected() {
    assert!(require_non_empty_title("").is_err());
}

#[test]
fn whitespace_only_title_is_rejected() {
    assert!(require_non_empty_title("   \t  ").is_err());
}

#[test]
fn non_empty_title_is_accepted() {
    assert!(require_non_empty_title("普通のタイトル").is_ok());
}

#[test]
fn zero_width_space_only_title_is_rejected() {
    assert!(require_non_empty_title("\u{200b}\u{200b}\u{200b}").is_err());
}

#[test]
fn zero_width_space_surrounded_by_visible_text_is_accepted() {
    assert!(require_non_empty_title("a\u{200b}b").is_ok());
}

#[test]
fn zero_width_spaces_interleaved_with_plain_spaces_are_rejected() {
    assert!(require_non_empty_title("  \u{200b}  \u{200b}  ").is_err());
    assert!(require_non_empty_title("\u{200b} \u{200b}").is_err());
    assert!(require_non_empty_title(" \u{200b} \u{200b} ").is_err());
}

#[test]
fn interior_spaces_around_visible_text_are_still_accepted() {
    assert!(require_non_empty_title("hello world").is_ok());
    assert!(require_non_empty_title("  a  b  ").is_ok());
}

#[test]
fn value_within_limit_is_accepted() {
    let s = "a".repeat(MAX_SHORT_FIELD_CHARS);
    assert!(check_max_len(&s, "tags", MAX_SHORT_FIELD_CHARS).is_ok());
}

#[test]
fn value_over_limit_is_rejected() {
    let s = "a".repeat(MAX_SHORT_FIELD_CHARS + 1);
    let err = check_max_len(&s, "tags", MAX_SHORT_FIELD_CHARS)
        .unwrap_err()
        .message();
    assert!(err.contains("tags"));
}

#[test]
fn check_max_len_counts_chars_not_bytes() {
    let s = "あ".repeat(MAX_SHORT_FIELD_CHARS);
    assert!(check_max_len(&s, "tags", MAX_SHORT_FIELD_CHARS).is_ok());
}

#[test]
fn due_date_accepts_plain_date() {
    assert!(validate_due_date("2026-08-01").is_ok());
}

#[test]
fn due_date_accepts_rfc3339() {
    assert!(validate_due_date("2026-08-01T12:00:00+09:00").is_ok());
}

#[test]
fn due_date_rejects_garbage() {
    let err = validate_due_date("らくだ").unwrap_err().message();
    assert!(err.contains("無効な due"));
}

#[test]
fn due_date_rejects_invalid_calendar_date() {
    assert!(validate_due_date("2026-13-99").is_err());
}

#[test]
fn due_date_accepts_four_digit_year_boundaries() {
    assert!(validate_due_date("0001-01-01").is_ok());
    assert!(validate_due_date("9999-12-31").is_ok());
}

#[test]
fn due_date_rejects_year_with_more_than_four_digits() {
    assert!(validate_due_date("99999-01-01").is_err());
    assert!(validate_due_date("99999-01-01T00:00:00Z").is_err());
    assert!(validate_due_date("00000-01-01").is_err());
}

#[test]
fn due_date_error_message_strips_ansi_from_echoed_value() {
    let malicious = "\x1b[31mnope\x1b[0m";
    let err = validate_due_date(malicious).unwrap_err().message();
    assert!(!err.contains('\u{1b}'));
}

// Further cases.

#[test]
fn too_long_message_is_exact() {
    let s = "あ".repeat(MAX_SHORT_FIELD_CHARS + 1);
    let err = check_max_len(&s, "assigned", MAX_SHORT_FIELD_CHARS).unwrap_err();
    assert!(matches!(err, TaskError::TooLong { len: 301, max: 300, .. }));
    assert_eq!(err.message(), "assigned が長すぎます (301 文字, 上限 300 文字)");
}

#[test]
fn empty_title_message_and_verdicts() {
    assert_eq!(
        require_non_empty_title("").unwrap_err().message(),
        "title を空にすることはできません"
    );
    assert!(check_title_width(0).is_err());
    assert!(check_title_width(1).is_ok());
    assert!(due_date_verdict("x", false, false).is_err());
    assert!(due_date_verdict("x", true, false).is_ok());
    assert!(due_date_verdict("x", false, true).is_ok());
    assert_eq!(
        due_date_verdict("x", false, false).unwrap_err().message(),
        "無効な due です: 'x' (有効形式: YYYY-MM-DD または RFC3339)"
    );
}

#[test]
fn due_date_needs_separator_after_year() {
    assert!(validate_due_date("2026/08/01").is_err());
    assert!(validate_due_date("2026-").is_err());
    assert!(validate_due_date("").is_err());
}
