use agent_task::sanitize::{
    clean_line, clean_multiline, sanitize_for_message, MESSAGE_ECHO_LIMIT, OSC_PARAM_LIMIT,
};

#[test]
fn clean_line_strips_csi_color_sequences() {
    let malicious = "\x1b[31mRed\x1b[0m\x07Bell";
    assert_eq!(clean_line(malicious), "RedBell");
}

#[test]
fn clean_line_strips_cursor_and_clear_sequences() {
    let malicious = "\x1b[2J\x1b[Hpwned";
    assert_eq!(clean_line(malicious), "pwned");
}

#[test]
fn clean_line_strips_osc_sequence() {
    let malicious = "\x1b]8;;http://evil.example\x07click\x1b]8;;\x07me";
    assert_eq!(clean_line(malicious), "clickme");
}

#[test]
fn clean_line_strips_generic_c1_control_byte_and_newlines() {
    let input = "a\u{85}b\nc\rd\te";
    assert_eq!(clean_line(input), "abcde");
}

#[test]
fn clean_line_strips_c1_csi_sequence() {
    let malicious = "\u{9b}31mRed\u{9b}0mEnd";
    assert_eq!(clean_line(malicious), "RedEnd");
}

#[test]
fn clean_line_strips_c1_osc_sequence() {
    let malicious = "\u{9d}8;;http://evil.example\u{7}click\u{9d}8;;\u{7}me";
    assert_eq!(clean_line(malicious), "clickme");
}

#[test]
fn clean_line_c1_csi_over_param_limit_drops_only_introducer() {
    let params = "1".repeat(16);
    let input = format!("\u{9b}{params}mEND");
    let expected = format!("{params}mEND");
    assert_eq!(clean_line(&input), expected);
}

#[test]
fn clean_line_osc_over_param_limit_drops_only_introducer() {
    let junk = "9".repeat(OSC_PARAM_LIMIT + 100);
    let input = format!("\x1b]{junk}TAIL");
    let out = clean_line(&input);
    assert!(
        out.ends_with("TAIL"),
        "trailing text must survive an over-limit unterminated OSC payload"
    );
    assert!(!out.contains('\u{1b}'));
}

#[test]
fn clean_line_many_unterminated_osc_introducers_completes_quickly() {
    let input = "\x1b]".repeat(200_000);
    let start = std::time::Instant::now();
    let out = clean_line(&input);
    let elapsed = start.elapsed();
    assert_eq!(out, "]".repeat(200_000));
    assert!(
        elapsed.as_secs() < 5,
        "sanitizing {} chars took {:?}, expected sub-second; possible O(n^2) regression",
        input.chars().count(),
        elapsed
    );
}

#[test]
fn clean_line_strips_rtl_override() {
    let malicious = "safe\u{202e}exe.txt\u{2069}";
    let out = clean_line(malicious);
    assert!(!out.contains('\u{202e}'));
    assert!(!out.contains('\u{2069}'));
    assert_eq!(out, "safeexe.txt");
}

#[test]
fn clean_line_strips_all_bidi_control_chars() {
    let malicious = "\u{200e}\u{200f}\u{202a}\u{202b}\u{202c}\u{202d}\u{202e}a\u{2066}\u{2067}\u{2068}\u{2069}";
    assert_eq!(clean_line(malicious), "a");
}

#[test]
fn clean_multiline_strips_bidi_control_even_though_it_keeps_newlines_and_tabs() {
    let malicious = "line1\u{202e}\nline2";
    assert_eq!(clean_multiline(malicious), "line1\nline2");
}

#[test]
fn clean_line_strips_arabic_letter_mark() {
    assert_eq!(clean_line("a\u{61c}b"), "ab");
}

#[test]
fn clean_line_strips_line_and_paragraph_separators() {
    let input = "line1\u{2028}line2\u{2029}line3";
    assert_eq!(clean_line(input), "line1line2line3");
}

#[test]
fn clean_multiline_strips_line_and_paragraph_separators_too() {
    let input = "line1\u{2028}line2\nline3";
    assert_eq!(clean_multiline(input), "line1line2\nline3");
}

#[test]
fn clean_line_preserves_plain_text() {
    assert_eq!(clean_line("普通のタイトル 123"), "普通のタイトル 123");
}

#[test]
fn clean_multiline_keeps_newlines_and_tabs_but_strips_escape() {
    let input = "line1\n\x1b[2Jline2\tend";
    assert_eq!(clean_multiline(input), "line1\nline2\tend");
}

#[test]
fn clean_line_recognizes_csi_sequence_right_at_param_limit() {
    let params = "1".repeat(15);
    let input = format!("\x1b[{params}mEND");
    assert_eq!(clean_line(&input), "END");
}

#[test]
fn clean_line_gives_up_on_csi_over_param_limit_and_keeps_scanning() {
    let params = "1".repeat(16);
    let input = format!("\x1b[{params}mEND");
    let expected = format!("[{params}mEND");
    assert_eq!(clean_line(&input), expected);
}

#[test]
fn clean_line_unterminated_csi_does_not_swallow_trailing_text() {
    let junk = "9".repeat(50);
    let input = format!("\x1b[{junk}TAIL");
    assert!(
        clean_line(&input).ends_with("TAIL"),
        "trailing text must survive an unterminated CSI payload"
    );
}

#[test]
fn sanitize_for_message_strips_ansi() {
    let malicious = "\x1b[31mnope\x1b[0m";
    assert_eq!(sanitize_for_message(malicious), "nope");
}

#[test]
fn sanitize_for_message_passes_short_plain_text_unchanged() {
    assert_eq!(sanitize_for_message("urgentish"), "urgentish");
}

#[test]
fn sanitize_for_message_truncates_long_input_with_ellipsis() {
    let long = "a".repeat(500);
    let out = sanitize_for_message(&long);
    assert!(out.chars().count() <= MESSAGE_ECHO_LIMIT + 1);
    assert!(out.ends_with('…'));
}

#[test]
fn sanitize_for_message_does_not_panic_on_multibyte_boundary() {
    let long: String = "あ".repeat(500);
    let out = sanitize_for_message(&long);
    assert!(out.ends_with('…'));
}

// Further cases.

#[test]
fn clean_line_is_idempotent_on_adversarial_input() {
    let input = "\x1b[31mA\u{9b}2J\x1b]8;;x\x07B\u{202e}C\u{2028}D\x1b";
    let once = clean_line(input);
    assert_eq!(once, "ABCD");
    assert_eq!(clean_line(&once), once);
    let multi = clean_multiline("x\n\x1b[1my\t\u{85}z");
    assert_eq!(multi, "x\ny\tz");
    assert_eq!(clean_multiline(&multi), multi);
}

#[test]
fn clean_line_drops_lone_trailing_escape_and_escape_pair() {
    assert_eq!(clean_line("ab\x1b"), "ab");
    assert_eq!(clean_line("a\x1bXb"), "ab");
    // OSC closed by ST (ESC '\').
    assert_eq!(clean_line("a\x1b]0;title\x1b\\b"), "ab");
}

#[test]
fn clean_line_output_never_longer_than_input() {
    for input in ["", "abc", "\x1b[", "\u{9d}", "a\u{9b}", "xyz\x1b]"] {
        let out = clean_line(input);
        assert!(out.chars().count() <= input.chars().count());
        assert!(out.chars().all(|c| !c.is_control()));
    }
}

#[test]
fn sanitize_for_message_exactly_at_limit_is_kept_whole() {
    let exact = "b".repeat(MESSAGE_ECHO_LIMIT);
    assert_eq!(sanitize_for_message(&exact), exact);
    let over = "b".repeat(MESSAGE_ECHO_LIMIT + 1);
    let out = sanitize_for_message(&over);
    assert_eq!(out, format!("{}…", "b".repeat(MESSAGE_ECHO_LIMIT)));
}

#[test]
fn escape_pair_drops_the_next_character_only() {
    assert_eq!(clean_line("a\x1bXb"), "ab");
    assert_eq!(clean_multiline("a\x1b\nb"), "ab");
    assert_eq!(clean_line("tail\x1b"), "tail");
}

#[test]
fn csi_with_fifteen_parameters_is_dropped_whole() {
    let fifteen = "1".repeat(15);
    assert_eq!(clean_line(&format!("\x1b[{fifteen}mX")), "X");
    assert_eq!(clean_line(&format!("\u{9b}{fifteen}mX")), "X");
    // Sixteen parameter characters: the final byte is out of reach.
    let sixteen = "1".repeat(16);
    assert_eq!(clean_line(&format!("\x1b[{sixteen}mX")), format!("[{sixteen}mX"));
    assert_eq!(clean_line(&format!("\u{9b}{sixteen}mX")), format!("{sixteen}mX"));
}

#[test]
fn osc_within_limit_is_dropped_and_unterminated_osc_keeps_text() {
    let payload = "p".repeat(OSC_PARAM_LIMIT - 1);
    assert_eq!(clean_line(&format!("\x1b]{payload}\x07X")), "X");
    assert_eq!(clean_line(&format!("\u{9d}{payload}\x1b\\X")), "X");
    assert_eq!(clean_line("\x1b]no terminator"), "]no terminator");
    assert_eq!(clean_line("\u{9d}no terminator"), "no terminator");
}

#[test]
fn single_line_result_is_multi_line_result_without_newlines_and_tabs() {
    let input = "a\tb\nc\x1b[1md\u{202e}e\r\n";
    let multi = clean_multiline(input);
    assert_eq!(multi, "a\tb\ncde\n");
    let filtered: String = multi.chars().filter(|c| *c != '\n' && *c != '\t').collect();
    assert_eq!(clean_line(input), filtered);
    assert_eq!(filtered, "abcde");
}
