//! Strips terminal control characters and ANSI/VT100 escape sequences from
//! user-supplied text before it is stored or echoed, so that no value can
//! later manipulate the terminal it is rendered on.
//!
//! Whole sequences are recognized and dropped, in their 7-bit (ESC-prefixed)
//! and 8-bit (single C1 control code) forms:
//! - CSI: `ESC '['` or `0x9B`, parameters, then a final byte in `0x40..=0x7E`
//!   found within [`CSI_PARAM_LIMIT`] characters;
//! - OSC: `ESC ']'` or `0x9D`, payload, then `BEL` or `ESC '\\'` found within
//!   [`OSC_PARAM_LIMIT`] characters;
//! - any other `ESC` together with the character after it.
//!
//! When a CSI/OSC introducer has no terminator within its limit, only the
//! introducer is dropped and scanning resumes right after it. Every other
//! control character (except `\n` and `\t` in multi-line fields), the Unicode
//! bidirectional-formatting characters and U+2028/U+2029 are dropped too.

use vstd::prelude::*;
use crate::text::{chars_of, is_cc, is_control_char};

verus! {

/// Max characters scanned after a CSI introducer for its final byte.
pub const CSI_PARAM_LIMIT: usize = 16;

/// Max characters scanned after an OSC introducer for its terminator.
pub const OSC_PARAM_LIMIT: usize = 512;

/// Max characters kept when echoing untrusted input into a message.
pub const MESSAGE_ECHO_LIMIT: usize = 80;

pub open spec fn is_csi_final(c: char) -> bool {
    '\u{40}' <= c && c <= '\u{7e}'
}

/// Unicode bidirectional-formatting characters (LRM, RLM, LRE..RLO,
/// LRI..PDI, ARABIC LETTER MARK).
pub open spec fn is_bidi(c: char) -> bool {
    ||| c == '\u{200e}'
    ||| c == '\u{200f}'
    ||| ('\u{202a}' <= c && c <= '\u{202e}')
    ||| ('\u{2066}' <= c && c <= '\u{2069}')
    ||| c == '\u{61c}'
}

/// U+2028 LINE SEPARATOR and U+2029 PARAGRAPH SEPARATOR.
pub open spec fn is_line_sep(c: char) -> bool {
    c == '\u{2028}' || c == '\u{2029}'
}

/// A character that never survives sanitizing on its own; in multi-line
/// mode `\n` and `\t` are the only control characters that are kept.
pub open spec fn is_dropped(c: char, multiline: bool) -> bool {
    ||| (is_cc(c) && !(multiline && (c == '\n' || c == '\t')))
    ||| is_bidi(c)
    ||| is_line_sep(c)
}

/// No character of `s` is one that single-line sanitizing drops.
pub open spec fn line_safe(s: Seq<char>) -> bool {
    forall|k: int| 0 <= k < s.len() ==> !is_dropped(#[trigger] s[k], false)
}

/// No character of `s` is one that multi-line sanitizing drops.
pub open spec fn multiline_safe(s: Seq<char>) -> bool {
    forall|k: int| 0 <= k < s.len() ==> !is_dropped(#[trigger] s[k], true)
}

pub open spec fn min_int(a: int, b: int) -> int {
    if a <= b { a } else { b }
}

/// First CSI final byte at an index in `[j, end)`; the index just past it.
pub open spec fn csi_scan(s: Seq<char>, j: int, end: int) -> Option<int>
    decreases end - j,
{
    if j >= end {
        None
    } else if is_csi_final(s[j]) {
        Some(j + 1)
    } else {
        csi_scan(s, j + 1, end)
    }
}

/// End of a CSI sequence whose parameters start at `start`, if one is
/// recognized within the limit.
pub open spec fn csi_end(s: Seq<char>, start: int) -> Option<int> {
    csi_scan(s, start, min_int(start + CSI_PARAM_LIMIT, s.len() as int))
}

/// First OSC terminator (BEL, or ESC followed by `\`) starting in `[j, end)`;
/// the index just past it.
pub open spec fn osc_scan(s: Seq<char>, j: int, end: int) -> Option<int>
    decreases end - j,
{
    if j >= end {
        None
    } else if s[j] == '\u{7}' {
        Some(j + 1)
    } else if s[j] == '\u{1b}' && j + 1 < s.len() && s[j + 1] == '\\' {
        Some(j + 2)
    } else {
        osc_scan(s, j + 1, end)
    }
}

/// End of an OSC sequence whose payload starts at `start`, if one is
/// recognized within the limit.
pub open spec fn osc_end(s: Seq<char>, start: int) -> Option<int> {
    osc_scan(s, start, min_int(start + OSC_PARAM_LIMIT, s.len() as int))
}

pub open spec fn or_else(o: Option<int>, d: int) -> int {
    match o {
        Some(k) => k,
        None => d,
    }
}

/// One scanning step at index `i`: where scanning resumes, and the
/// character emitted, if any.
pub open spec fn step(s: Seq<char>, i: int, multiline: bool) -> (int, Option<char>) {
    let c = s[i];
    let esc = '\u{1b}';
    if c == esc && i + 1 < s.len() && s[i + 1] == '[' {
        (or_else(csi_end(s, i + 2), i + 1), None)
    } else if c == '\u{9b}' {
        (or_else(csi_end(s, i + 1), i + 1), None)
    } else if c == esc && i + 1 < s.len() && s[i + 1] == ']' {
        (or_else(osc_end(s, i + 2), i + 1), None)
    } else if c == '\u{9d}' {
        (or_else(osc_end(s, i + 1), i + 1), None)
    } else if c == esc {
        (if i + 1 < s.len() { i + 2 } else { i + 1 }, None)
    } else if is_dropped(c, multiline) {
        (i + 1, None)
    } else {
        (i + 1, Some(c))
    }
}

pub open spec fn emitted(o: Option<char>) -> Seq<char> {
    match o {
        Some(c) => seq![c],
        None => seq![],
    }
}

pub proof fn lemma_csi_scan_bounds(s: Seq<char>, j: int, end: int)
    ensures
        csi_scan(s, j, end) matches Some(k) ==> j < k <= end,
    decreases end - j,
{
    if j < end && !is_csi_final(s[j]) {
        lemma_csi_scan_bounds(s, j + 1, end);
    }
}

pub proof fn lemma_osc_scan_bounds(s: Seq<char>, j: int, end: int)
    requires
        end <= s.len(),
    ensures
        osc_scan(s, j, end) matches Some(k) ==> j < k <= s.len(),
    decreases end - j,
{
    if j < end && s[j] != '\u{7}' && !(s[j] == '\u{1b}' && j + 1 < s.len() && s[j + 1] == '\\') {
        lemma_osc_scan_bounds(s, j + 1, end);
    }
}

/// Every step advances, and never past the end of the input.
pub proof fn lemma_step_advances(s: Seq<char>, i: int, multiline: bool)
    requires
        0 <= i < s.len(),
    ensures
        i < step(s, i, multiline).0 <= s.len(),
{
    lemma_csi_scan_bounds(s, i + 2, min_int(i + 2 + CSI_PARAM_LIMIT, s.len() as int));
    lemma_csi_scan_bounds(s, i + 1, min_int(i + 1 + CSI_PARAM_LIMIT, s.len() as int));
    lemma_osc_scan_bounds(s, i + 2, min_int(i + 2 + OSC_PARAM_LIMIT, s.len() as int));
    lemma_osc_scan_bounds(s, i + 1, min_int(i + 1 + OSC_PARAM_LIMIT, s.len() as int));
}

/// What sanitizing the input from index `i` onwards yields; `clean_line`
/// sanitizes with `multiline` false, `clean_multiline` with it true.
pub open spec fn strip_from(s: Seq<char>, i: int, multiline: bool) -> Seq<char>
    decreases s.len() - i,
{
    if i < 0 || i >= s.len() {
        seq![]
    } else {
        proof {
            lemma_step_advances(s, i, multiline);
        }
        let (k, o) = step(s, i, multiline);
        emitted(o) + strip_from(s, k, multiline)
    }
}

/// Sanitized form of a single-line field.
pub open spec fn clean_line_spec(s: Seq<char>) -> Seq<char> {
    strip_from(s, 0, false)
}

/// Sanitized form of a multi-line field (keeps `\n` and `\t`).
pub open spec fn clean_multiline_spec(s: Seq<char>) -> Seq<char> {
    strip_from(s, 0, true)
}

/// Sanitized, length-bounded echo of untrusted input for messages.
pub open spec fn message_echo_spec(s: Seq<char>) -> Seq<char> {
    let c = clean_line_spec(s);
    if c.len() <= MESSAGE_ECHO_LIMIT {
        c
    } else {
        c.take(MESSAGE_ECHO_LIMIT as int).push('…')
    }
}



pub open spec fn shifted(o: Option<int>, n: int) -> Option<int> {
    match o {
        Some(k) => Some(k + n),
        None => None,
    }
}

proof fn lemma_csi_scan_shift(p: Seq<char>, t: Seq<char>, j: int, end: int)
    requires
        0 <= j,
        end <= t.len(),
    ensures
        csi_scan(p + t, p.len() + j, p.len() + end) == shifted(csi_scan(t, j, end), p.len() as int),
    decreases end - j,
{
    if j < end {
        assert((p + t)[p.len() + j] == t[j]);
        lemma_csi_scan_shift(p, t, j + 1, end);
    }
}

proof fn lemma_osc_scan_shift(p: Seq<char>, t: Seq<char>, j: int, end: int)
    requires
        0 <= j,
        end <= t.len(),
    ensures
        osc_scan(p + t, p.len() + j, p.len() + end) == shifted(osc_scan(t, j, end), p.len() as int),
    decreases end - j,
{
    if j < end {
        assert((p + t)[p.len() + j] == t[j]);
        if j + 1 < t.len() {
            assert((p + t)[p.len() + j + 1] == t[j + 1]);
        }
        lemma_osc_scan_shift(p, t, j + 1, end);
    }
}

proof fn lemma_step_shift(p: Seq<char>, t: Seq<char>, j: int, multiline: bool)
    requires
        0 <= j < t.len(),
    ensures
        step(p + t, p.len() + j, multiline) == (
            step(t, j, multiline).0 + p.len(),
            step(t, j, multiline).1,
        ),
{
    let s = p + t;
    let n = p.len() as int;
    assert(s[n + j] == t[j]);
    if j + 1 < t.len() {
        assert(s[n + j + 1] == t[j + 1]);
    }
    lemma_csi_scan_shift(p, t, j + 2, min_int(j + 2 + CSI_PARAM_LIMIT, t.len() as int));
    lemma_csi_scan_shift(p, t, j + 1, min_int(j + 1 + CSI_PARAM_LIMIT, t.len() as int));
    lemma_osc_scan_shift(p, t, j + 2, min_int(j + 2 + OSC_PARAM_LIMIT, t.len() as int));
    lemma_osc_scan_shift(p, t, j + 1, min_int(j + 1 + OSC_PARAM_LIMIT, t.len() as int));
    assert(min_int(n + j + 2 + CSI_PARAM_LIMIT, s.len() as int) == n + min_int(j + 2 + CSI_PARAM_LIMIT, t.len() as int));
    assert(min_int(n + j + 1 + CSI_PARAM_LIMIT, s.len() as int) == n + min_int(j + 1 + CSI_PARAM_LIMIT, t.len() as int));
    assert(min_int(n + j + 2 + OSC_PARAM_LIMIT, s.len() as int) == n + min_int(j + 2 + OSC_PARAM_LIMIT, t.len() as int));
    assert(min_int(n + j + 1 + OSC_PARAM_LIMIT, s.len() as int) == n + min_int(j + 1 + OSC_PARAM_LIMIT, t.len() as int));
}

/// What precedes a position never changes what sanitizing yields from
/// there on: sanitizing `p + t` from the start of `t` gives what
/// sanitizing `t` alone gives.
pub proof fn lemma_strip_from_shift(p: Seq<char>, t: Seq<char>, j: int, multiline: bool)
    requires
        0 <= j,
    ensures
        strip_from(p + t, p.len() + j, multiline) == strip_from(t, j, multiline),
    decreases t.len() - j,
{
    if j < t.len() {
        lemma_step_shift(p, t, j, multiline);
        lemma_step_advances(t, j, multiline);
        let k = step(t, j, multiline).0;
        lemma_strip_from_shift(p, t, k, multiline);
    }
}

/// Every character that sanitizing emits is one that is never dropped.
pub proof fn lemma_strip_from_safe(s: Seq<char>, i: int, multiline: bool)
    ensures
        forall|k: int|
            0 <= k < strip_from(s, i, multiline).len() ==> !is_dropped(
                #[trigger] strip_from(s, i, multiline)[k],
                multiline,
            ),
    decreases s.len() - i,
{
    if 0 <= i < s.len() {
        lemma_step_advances(s, i, multiline);
        let (k, o) = step(s, i, multiline);
        lemma_strip_from_safe(s, k, multiline);
        let rest = strip_from(s, k, multiline);
        assert(strip_from(s, i, multiline) == emitted(o) + rest);
        assert forall|m: int| 0 <= m < strip_from(s, i, multiline).len() implies !is_dropped(
            #[trigger] strip_from(s, i, multiline)[m],
            multiline,
        ) by {
            if m >= emitted(o).len() {
                assert(strip_from(s, i, multiline)[m] == rest[m - emitted(o).len()]);
            }
        }
    }
}

/// Input made only of characters that are never dropped passes unchanged.
pub proof fn lemma_strip_from_identity(s: Seq<char>, i: int, multiline: bool)
    requires
        0 <= i <= s.len(),
        forall|k: int| i <= k < s.len() ==> !is_dropped(#[trigger] s[k], multiline),
    ensures
        strip_from(s, i, multiline) == s.subrange(i, s.len() as int),
    decreases s.len() - i,
{
    if i < s.len() {
        assert(!is_dropped(s[i], multiline));
        assert(step(s, i, multiline) == (i + 1, Some(s[i])));
        lemma_strip_from_identity(s, i + 1, multiline);
        assert(s.subrange(i, s.len() as int) =~= seq![s[i]] + s.subrange(i + 1, s.len() as int));
    } else {
        assert(s.subrange(i, s.len() as int) =~= Seq::<char>::empty());
    }
}

/// Sanitizing never lengthens its input.
pub proof fn lemma_strip_from_len(s: Seq<char>, i: int, multiline: bool)
    requires
        0 <= i <= s.len(),
    ensures
        strip_from(s, i, multiline).len() <= s.len() - i,
    decreases s.len() - i,
{
    if i < s.len() {
        lemma_step_advances(s, i, multiline);
        let (k, o) = step(s, i, multiline);
        lemma_strip_from_len(s, k, multiline);
    }
}

/// What `clean_line` returns holds no control character, no
/// bidirectional-formatting character and no line/paragraph separator
/// (so in particular no ESC), and is never longer than its input.
pub proof fn clean_line_output_is_terminal_safe(s: Seq<char>)
    ensures
        line_safe(clean_line_spec(s)),
        clean_line_spec(s).len() <= s.len(),
{
    lemma_strip_from_safe(s, 0, false);
    lemma_strip_from_len(s, 0, false);
}

/// What `clean_multiline` returns holds no control character other than
/// `\n` and `\t`, no bidirectional-formatting character and no
/// line/paragraph separator, and is never longer than its input.
pub proof fn clean_multiline_output_is_terminal_safe(s: Seq<char>)
    ensures
        multiline_safe(clean_multiline_spec(s)),
        clean_multiline_spec(s).len() <= s.len(),
{
    lemma_strip_from_safe(s, 0, true);
    lemma_strip_from_len(s, 0, true);
}

/// Text with nothing to strip passes `clean_line` unchanged.
pub proof fn clean_line_keeps_plain_text(s: Seq<char>)
    requires
        line_safe(s),
    ensures
        clean_line_spec(s) == s,
{
    lemma_strip_from_identity(s, 0, false);
    assert(s.subrange(0, s.len() as int) =~= s);
}

/// Text with nothing to strip passes `clean_multiline` unchanged.
pub proof fn clean_multiline_keeps_plain_text(s: Seq<char>)
    requires
        multiline_safe(s),
    ensures
        clean_multiline_spec(s) == s,
{
    lemma_strip_from_identity(s, 0, true);
    assert(s.subrange(0, s.len() as int) =~= s);
}

/// Cleaning an already cleaned single-line value changes nothing.
pub proof fn clean_line_is_idempotent(s: Seq<char>)
    ensures
        clean_line_spec(clean_line_spec(s)) == clean_line_spec(s),
{
    clean_line_output_is_terminal_safe(s);
    clean_line_keeps_plain_text(clean_line_spec(s));
}

/// Cleaning an already cleaned multi-line value changes nothing.
pub proof fn clean_multiline_is_idempotent(s: Seq<char>)
    ensures
        clean_multiline_spec(clean_multiline_spec(s)) == clean_multiline_spec(s),
{
    clean_multiline_output_is_terminal_safe(s);
    clean_multiline_keeps_plain_text(clean_multiline_spec(s));
}

proof fn lemma_csi_scan_found(s: Seq<char>, j: int, end: int, j0: int)
    requires
        j <= j0 < end,
        0 <= j,
        end <= s.len(),
        forall|k: int| j <= k < j0 ==> !is_csi_final(#[trigger] s[k]),
        is_csi_final(s[j0]),
    ensures
        csi_scan(s, j, end) == Some(j0 + 1),
    decreases j0 - j,
{
    if j < j0 {
        lemma_csi_scan_found(s, j + 1, end, j0);
    }
}

proof fn lemma_csi_scan_none(s: Seq<char>, j: int, end: int)
    requires
        forall|k: int| j <= k < end ==> !is_csi_final(#[trigger] s[k]),
    ensures
        csi_scan(s, j, end) is None,
    decreases end - j,
{
    if j < end {
        lemma_csi_scan_none(s, j + 1, end);
    }
}

/// An OSC terminator starts at index `k` of `s`: BEL, or ESC followed by `\`.
pub open spec fn osc_terminator_at(s: Seq<char>, k: int) -> bool {
    s[k] == '\u{7}' || (s[k] == '\u{1b}' && k + 1 < s.len() && s[k + 1] == '\\')
}

proof fn lemma_osc_scan_found(s: Seq<char>, j: int, end: int, j0: int)
    requires
        j <= j0 < end,
        0 <= j,
        end <= s.len(),
        forall|k: int| j <= k < j0 ==> #[trigger] s[k] != '\u{7}' && s[k] != '\u{1b}',
        osc_terminator_at(s, j0),
    ensures
        osc_scan(s, j, end) == Some(if s[j0] == '\u{7}' { j0 + 1 } else { j0 + 2 }),
    decreases j0 - j,
{
    if j < j0 {
        lemma_osc_scan_found(s, j + 1, end, j0);
    }
}

proof fn lemma_osc_scan_none(s: Seq<char>, j: int, end: int)
    requires
        forall|k: int| j <= k < end ==> !#[trigger] osc_terminator_at(s, k),
    ensures
        osc_scan(s, j, end) is None,
    decreases end - j,
{
    if j < end {
        assert(!osc_terminator_at(s, j));
        lemma_osc_scan_none(s, j + 1, end);
    }
}

/// ESC followed by any character other than `[` and `]` is dropped together
/// with that character, in either mode, and a lone trailing ESC is dropped.
pub proof fn escape_pair_is_dropped(c: char, t: Seq<char>, multiline: bool)
    requires
        c != '[',
        c != ']',
    ensures
        strip_from(seq!['\u{1b}', c] + t, 0, multiline) == strip_from(t, 0, multiline),
        strip_from(seq!['\u{1b}'], 0, multiline) == Seq::<char>::empty(),
{
    let p = seq!['\u{1b}', c];
    let s = p + t;
    assert(s[0] == '\u{1b}' && s[1] == c);
    assert(step(s, 0, multiline) == (2int, None::<char>));
    lemma_strip_from_shift(p, t, 0, multiline);
    assert(strip_from(s, 0, multiline) =~= strip_from(s, 2, multiline));
    let e = seq!['\u{1b}'];
    assert(step(e, 0, multiline) == (1int, None::<char>));
    assert(strip_from(e, 0, multiline) =~= strip_from(e, 1, multiline));
}

/// No character of `q` is a CSI final byte.
pub open spec fn no_csi_final(q: Seq<char>) -> bool {
    forall|k: int| 0 <= k < q.len() ==> !is_csi_final(#[trigger] q[k])
}

/// A CSI sequence, introduced by ESC `[` or by U+009B, with at most
/// `CSI_PARAM_LIMIT - 1` parameter characters before its final byte, is
/// dropped whole, in either mode: what follows it is sanitized as if it
/// stood alone.
pub proof fn csi_sequence_is_dropped(q: Seq<char>, f: char, t: Seq<char>, multiline: bool)
    requires
        q.len() < CSI_PARAM_LIMIT,
        no_csi_final(q),
        is_csi_final(f),
    ensures
        strip_from(seq!['\u{1b}', '['] + q + seq![f] + t, 0, multiline) == strip_from(t, 0, multiline),
        strip_from(seq!['\u{9b}'] + q + seq![f] + t, 0, multiline) == strip_from(t, 0, multiline),
{
    let p = seq!['\u{1b}', '['] + q + seq![f];
    let s = p + t;
    assert(s[0] == '\u{1b}' && s[1] == '[');
    assert forall|k: int| 2 <= k < 2 + q.len() as int implies !is_csi_final(#[trigger] s[k]) by {
        assert(s[k] == q[k - 2]);
    }
    assert(s[2 + q.len() as int] == f);
    lemma_csi_scan_found(s, 2, min_int(2 + CSI_PARAM_LIMIT, s.len() as int), 2 + q.len() as int);
    assert(step(s, 0, multiline) == (p.len() as int, None::<char>));
    lemma_strip_from_shift(p, t, 0, multiline);
    assert(strip_from(s, 0, multiline) =~= strip_from(s, p.len() as int, multiline));

    let p8 = seq!['\u{9b}'] + q + seq![f];
    let s8 = p8 + t;
    assert(s8[0] == '\u{9b}');
    assert forall|k: int| 1 <= k < 1 + q.len() as int implies !is_csi_final(#[trigger] s8[k]) by {
        assert(s8[k] == q[k - 1]);
    }
    assert(s8[1 + q.len() as int] == f);
    lemma_csi_scan_found(s8, 1, min_int(1 + CSI_PARAM_LIMIT, s8.len() as int), 1 + q.len() as int);
    assert(step(s8, 0, multiline) == (p8.len() as int, None::<char>));
    lemma_strip_from_shift(p8, t, 0, multiline);
    assert(strip_from(s8, 0, multiline) =~= strip_from(s8, p8.len() as int, multiline));
}

/// A CSI introducer with no final byte among the next `CSI_PARAM_LIMIT`
/// characters is not a sequence: only the introducer is dropped (ESC
/// alone, so the `[` of ESC `[` stays as text), and nothing after it is
/// lost.
pub proof fn unterminated_csi_keeps_what_follows(r: Seq<char>, multiline: bool)
    requires
        forall|k: int| 0 <= k < min_int(CSI_PARAM_LIMIT as int, r.len() as int) ==> !is_csi_final(
            #[trigger] r[k],
        ),
    ensures
        strip_from(seq!['\u{1b}', '['] + r, 0, multiline) == seq!['['] + strip_from(r, 0, multiline),
        strip_from(seq!['\u{9b}'] + r, 0, multiline) == strip_from(r, 0, multiline),
{
    let s = seq!['\u{1b}', '['] + r;
    assert forall|k: int| 2 <= k < min_int(2 + CSI_PARAM_LIMIT, s.len() as int) implies !is_csi_final(
        #[trigger] s[k],
    ) by {
        assert(s[k] == r[k - 2]);
    }
    lemma_csi_scan_none(s, 2, min_int(2 + CSI_PARAM_LIMIT, s.len() as int));
    assert(step(s, 0, multiline) == (1int, None::<char>));
    let t2 = seq!['['] + r;
    assert(s =~= seq!['\u{1b}'] + t2);
    lemma_strip_from_shift(seq!['\u{1b}'], t2, 0, multiline);
    assert(strip_from(s, 0, multiline) =~= strip_from(s, 1, multiline));
    assert(step(t2, 0, multiline) == (1int, Some('[')));
    lemma_strip_from_shift(seq!['['], r, 0, multiline);
    assert(strip_from(t2, 0, multiline) =~= seq!['['] + strip_from(t2, 1, multiline));

    let s8 = seq!['\u{9b}'] + r;
    assert forall|k: int| 1 <= k < min_int(1 + CSI_PARAM_LIMIT, s8.len() as int) implies !is_csi_final(
        #[trigger] s8[k],
    ) by {
        assert(s8[k] == r[k - 1]);
    }
    lemma_csi_scan_none(s8, 1, min_int(1 + CSI_PARAM_LIMIT, s8.len() as int));
    assert(step(s8, 0, multiline) == (1int, None::<char>));
    lemma_strip_from_shift(seq!['\u{9b}'], r, 0, multiline);
    assert(strip_from(s8, 0, multiline) =~= strip_from(s8, 1, multiline));
}

/// An OSC terminator: BEL, or ESC `\`.
pub open spec fn is_osc_terminator(term: Seq<char>) -> bool {
    term == seq!['\u{7}'] || term == seq!['\u{1b}', '\\']
}

/// An OSC sequence, introduced by ESC `]` or by U+009D, whose payload of
/// at most `OSC_PARAM_LIMIT - 1` characters (no BEL, no ESC) is followed
/// by a terminator, is dropped whole, in either mode.
pub proof fn osc_sequence_is_dropped(q: Seq<char>, term: Seq<char>, t: Seq<char>, multiline: bool)
    requires
        q.len() < OSC_PARAM_LIMIT,
        forall|k: int| 0 <= k < q.len() ==> #[trigger] q[k] != '\u{7}' && q[k] != '\u{1b}',
        is_osc_terminator(term),
    ensures
        strip_from(seq!['\u{1b}', ']'] + q + term + t, 0, multiline) == strip_from(t, 0, multiline),
        strip_from(seq!['\u{9d}'] + q + term + t, 0, multiline) == strip_from(t, 0, multiline),
{
    let p = seq!['\u{1b}', ']'] + q + term;
    let s = p + t;
    assert(s[0] == '\u{1b}' && s[1] == ']');
    assert forall|k: int| 2 <= k < 2 + q.len() as int implies #[trigger] s[k] != '\u{7}' && s[k] != '\u{1b}' by {
        assert(s[k] == q[k - 2]);
    }
    assert(s[2 + q.len() as int] == term[0]);
    if term.len() == 2 {
        assert(s[3 + q.len() as int] == term[1]);
    }
    lemma_osc_scan_found(s, 2, min_int(2 + OSC_PARAM_LIMIT, s.len() as int), 2 + q.len() as int);
    assert(step(s, 0, multiline) == (p.len() as int, None::<char>));
    lemma_strip_from_shift(p, t, 0, multiline);
    assert(strip_from(s, 0, multiline) =~= strip_from(s, p.len() as int, multiline));

    let p8 = seq!['\u{9d}'] + q + term;
    let s8 = p8 + t;
    assert(s8[0] == '\u{9d}');
    assert forall|k: int| 1 <= k < 1 + q.len() as int implies #[trigger] s8[k] != '\u{7}' && s8[k] != '\u{1b}' by {
        assert(s8[k] == q[k - 1]);
    }
    assert(s8[1 + q.len() as int] == term[0]);
    if term.len() == 2 {
        assert(s8[2 + q.len() as int] == term[1]);
    }
    lemma_osc_scan_found(s8, 1, min_int(1 + OSC_PARAM_LIMIT, s8.len() as int), 1 + q.len() as int);
    assert(step(s8, 0, multiline) == (p8.len() as int, None::<char>));
    lemma_strip_from_shift(p8, t, 0, multiline);
    assert(strip_from(s8, 0, multiline) =~= strip_from(s8, p8.len() as int, multiline));
}

/// An OSC introducer with no terminator starting among the next
/// `OSC_PARAM_LIMIT` characters is not a sequence: only the introducer is
/// dropped (ESC alone, so the `]` of ESC `]` stays as text), and nothing
/// after it is lost.
pub proof fn unterminated_osc_keeps_what_follows(r: Seq<char>, multiline: bool)
    requires
        forall|k: int| 0 <= k < min_int(OSC_PARAM_LIMIT as int, r.len() as int) ==> !#[trigger] osc_terminator_at(r, k),
    ensures
        strip_from(seq!['\u{1b}', ']'] + r, 0, multiline) == seq![']'] + strip_from(r, 0, multiline),
        strip_from(seq!['\u{9d}'] + r, 0, multiline) == strip_from(r, 0, multiline),
{
    let s = seq!['\u{1b}', ']'] + r;
    assert forall|k: int| 2 <= k < min_int(2 + OSC_PARAM_LIMIT, s.len() as int) implies !#[trigger] osc_terminator_at(s, k) by {
        assert(s[k] == r[k - 2]);
        if k + 1 < s.len() {
            assert(s[k + 1] == r[k - 1]);
        }
        assert(!osc_terminator_at(r, k - 2));
    }
    lemma_osc_scan_none(s, 2, min_int(2 + OSC_PARAM_LIMIT, s.len() as int));
    assert(step(s, 0, multiline) == (1int, None::<char>));
    let t2 = seq![']'] + r;
    assert(s =~= seq!['\u{1b}'] + t2);
    lemma_strip_from_shift(seq!['\u{1b}'], t2, 0, multiline);
    assert(strip_from(s, 0, multiline) =~= strip_from(s, 1, multiline));
    assert(step(t2, 0, multiline) == (1int, Some(']')));
    lemma_strip_from_shift(seq![']'], r, 0, multiline);
    assert(strip_from(t2, 0, multiline) =~= seq![']'] + strip_from(t2, 1, multiline));

    let s8 = seq!['\u{9d}'] + r;
    assert forall|k: int| 1 <= k < min_int(1 + OSC_PARAM_LIMIT, s8.len() as int) implies !#[trigger] osc_terminator_at(s8, k) by {
        assert(s8[k] == r[k - 1]);
        if k + 1 < s8.len() {
            assert(s8[k + 1] == r[k]);
        }
        assert(!osc_terminator_at(r, k - 1));
    }
    lemma_osc_scan_none(s8, 1, min_int(1 + OSC_PARAM_LIMIT, s8.len() as int));
    assert(step(s8, 0, multiline) == (1int, None::<char>));
    lemma_strip_from_shift(seq!['\u{9d}'], r, 0, multiline);
    assert(strip_from(s8, 0, multiline) =~= strip_from(s8, 1, multiline));
}

/// Keeps a character on a single line: anything but `\n` and `\t`.
pub open spec fn single_line_keeps() -> spec_fn(char) -> bool {
    |c: char| c != '\n' && c != '\t'
}

proof fn lemma_filter_emitted(o: Option<char>)
    ensures
        emitted(o).filter(single_line_keeps()) == match o {
            Some(c) => if c != '\n' && c != '\t' { seq![c] } else { Seq::<char>::empty() },
            None => Seq::<char>::empty(),
        },
{
    reveal(Seq::filter);
    let keeps = single_line_keeps();
    let empty = Seq::<char>::empty();
    assert(empty.filter(keeps) =~= empty);
    if let Some(c) = o {
        let e = seq![c];
        assert(e.drop_last() =~= empty);
        assert(e.last() == c);
        assert(keeps(c) == (c != '\n' && c != '\t'));
        assert(e.filter(keeps) == if keeps(c) { empty.filter(keeps).push(c) } else { empty.filter(keeps) });
        assert(empty.push(c) =~= e);
    }
}

proof fn lemma_strip_modes(s: Seq<char>, i: int)
    ensures
        strip_from(s, i, false) == strip_from(s, i, true).filter(single_line_keeps()),
    decreases s.len() - i,
{
    if 0 <= i < s.len() {
        lemma_step_advances(s, i, true);
        let (k, o) = step(s, i, true);
        assert(step(s, i, false).0 == k);
        lemma_strip_modes(s, k);
        lemma_filter_emitted(o);
        assert(emitted(step(s, i, false).1) == emitted(o).filter(single_line_keeps()));
        Seq::filter_distributes_over_add(emitted(o), strip_from(s, k, true), single_line_keeps());
    } else {
        reveal(Seq::filter);
        assert(Seq::<char>::empty().filter(single_line_keeps()) =~= Seq::<char>::empty());
    }
}

/// Single-line cleaning keeps exactly what multi-line cleaning keeps, less
/// its newlines and tabs.
pub proof fn clean_line_is_clean_multiline_without_newlines_and_tabs(s: Seq<char>)
    ensures
        clean_line_spec(s) == clean_multiline_spec(s).filter(single_line_keeps()),
{
    lemma_strip_modes(s, 0);
}

/// A character that is neither a C0 or C1 control code (General Category
/// Cc: U+0000..U+001F and U+007F..U+009F), nor a bidirectional-formatting
/// character (U+061C, U+200E, U+200F, U+202A..U+202E, U+2066..U+2069), nor
/// U+2028/U+2029: letters, digits, punctuation, symbols and spaces of every
/// script, accented Latin letters such as `é` (U+00E9) among them.
pub open spec fn is_printable(c: char) -> bool {
    &&& c >= '\u{20}'
    &&& !('\u{7f}' <= c && c <= '\u{9f}')
    &&& c != '\u{61c}'
    &&& c != '\u{200e}'
    &&& c != '\u{200f}'
    &&& !('\u{202a}' <= c && c <= '\u{202e}')
    &&& !('\u{2066}' <= c && c <= '\u{2069}')
    &&& c != '\u{2028}'
    &&& c != '\u{2029}'
}

/// Cleaning keeps printable text whole, in either mode: only control codes,
/// bidirectional-formatting characters and line/paragraph separators are
/// ever dropped on their own, never a letter.
pub proof fn printable_text_is_kept(s: Seq<char>, multiline: bool)
    requires
        forall|k: int| 0 <= k < s.len() ==> is_printable(#[trigger] s[k]),
    ensures
        strip_from(s, 0, multiline) == s,
        clean_line_spec(s) == s,
        clean_multiline_spec(s) == s,
{
    assert forall|k: int| 0 <= k < s.len() implies !is_dropped(#[trigger] s[k], multiline) by {
        assert(is_printable(s[k]));
    }
    assert forall|k: int| 0 <= k < s.len() implies !is_dropped(#[trigger] s[k], false) by {
        assert(is_printable(s[k]));
    }
    assert forall|k: int| 0 <= k < s.len() implies !is_dropped(#[trigger] s[k], true) by {
        assert(is_printable(s[k]));
    }
    lemma_strip_from_identity(s, 0, multiline);
    lemma_strip_from_identity(s, 0, false);
    lemma_strip_from_identity(s, 0, true);
    assert(s.subrange(0, s.len() as int) =~= s);
}

/// What cleaning yields is printable: `clean_line` output holds only
/// printable characters, and `clean_multiline` output only printable
/// characters, `\n` and `\t`.
pub proof fn cleaned_text_is_printable(s: Seq<char>)
    ensures
        forall|k: int| 0 <= k < clean_line_spec(s).len() ==> is_printable(#[trigger] clean_line_spec(s)[k]),
        forall|k: int|
            0 <= k < clean_multiline_spec(s).len() ==> {
                let c = #[trigger] clean_multiline_spec(s)[k];
                is_printable(c) || c == '\n' || c == '\t'
            },
{
    lemma_strip_from_safe(s, 0, false);
    lemma_strip_from_safe(s, 0, true);
    assert forall|k: int| 0 <= k < clean_line_spec(s).len() implies is_printable(#[trigger] clean_line_spec(s)[k]) by {
        assert(!is_dropped(clean_line_spec(s)[k], false));
    }
    assert forall|k: int| 0 <= k < clean_multiline_spec(s).len() implies {
        let c = #[trigger] clean_multiline_spec(s)[k];
        is_printable(c) || c == '\n' || c == '\t'
    } by {
        assert(!is_dropped(clean_multiline_spec(s)[k], true));
    }
}

fn is_bidi_control(c: char) -> (b: bool)
    ensures
        b == is_bidi(c),
{
    c == '\u{200e}' || c == '\u{200f}' || ('\u{202a}' <= c && c <= '\u{202e}') || ('\u{2066}' <= c
        && c <= '\u{2069}') || c == '\u{61c}'
}

fn is_line_or_paragraph_separator(c: char) -> (b: bool)
    ensures
        b == is_line_sep(c),
{
    c == '\u{2028}' || c == '\u{2029}'
}

pub open spec fn opt_index(o: Option<usize>) -> Option<int> {
    match o {
        Some(k) => Some(k as int),
        None => None,
    }
}

/// Scan for a CSI final byte starting at `params_start`.
fn skip_csi(chars: &Vec<char>, params_start: usize, n: usize) -> (r: Option<usize>)
    requires
        n == chars@.len(),
        params_start <= n,
    ensures
        opt_index(r) == csi_end(chars@, params_start as int),
{
    let scan_end: usize = if n - params_start < CSI_PARAM_LIMIT {
        n
    } else {
        params_start + CSI_PARAM_LIMIT
    };
    let mut j = params_start;
    while j < scan_end
        invariant
            params_start <= j <= scan_end <= n,
            n == chars@.len(),
            scan_end == min_int(params_start + CSI_PARAM_LIMIT, n as int),
            csi_scan(chars@, j as int, scan_end as int) == csi_end(chars@, params_start as int),
        decreases scan_end - j,
    {
        let c = chars[j];
        if '\u{40}' <= c && c <= '\u{7e}' {
            return Some(j + 1);
        }
        j = j + 1;
    }
    None
}

/// Scan for an OSC terminator (BEL, or ESC `\`) starting at `params_start`.
fn skip_osc(chars: &Vec<char>, params_start: usize, n: usize) -> (r: Option<usize>)
    requires
        n == chars@.len(),
        params_start <= n,
    ensures
        opt_index(r) == osc_end(chars@, params_start as int),
{
    let scan_end: usize = if n - params_start < OSC_PARAM_LIMIT {
        n
    } else {
        params_start + OSC_PARAM_LIMIT
    };
    let mut j = params_start;
    while j < scan_end
        invariant
            params_start <= j <= scan_end <= n,
            n == chars@.len(),
            scan_end == min_int(params_start + OSC_PARAM_LIMIT, n as int),
            osc_scan(chars@, j as int, scan_end as int) == osc_end(chars@, params_start as int),
        decreases scan_end - j,
    {
        if chars[j] == '\u{7}' {
            return Some(j + 1);
        }
        if chars[j] == '\u{1b}' && j + 1 < n && chars[j + 1] == '\\' {
            return Some(j + 2);
        }
        j = j + 1;
    }
    None
}

fn resume_at(r: Option<usize>, fallback: usize) -> (k: usize)
    ensures
        k as int == or_else(opt_index(r), fallback as int),
{
    match r {
        Some(k) => k,
        None => fallback,
    }
}

fn strip_ansi(input: &str, multiline: bool) -> (out: String)
    ensures
        out@ == strip_from(input@, 0, multiline),
{
    let chars = chars_of(input);
    let n = chars.len();
    let mut out = String::new();
    let mut i: usize = 0;
    while i < n
        invariant
            i <= n,
            n == chars@.len(),
            chars@ == input@,
            strip_from(chars@, 0, multiline) == out@ + strip_from(chars@, i as int, multiline),
        decreases n - i,
    {
        let ghost s = chars@;
        let ghost before = out@;
        proof {
            lemma_step_advances(s, i as int, multiline);
        }
        let c = chars[i];
        let next: usize;
        if c == '\u{1b}' && i + 1 < n && chars[i + 1] == '[' {
            next = resume_at(skip_csi(&chars, i + 2, n), i + 1);
        } else if c == '\u{9b}' {
            next = resume_at(skip_csi(&chars, i + 1, n), i + 1);
        } else if c == '\u{1b}' && i + 1 < n && chars[i + 1] == ']' {
            next = resume_at(skip_osc(&chars, i + 2, n), i + 1);
        } else if c == '\u{9d}' {
            next = resume_at(skip_osc(&chars, i + 1, n), i + 1);
        } else if c == '\u{1b}' {
            next = if i + 1 < n { i + 2 } else { i + 1 };
        } else if (is_control_char(c) && !(multiline && (c == '\n' || c == '\t')))
            || is_bidi_control(c) || is_line_or_paragraph_separator(c) {
            next = i + 1;
        } else {
            out.push(c);
            next = i + 1;
        }
        assert(next as int == step(s, i as int, multiline).0);
        assert(out@ == before + emitted(step(s, i as int, multiline).1));
        i = next;
    }
    out
}

/// For single-line fields (title, assigned agent, tags, due date): drops
/// escape sequences and every control character, including `\n`, `\r`, `\t`.
pub fn clean_line(input: &str) -> (out: String)
    ensures
        out@ == clean_line_spec(input@),
{
    strip_ansi(input, false)
}

/// For multi-line fields (description): same as [`clean_line`] but keeps
/// `\n` and `\t`.
pub fn clean_multiline(input: &str) -> (out: String)
    ensures
        out@ == clean_multiline_spec(input@),
{
    strip_ansi(input, true)
}

/// Makes untrusted input safe to embed in a message printed to a terminal:
/// sanitized like [`clean_line`], then cut to [`MESSAGE_ECHO_LIMIT`]
/// characters followed by `…` when longer.
pub fn sanitize_for_message(input: &str) -> (out: String)
    ensures
        out@ == message_echo_spec(input@),
        out@.len() <= MESSAGE_ECHO_LIMIT + 1,
        line_safe(out@),
{
    proof {
        clean_line_output_is_terminal_safe(input@);
    }
    let cleaned = clean_line(input);
    let chars = chars_of(cleaned.as_str());
    if chars.len() <= MESSAGE_ECHO_LIMIT {
        return cleaned;
    }
    let mut out = String::new();
    let mut i: usize = 0;
    while i < MESSAGE_ECHO_LIMIT
        invariant
            i <= MESSAGE_ECHO_LIMIT < chars@.len(),
            out@ == chars@.take(i as int),
        decreases MESSAGE_ECHO_LIMIT - i,
    {
        out.push(chars[i]);
        i = i + 1;
        assert(chars@.take(i as int) == chars@.take(i - 1).push(chars@[i - 1]));
    }
    out.push('…');
    out
}

} // verus!
