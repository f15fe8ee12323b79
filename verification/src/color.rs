//! ANSI color escape codes used by the table and detail renderers, and the
//! rule for wrapping text in them. Whether color is wanted at all (stdout is
//! a terminal and `NO_COLOR` is unset) is decided by the caller.

use vstd::prelude::*;

verus! {

pub const RESET: &'static str = "\x1b[0m";
pub const DIM: &'static str = "\x1b[2m";
pub const BOLD: &'static str = "\x1b[1m";
pub const CYAN: &'static str = "\x1b[36m";
pub const YELLOW: &'static str = "\x1b[33m";
pub const RED: &'static str = "\x1b[31m";
pub const BOLD_RED: &'static str = "\x1b[1;31m";
pub const GRAY: &'static str = "\x1b[90m";

/// `text` wrapped in `code` .. `RESET` when color output is enabled,
/// otherwise `text` itself.
pub open spec fn paint_spec(code: Seq<char>, text: Seq<char>, enabled: bool) -> Seq<char> {
    if enabled {
        code + text + RESET@
    } else {
        text
    }
}

/// Wrap `text` in `code` .. `RESET`, but only if color output is enabled.
pub fn paint(code: &str, text: &str, enabled: bool) -> (s: String)
    ensures
        s@ == paint_spec(code@, text@, enabled),
{
    if enabled {
        let mut s = String::from_str(code);
        s.append(text);
        s.append(RESET);
        s
    } else {
        String::from_str(text)
    }
}

} // verus!
