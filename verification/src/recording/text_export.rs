//! The text a recording leaves on a terminal, as exported to the clipboard or
//! a file. Rendering the recording through a terminal emulator is done by
//! the caller; this module holds the result type and the line range the
//! export reads.

use vstd::prelude::*;
use crate::recording::recovery::RecordingCompleteness;

verus! {

#[derive(Clone, Debug, PartialEq, Eq)]
pub struct RecordingTextExport {
    pub text: String,
    pub completeness: RecordingCompleteness,
    pub history_size: usize,
    pub screen_lines: usize,
    pub columns: usize,
}

pub open spec fn clamp_to_i32(n: usize) -> int {
    if n > i32::MAX { i32::MAX as int } else { n as int }
}

/// The terminal line indices from the oldest retained scrollback line to the
/// last screen line; both counts saturate at `i32::MAX` first.
pub fn retained_line_bounds(history_size: usize, screen_lines: usize) -> (r: (i32, i32))
    ensures
        r.0 == -clamp_to_i32(history_size),
        r.1 == clamp_to_i32(screen_lines) - 1,
{
    let retained_history: i32 = if history_size > 2147483647 { 2147483647 } else { history_size as i32 };
    let retained_screen_lines: i32 = if screen_lines > 2147483647 { 2147483647 } else { screen_lines as i32 };
    (-retained_history, retained_screen_lines - 1)
}

} // verus!
