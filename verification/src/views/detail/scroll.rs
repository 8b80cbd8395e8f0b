//! Scrolling and the outcome of a key on a detail screen.

use vstd::prelude::*;

verus! {

/// What a detail screen asks of the application after a key.
#[derive(Debug, Clone, PartialEq, Eq)]
pub enum Outcome {
    /// Nothing; the screen stays open.
    Nothing,
    /// Close the screen.
    Close,
    /// Close the screen with a value the user entered.
    Value(String),
}

/// Scroll position: either at a specific offset or at the bottom.
#[derive(Debug, Clone, Copy, PartialEq, Eq, Structural)]
pub enum Scroll {
    At(usize),
    Bottom,
}

/// `a - b`, or zero.
pub open spec fn sat_sub(a: int, b: int) -> int {
    if a > b {
        a - b
    } else {
        0
    }
}

/// The offset of the first shown line of `len` lines in a viewport of
/// `height` lines: at most `len - height`, and that at the bottom.
pub open spec fn resolve_offset(scroll: Scroll, len: int, height: int) -> int {
    match scroll {
        Scroll::At(o) => if o < sat_sub(len, height) {
            o as int
        } else {
            sat_sub(len, height)
        },
        Scroll::Bottom => sat_sub(len, height),
    }
}

/// `resolve_offset`, executable.
pub fn resolve(scroll: Scroll, len: usize, height: usize) -> (r: usize)
    ensures
        r == resolve_offset(scroll, len as int, height as int),
{
    let max = len.saturating_sub(height);
    match scroll {
        Scroll::At(o) => if o < max {
            o
        } else {
            max
        },
        Scroll::Bottom => max,
    }
}

/// The resolved offset never leaves the content: it is at most the number
/// of lines that do not fit.
pub proof fn lemma_offset_in_range(scroll: Scroll, len: int, height: int)
    ensures
        0 <= resolve_offset(scroll, len, height) <= sat_sub(len, height),
{
}

} // verus!
