//! The foreground colours that the views pick for cells.
//!
//! Which colour a state or a remaining time gets is part of the views'
//! rules; the terminal colour it maps to is the application's business.

use vstd::prelude::*;

verus! {

/// A foreground colour for a table cell or a label.
#[derive(Debug, Clone, Copy, PartialEq, Eq, Structural)]
pub enum Tint {
    Green,
    Red,
    Yellow,
    Cyan,
    Magenta,
    DarkGray,
    White,
}

} // verus!
