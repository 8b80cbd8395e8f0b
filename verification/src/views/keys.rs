//! The keys the views react to, as plain values.

use vstd::prelude::*;

verus! {

/// A key code.
#[derive(Debug, Clone, Copy, PartialEq, Eq, Structural)]
pub enum Key {
    Char(char),
    Esc,
    Enter,
    Up,
    Down,
    PageUp,
    PageDown,
    Home,
    End,
    Backspace,
    Tab,
    BackTab,
    Other,
}

/// A key press: the key and which modifiers were held.
#[derive(Debug, Clone, Copy, PartialEq, Eq, Structural)]
pub struct KeyPress {
    pub key: Key,
    /// Shift was held.
    pub shift: bool,
    /// Control was held.
    pub control: bool,
    /// A modifier other than Shift and Control (Alt, Super, ...) was held.
    pub alt: bool,
}

impl KeyPress {
    /// A key pressed without modifiers.
    pub fn plain(key: Key) -> (k: Self)
        ensures
            k == (KeyPress { key, shift: false, control: false, alt: false }),
    {
        KeyPress { key, shift: false, control: false, alt: false }
    }

    /// A key pressed with Control alone.
    pub fn with_control(key: Key) -> (k: Self)
        ensures
            k == (KeyPress { key, shift: false, control: true, alt: false }),
    {
        KeyPress { key, shift: false, control: true, alt: false }
    }
}

} // verus!
