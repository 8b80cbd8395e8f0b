//! Generic Yes/No confirmation modal.

use crate::views::keys::{Key, KeyPress};
use crate::views::modals::ModalOutcome;
use vstd::prelude::*;

verus! {

/// Result of the user confirming or cancelling.
#[derive(Debug, Clone, Copy, PartialEq, Eq, Structural)]
pub enum ConfirmResult {
    Yes,
    No,
}

/// The button that has the focus.
#[derive(Debug, Clone, Copy, PartialEq, Eq, Structural)]
pub enum FocusButton {
    Yes,
    No,
}

/// State for a Yes/No confirmation modal.
#[derive(Debug, Clone)]
pub struct ConfirmState {
    message: String,
    focused: FocusButton,
}

/// The other button.
pub open spec fn other_button(f: FocusButton) -> FocusButton {
    match f {
        FocusButton::Yes => FocusButton::No,
        FocusButton::No => FocusButton::Yes,
    }
}

impl ConfirmState {
    /// The message shown.
    pub closed spec fn message_text(&self) -> Seq<char> {
        self.message@
    }

    /// The focused button.
    pub closed spec fn focus(&self) -> FocusButton {
        self.focused
    }

    /// A confirmation modal with the given message, Yes focused.
    pub fn new(message: &str) -> (s: Self)
        ensures
            s.message_text() == message@,
            s.focus() == FocusButton::Yes,
    {
        ConfirmState { message: crate::text::to_string(message), focused: FocusButton::Yes }
    }

    /// The message shown.
    pub fn message(&self) -> (r: &str)
        ensures
            r@ == self.message_text(),
    {
        self.message.as_str()
    }

    /// The focused button.
    pub fn focused(&self) -> (r: FocusButton)
        ensures
            r == self.focus(),
    {
        self.focused
    }

    /// Handle a key: `y`/`Y` confirm, `n`/`N`/Esc cancel, Down/Tab and
    /// Up/BackTab move the focus to the other button, Enter answers with the
    /// focused button; other keys keep the modal open.
    pub fn handle_key(&mut self, key: KeyPress) -> (r: ModalOutcome<ConfirmResult>)
        ensures
            final(self).message_text() == old(self).message_text(),
            match key.key {
                Key::Char('y') | Key::Char('Y') => r == ModalOutcome::Dismiss(ConfirmResult::Yes)
                    && final(self).focus() == old(self).focus(),
                Key::Char('n') | Key::Char('N') | Key::Esc => r == ModalOutcome::Dismiss(
                    ConfirmResult::No,
                ) && final(self).focus() == old(self).focus(),
                Key::Down | Key::Tab | Key::Up | Key::BackTab => r == ModalOutcome::<
                    ConfirmResult,
                >::Continue && final(self).focus() == other_button(old(self).focus()),
                Key::Enter => final(self).focus() == old(self).focus() && r == ModalOutcome::Dismiss(
                    match old(self).focus() {
                        FocusButton::Yes => ConfirmResult::Yes,
                        FocusButton::No => ConfirmResult::No,
                    },
                ),
                _ => r == ModalOutcome::<ConfirmResult>::Continue && final(self).focus() == old(
                    self,
                ).focus(),
            },
    {
        match key.key {
            Key::Char(c) => {
                if c == 'y' || c == 'Y' {
                    ModalOutcome::Dismiss(ConfirmResult::Yes)
                } else if c == 'n' || c == 'N' {
                    ModalOutcome::Dismiss(ConfirmResult::No)
                } else {
                    ModalOutcome::Continue
                }
            },
            Key::Esc => ModalOutcome::Dismiss(ConfirmResult::No),
            Key::Down | Key::Tab | Key::Up | Key::BackTab => {
                self.focused = match self.focused {
                    FocusButton::Yes => FocusButton::No,
                    FocusButton::No => FocusButton::Yes,
                };
                ModalOutcome::Continue
            },
            Key::Enter => match self.focused {
                FocusButton::Yes => ModalOutcome::Dismiss(ConfirmResult::Yes),
                FocusButton::No => ModalOutcome::Dismiss(ConfirmResult::No),
            },
            _ => ModalOutcome::Continue,
        }
    }
}

} // verus!
