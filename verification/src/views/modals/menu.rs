//! The job actions and bulk actions menus: a list of choices with a cursor.

use crate::views::keys::{Key, KeyPress};
use crate::views::modals::ModalOutcome;
use vstd::prelude::*;

verus! {

/// What can be done to one job from its actions menu.
#[derive(Debug, Clone, Copy, PartialEq, Eq, Structural)]
pub enum JobAction {
    Cancel,
    AttachFirst,
    AttachCustom,
    Stdout,
    Stderr,
    Detail,
    BatchScript,
    Dependencies,
    ArrayTasks,
}

/// What can be done to the selected jobs from the bulk actions menu.
#[derive(Debug, Clone, Copy, PartialEq, Eq, Structural)]
pub enum BulkAction {
    Cancel,
    Hold,
    Release,
    Requeue,
}

/// The action word a bulk action runs (`cancel`, `hold`, ...).
pub open spec fn bulk_word(a: BulkAction) -> Seq<char> {
    match a {
        BulkAction::Cancel => "cancel"@,
        BulkAction::Hold => "hold"@,
        BulkAction::Release => "release"@,
        BulkAction::Requeue => "requeue"@,
    }
}

impl BulkAction {
    /// The action word this bulk action runs.
    pub fn word(self) -> (r: &'static str)
        ensures
            r@ == bulk_word(self),
    {
        match self {
            BulkAction::Cancel => "cancel",
            BulkAction::Hold => "hold",
            BulkAction::Release => "release",
            BulkAction::Requeue => "requeue",
        }
    }
}

/// A menu of choices with a cursor on one of them.
#[derive(Debug, Clone)]
pub struct MenuState<T> {
    pub items: Vec<T>,
    pub cursor: usize,
}

/// The cursor and outcome after a key in a menu of `n` items with the
/// cursor at `c`: Down or `j` moves one down and Up or `k` one up, both
/// wrapping; Enter chooses the item under the cursor; Esc or `q` closes
/// without a choice; other keys do nothing.
pub open spec fn menu_step(n: int, c: int, k: KeyPress) -> (int, Option<Option<int>>) {
    let plain = !k.control && !k.alt;
    if n == 0 {
        if plain && (k.key == Key::Esc || k.key == Key::Char('q') || k.key == Key::Enter) {
            (c, Some(None))
        } else {
            (c, None)
        }
    } else if plain && (k.key == Key::Down || k.key == Key::Char('j')) {
        (if c + 1 >= n { 0 } else { c + 1 }, None)
    } else if plain && (k.key == Key::Up || k.key == Key::Char('k')) {
        (if c == 0 { n - 1 } else { c - 1 }, None)
    } else if plain && k.key == Key::Enter {
        (c, Some(Some(c)))
    } else if plain && (k.key == Key::Esc || k.key == Key::Char('q')) {
        (c, Some(None))
    } else {
        (c, None)
    }
}

impl<T: Copy> MenuState<T> {
    /// The cursor is on an item of a non-empty menu.
    pub open spec fn wf(&self) -> bool {
        self.items@.len() > 0 ==> self.cursor < self.items@.len()
    }

    /// A menu with the cursor on its first item.
    pub fn new(items: Vec<T>) -> (m: Self)
        ensures
            m.items@ == items@,
            m.cursor == 0,
            m.wf(),
    {
        MenuState { items, cursor: 0 }
    }

    /// Handle a key: move the cursor, choose, or close (see `menu_step`).
    pub fn handle_key(&mut self, k: KeyPress) -> (r: ModalOutcome<Option<T>>)
        requires
            old(self).wf(),
        ensures
            final(self).wf(),
            final(self).items@ == old(self).items@,
            final(self).cursor == menu_step(old(self).items@.len() as int, old(self).cursor as int, k).0,
            match menu_step(old(self).items@.len() as int, old(self).cursor as int, k).1 {
                None => r == ModalOutcome::<Option<T>>::Continue,
                Some(None) => r == ModalOutcome::<Option<T>>::Dismiss(None),
                Some(Some(i)) => r == ModalOutcome::<Option<T>>::Dismiss(Some(old(self).items@[i])),
            },
    {
        let plain = !k.control && !k.alt;
        let n = self.items.len();
        if n == 0 {
            if plain && (k.key == Key::Esc || k.key == Key::Char('q') || k.key == Key::Enter) {
                return ModalOutcome::Dismiss(None);
            }
            return ModalOutcome::Continue;
        }
        if plain && (k.key == Key::Down || k.key == Key::Char('j')) {
            self.cursor = if self.cursor + 1 >= n { 0 } else { self.cursor + 1 };
            ModalOutcome::Continue
        } else if plain && (k.key == Key::Up || k.key == Key::Char('k')) {
            self.cursor = if self.cursor == 0 { n - 1 } else { self.cursor - 1 };
            ModalOutcome::Continue
        } else if plain && k.key == Key::Enter {
            ModalOutcome::Dismiss(Some(self.items[self.cursor]))
        } else if plain && (k.key == Key::Esc || k.key == Key::Char('q')) {
            ModalOutcome::Dismiss(None)
        } else {
            ModalOutcome::Continue
        }
    }
}

/// The job actions menu: every action on one job.
pub fn job_actions_menu() -> (m: MenuState<JobAction>)
    ensures
        m.wf(),
        m.cursor == 0,
        m.items@ == seq![
            JobAction::Cancel,
            JobAction::AttachFirst,
            JobAction::AttachCustom,
            JobAction::Stdout,
            JobAction::Stderr,
            JobAction::Detail,
            JobAction::BatchScript,
            JobAction::Dependencies,
            JobAction::ArrayTasks,
        ],
{
    let v = vec![
        JobAction::Cancel,
        JobAction::AttachFirst,
        JobAction::AttachCustom,
        JobAction::Stdout,
        JobAction::Stderr,
        JobAction::Detail,
        JobAction::BatchScript,
        JobAction::Dependencies,
        JobAction::ArrayTasks,
    ];
    MenuState::new(v)
}

/// The bulk actions menu: cancel, hold, release, requeue.
pub fn bulk_actions_menu() -> (m: MenuState<BulkAction>)
    ensures
        m.wf(),
        m.cursor == 0,
        m.items@ == seq![BulkAction::Cancel, BulkAction::Hold, BulkAction::Release, BulkAction::Requeue],
{
    let v = vec![BulkAction::Cancel, BulkAction::Hold, BulkAction::Release, BulkAction::Requeue];
    MenuState::new(v)
}

} // verus!
