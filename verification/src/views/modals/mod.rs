//! Modal overlays as data: a modal holds its state, takes keys, and tells the
//! application whether it stays open or closes with a result. Drawing and
//! placing the overlay is the application's business.

pub mod confirm;
pub mod menu;
pub mod palette;

use vstd::prelude::*;

verus! {

/// Outcome of a modal handling a key event.
#[derive(Debug, Clone, PartialEq, Eq)]
pub enum ModalOutcome<T> {
    /// Modal should close and return this result.
    Dismiss(T),
    /// Modal remains open.
    Continue,
}

} // verus!
