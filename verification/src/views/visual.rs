//! Visual selection mode for data-table views.
//!
//! Vim-like visual row selection:
//! - `v` / `V` enters visual mode, anchoring at the current cursor row
//! - cursor movement extends the selection range
//! - `y` yanks the selection to clipboard
//! - `escape` exits without copying
//!
//! The selection is independent of any persistent multi-select state.

use crate::text::{join, join_seq};
use std::collections::BTreeSet;
use vstd::prelude::*;

verus! {

broadcast use vstd::std_specs::btree::group_btree_axioms, vstd::laws_cmp::group_laws_cmp;

/// Visual selection state for a data-table view.
///
/// Tracks whether visual mode is active and the anchor/cursor row indices.
#[derive(Debug, Clone, PartialEq, Eq)]
pub struct VisualSelection {
    active: bool,
    anchor: Option<usize>,
    cursor: Option<usize>,
}

impl View for VisualSelection {
    /// Whether visual mode is active, the anchor row and the cursor row.
    type V = (bool, Option<usize>, Option<usize>);

    closed spec fn view(&self) -> Self::V {
        (self.active, self.anchor, self.cursor)
    }
}

/// `a + b` saturated to the `i64` range.
pub open spec fn sat_add_i64(a: i64, b: i64) -> i64 {
    if a + b > i64::MAX {
        i64::MAX
    } else if a + b < i64::MIN {
        i64::MIN
    } else {
        (a + b) as i64
    }
}

/// The row a relative move of `delta` from `current` lands on among
/// `row_count` rows, computed in `i64` and clamped to `[0, row_count - 1]`.
pub open spec fn moved_cursor(current: usize, delta: i64, row_count: usize) -> usize {
    let np = sat_add_i64(current as i64, delta);
    let hi = (row_count - 1) as i64;
    let lo_clamped = if np > 0i64 {
        np
    } else {
        0i64
    };
    let c = if lo_clamped < hi {
        lo_clamped
    } else {
        hi
    };
    c as usize
}

/// A selection after a relative cursor move of `delta` among `row_count`
/// rows, starting from `table_cursor_row` when it has no cursor; unchanged
/// when inactive or without rows.
pub open spec fn moved_selection(
    v: (bool, Option<usize>, Option<usize>),
    delta: i64,
    row_count: usize,
    table_cursor_row: usize,
) -> (bool, Option<usize>, Option<usize>) {
    if !v.0 || row_count == 0 {
        v
    } else {
        (
            v.0,
            v.1,
            Some(
                moved_cursor(
                    match v.2 {
                        Some(c) => c,
                        None => table_cursor_row,
                    },
                    delta,
                    row_count,
                ),
            ),
        )
    }
}

/// The state after `set_cursor(row)`: the cursor moves while active.
pub open spec fn cursor_set(v: (bool, Option<usize>, Option<usize>), row: usize) -> (
    bool,
    Option<usize>,
    Option<usize>,
) {
    if v.0 {
        (v.0, v.1, Some(row))
    } else {
        v
    }
}

/// The state after `move_cursor_to(absolute, row_count)`: while active and
/// with rows, the cursor goes to `absolute` clamped to the last row.
pub open spec fn moved_to(v: (bool, Option<usize>, Option<usize>), absolute: usize, row_count: usize) -> (
    bool,
    Option<usize>,
    Option<usize>,
) {
    if !v.0 || row_count == 0 {
        v
    } else {
        (
            v.0,
            v.1,
            Some(
                if absolute < row_count - 1 {
                    absolute
                } else {
                    (row_count - 1) as usize
                },
            ),
        )
    }
}

/// An active selection has an anchor.
pub open spec fn anchored(v: (bool, Option<usize>, Option<usize>)) -> bool {
    v.0 ==> v.1 is Some
}

/// Every reachable active selection has an anchor: a new or exited
/// selection is inactive, entering sets the anchor, and moving or setting
/// the cursor keeps it.
pub proof fn lemma_selection_stays_anchored(
    v: (bool, Option<usize>, Option<usize>),
    delta: i64,
    row_count: usize,
    table_cursor_row: usize,
    absolute: usize,
    row: usize,
)
    requires
        anchored(v),
    ensures
        anchored((false, None::<usize>, None::<usize>)),
        anchored((true, Some(row), Some(row))),
        anchored(moved_selection(v, delta, row_count, table_cursor_row)),
        anchored(cursor_set(v, row)),
        anchored(moved_to(v, absolute, row_count)),
{
}

/// The inclusive selected range of a selection state: none when inactive or
/// without anchor; a missing cursor falls back to the anchor.
pub open spec fn range_spec(v: (bool, Option<usize>, Option<usize>)) -> Option<(usize, usize)> {
    if !v.0 {
        None
    } else {
        match v.1 {
            None => None,
            Some(a) => {
                let c = match v.2 {
                    Some(c) => c,
                    None => a,
                };
                Some(
                    (
                        if a <= c {
                            a
                        } else {
                            c
                        },
                        if a >= c {
                            a
                        } else {
                            c
                        },
                    ),
                )
            },
        }
    }
}

impl Default for VisualSelection {
    fn default() -> (s: Self)
        ensures
            s@ == (false, None::<usize>, None::<usize>),
    {
        Self::new()
    }
}

impl VisualSelection {
    /// Create a new inactive visual selection.
    pub fn new() -> (s: Self)
        ensures
            s@ == (false, None::<usize>, None::<usize>),
    {
        VisualSelection { active: false, anchor: None, cursor: None }
    }

    /// A selection in the given state.
    pub fn from_parts(active: bool, anchor: Option<usize>, cursor: Option<usize>) -> (s: Self)
        ensures
            s@ == (active, anchor, cursor),
    {
        VisualSelection { active, anchor, cursor }
    }

    /// Enter visual mode anchored at the given cursor row.
    ///
    /// Sets both anchor and cursor to the same row.
    pub fn enter(&mut self, cursor_row: usize)
        ensures
            final(self)@ == (true, Some(cursor_row), Some(cursor_row)),
    {
        self.active = true;
        self.anchor = Some(cursor_row);
        self.cursor = Some(cursor_row);
    }

    /// Exit visual mode, clearing all state.
    pub fn exit(&mut self)
        ensures
            final(self)@ == (false, None::<usize>, None::<usize>),
    {
        self.active = false;
        self.anchor = None;
        self.cursor = None;
    }

    /// Update the cursor position while visual mode is active.
    ///
    /// This extends the selection range. Has no effect if visual mode is inactive.
    pub fn set_cursor(&mut self, row: usize)
        ensures
            final(self)@ == cursor_set(old(self)@, row),
    {
        if self.active {
            self.cursor = Some(row);
        }
    }

    /// Move the visual cursor by a signed delta (relative movement).
    ///
    /// When cursor is None, uses `table_cursor_row` as the starting position.
    /// Clamps the result to [0, row_count - 1].
    /// No-op when row_count == 0 or visual mode is inactive.
    pub fn move_cursor(&mut self, delta: i64, row_count: usize, table_cursor_row: usize)
        ensures
            final(self)@ == moved_selection(old(self)@, delta, row_count, table_cursor_row),
            old(self)@.0 && 0 < row_count && row_count - 1 <= i64::MAX ==> (final(self)@.2 matches Some(
                c,
            ) && c < row_count),
    {
        if !self.active || row_count == 0 {
            return;
        }
        let current = match self.cursor {
            Some(c) => c,
            None => table_cursor_row,
        };
        let cur = current as i64;
        let new_pos: i64 = match cur.checked_add(delta) {
            Some(v) => v,
            None => if delta > 0 {
                i64::MAX
            } else {
                i64::MIN
            },
        };
        let hi = (row_count - 1) as i64;
        let lo_clamped = if new_pos > 0 {
            new_pos
        } else {
            0
        };
        let c = if lo_clamped < hi {
            lo_clamped
        } else {
            hi
        };
        self.cursor = Some(c as usize);
    }

    /// Move the visual cursor to an absolute row position.
    ///
    /// Clamps the result to [0, row_count - 1].
    /// No-op when row_count == 0 or visual mode is inactive.
    pub fn move_cursor_to(&mut self, absolute: usize, row_count: usize)
        ensures
            final(self)@ == moved_to(old(self)@, absolute, row_count),
    {
        if !self.active || row_count == 0 {
            return;
        }
        let clamped = if absolute < row_count - 1 {
            absolute
        } else {
            row_count - 1
        };
        self.cursor = Some(clamped);
    }

    /// Return the inclusive (min, max) range of selected rows, or None if inactive.
    ///
    /// When cursor is None, falls back to anchor (single-row selection).
    pub fn range(&self) -> (r: Option<(usize, usize)>)
        ensures
            r == range_spec(self@),
            r matches Some((lo, hi)) ==> (lo <= hi && (self@.1 matches Some(a) && lo <= a <= hi)),
    {
        if !self.active {
            return None;
        }
        let anchor = match self.anchor {
            Some(a) => a,
            None => {
                return None;
            },
        };
        let cursor = match self.cursor {
            Some(c) => c,
            None => anchor,
        };
        Some(
            (
                if anchor <= cursor {
                    anchor
                } else {
                    cursor
                },
                if anchor >= cursor {
                    anchor
                } else {
                    cursor
                },
            ),
        )
    }

    /// Return the set of selected row indices.
    ///
    /// Empty when inactive or anchor is None.
    pub fn rows(&self) -> (r: BTreeSet<usize>)
        ensures
            r@ == match range_spec(self@) {
                Some((lo, hi)) => Set::new(|i: usize| lo <= i <= hi),
                None => Set::<usize>::empty(),
            },
    {
        let mut set: BTreeSet<usize> = BTreeSet::new();
        match self.range() {
            Some((lo, hi)) => {
                let mut i = lo;
                assert(set@ =~= Set::new(|k: usize| lo <= k < i));
                loop
                    invariant_except_break
                        lo <= i <= hi,
                        set@ == Set::new(|k: usize| lo <= k < i),
                    ensures
                        set@ == Set::new(|k: usize| lo <= k <= hi),
                    decreases hi - i,
                {
                    set.insert(i);
                    assert(set@ =~= Set::new(|k: usize| lo <= k <= i));
                    if i == hi {
                        break;
                    }
                    i = i + 1;
                }
                set
            },
            None => set,
        }
    }

    /// Whether visual mode is currently active.
    pub fn is_active(&self) -> (r: bool)
        ensures
            r == self@.0,
    {
        self.active
    }

    /// Get the current anchor row, if any.
    pub fn anchor(&self) -> (r: Option<usize>)
        ensures
            r == self@.1,
    {
        self.anchor
    }

    /// Get the current cursor row, if any.
    pub fn cursor(&self) -> (r: Option<usize>)
        ensures
            r == self@.2,
    {
        self.cursor
    }
}

/// The characters of each line.
pub open spec fn line_texts(lines: Seq<String>) -> Seq<Seq<char>> {
    lines.map_values(|s: String| s@)
}

/// The rows below `n` that `sel` holds, in increasing order.
pub open spec fn selected_indices(sel: Set<usize>, n: nat) -> Seq<int>
    decreases n,
{
    if n == 0 {
        Seq::empty()
    } else {
        let prev = selected_indices(sel, (n - 1) as nat);
        if sel.contains((n - 1) as usize) {
            prev.push(n - 1)
        } else {
            prev
        }
    }
}

/// Assemble yank payload (TSV text) from selected rows.
///
/// Takes the selected row indices, the full list of items and a function
/// that converts one item to a TSV line (no trailing newline). The selected
/// rows that index an item are taken in increasing order; the result is
/// their lines joined by newlines, with a trailing newline.
pub fn yank_tsv<T, F>(selected_rows: &BTreeSet<usize>, items: &[T], row_tsv: F) -> (r: String) where
    F: Fn(&T) -> String,

    requires
        forall|i: int| 0 <= i < items@.len() ==> call_requires(row_tsv, (&items@[i],)),
    ensures
        exists|lines: Seq<String>|
            #![trigger line_texts(lines)]
            {
                let idx = selected_indices(selected_rows@, items@.len());
                &&& lines.len() == idx.len()
                &&& forall|j: int|
                    0 <= j < lines.len() ==> call_ensures(
                        row_tsv,
                        (&items@[idx[j]],),
                        #[trigger] lines[j],
                    )
                &&& r@ == join_seq(line_texts(lines), "\n"@) + "\n"@
            },
{
    let mut lines: Vec<String> = Vec::new();
    let mut i: usize = 0;
    while i < items.len()
        invariant
            i <= items@.len(),
            forall|k: int| 0 <= k < items@.len() ==> call_requires(row_tsv, (&items@[k],)),
            lines@.len() == selected_indices(selected_rows@, i as nat).len(),
            forall|j: int|
                0 <= j < lines@.len() ==> call_ensures(
                    row_tsv,
                    (&items@[selected_indices(selected_rows@, i as nat)[j]],),
                    #[trigger] lines@[j],
                ),
            forall|j: int|
                0 <= j < selected_indices(selected_rows@, i as nat).len() ==> 0
                    <= #[trigger] selected_indices(selected_rows@, i as nat)[j] < i,
        decreases items@.len() - i,
    {
        let ghost prev = selected_indices(selected_rows@, i as nat);
        assert(selected_indices(selected_rows@, (i + 1) as nat) == if selected_rows@.contains(i) {
            prev.push(i as int)
        } else {
            prev
        });
        if selected_rows.contains(&i) {
            let line = row_tsv(&items[i]);
            lines.push(line);
        }
        i = i + 1;
    }
    let ghost idx = selected_indices(selected_rows@, items@.len());
    assert(lines.deep_view() =~= line_texts(lines@));
    if lines.len() == 0 {
        let r = crate::text::to_string("\n");
        proof {
            reveal_strlit("\n");
            assert(line_texts(lines@) =~= Seq::<Seq<char>>::empty());
            assert(r@ =~= join_seq(line_texts(lines@), "\n"@) + "\n"@);
        }
        return r;
    }
    let mut r = join(&lines, "\n");
    crate::text::push_str(&mut r, "\n");
    assert(r@ == join_seq(line_texts(lines@), "\n"@) + "\n"@);
    r
}

/// The selected range always lies between its ends and holds the anchor.
pub proof fn lemma_range_holds_anchor(v: (bool, Option<usize>, Option<usize>))
    ensures
        range_spec(v) matches Some((lo, hi)) ==> (lo <= hi && (v.1 matches Some(a) && lo <= a <= hi)
            && (v.2 matches Some(c) ==> lo <= c <= hi)),
{
}

} // verus!
