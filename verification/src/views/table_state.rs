//! Table cursor state shared by the table views.

use vstd::prelude::*;

verus! {

/// A table cursor that wraps around at both ends.
#[derive(Debug, Clone, PartialEq, Eq)]
pub struct CyclicTableState {
    selected: Option<usize>,
    row_count: usize,
}

impl View for CyclicTableState {
    /// The selected row and the number of rows.
    type V = (Option<usize>, usize);

    closed spec fn view(&self) -> Self::V {
        (self.selected, self.row_count)
    }
}

impl Default for CyclicTableState {
    fn default() -> (s: Self)
        ensures
            s@ == (None::<usize>, 0usize),
    {
        CyclicTableState::new()
    }
}

/// The cursor one row down, wrapping from the last row to the first; the
/// first row without a selection; unchanged without rows.
pub open spec fn next_state(s: (Option<usize>, usize)) -> (Option<usize>, usize) {
    if s.1 == 0 {
        s
    } else {
        (
            Some(
                match s.0 {
                    None => 0usize,
                    Some(i) => if i + 1 >= s.1 {
                        0usize
                    } else {
                        (i + 1) as usize
                    },
                },
            ),
            s.1,
        )
    }
}

/// The cursor one row up, wrapping from the first row to the last; the last
/// row without a selection; unchanged without rows.
pub open spec fn prev_state(s: (Option<usize>, usize)) -> (Option<usize>, usize) {
    if s.1 == 0 {
        s
    } else {
        (
            Some(
                match s.0 {
                    None => (s.1 - 1) as usize,
                    Some(i) => if i == 0 || i >= s.1 {
                        (s.1 - 1) as usize
                    } else {
                        (i - 1) as usize
                    },
                },
            ),
            s.1,
        )
    }
}

impl CyclicTableState {
    /// No selection, no rows.
    pub fn new() -> (s: Self)
        ensures
            s@ == (None::<usize>, 0usize),
    {
        CyclicTableState { selected: None, row_count: 0 }
    }

    /// The selected row, if any.
    pub fn selected(&self) -> (r: Option<usize>)
        ensures
            r == self@.0,
    {
        self.selected
    }

    /// Select a row, or nothing.
    pub fn select(&mut self, row: Option<usize>)
        ensures
            final(self)@ == (row, old(self)@.1),
    {
        self.selected = row;
    }

    /// The number of rows.
    pub fn row_count(&self) -> (r: usize)
        ensures
            r == self@.1,
    {
        self.row_count
    }

    /// Set the number of rows; the selection is kept.
    pub fn set_row_count(&mut self, n: usize)
        ensures
            final(self)@ == (old(self)@.0, n),
    {
        self.row_count = n;
    }

    /// Move down one row, wrapping from the last row to the first; with no
    /// selection, select the first row. Nothing happens without rows.
    pub fn next(&mut self)
        ensures
            final(self)@ == next_state(old(self)@),
    {
        if self.row_count == 0 {
            return;
        }
        self.selected = Some(
            match self.selected {
                None => 0,
                Some(i) => if i >= self.row_count - 1 {
                    0
                } else {
                    i + 1
                },
            },
        );
    }

    /// Move up one row, wrapping from the first row to the last; with no
    /// selection, select the last row. Nothing happens without rows.
    pub fn prev(&mut self)
        ensures
            final(self)@ == prev_state(old(self)@),
    {
        if self.row_count == 0 {
            return;
        }
        self.selected = Some(
            match self.selected {
                None => self.row_count - 1,
                Some(i) => if i == 0 || i >= self.row_count {
                    self.row_count - 1
                } else {
                    i - 1
                },
            },
        );
    }
}

/// A cursor position captured before a refresh, anchored on a row key.
#[derive(Debug, Clone, PartialEq, Eq)]
pub struct CapturedTableState {
    /// The key of the row the cursor was on, if any.
    pub anchor: Option<String>,
    /// The first visible row.
    pub scroll_offset: usize,
}

/// The position of the first key equal to `k`, if any.
pub open spec fn first_key_position(keys: Seq<Seq<char>>, k: Seq<char>) -> Option<int>
    decreases keys.len(),
{
    if keys.len() == 0 {
        None
    } else {
        match first_key_position(keys.drop_last(), k) {
            Some(i) => Some(i),
            None => if keys.last() == k {
                Some(keys.len() - 1)
            } else {
                None
            },
        }
    }
}

impl CapturedTableState {
    /// A captured state.
    pub fn new(anchor: Option<String>, scroll_offset: usize) -> (s: Self)
        ensures
            s.anchor == anchor,
            s.scroll_offset == scroll_offset,
    {
        CapturedTableState { anchor, scroll_offset }
    }

    /// The row whose key is the anchor, given the row keys in order.
    pub fn restore(&self, keys: &Vec<String>) -> (r: Option<usize>)
        ensures
            match self.anchor {
                None => r is None,
                Some(a) => match r {
                    Some(i) => first_key_position(keys.deep_view(), a@) == Some(i as int),
                    None => first_key_position(keys.deep_view(), a@) is None,
                },
            },
    {
        match &self.anchor {
            None => None,
            Some(a) => {
                assert(self.anchor == Some(*a));
                let mut i: usize = 0;
                while i < keys.len()
                    invariant
                        i <= keys@.len(),
                        self.anchor == Some(*a),
                        first_key_position(keys.deep_view().take(i as int), a@) is None,
                    decreases keys@.len() - i,
                {
                    assert(keys.deep_view().take(i + 1).drop_last() =~= keys.deep_view().take(
                        i as int,
                    ));
                    if crate::text::str_eq(keys[i].as_str(), a.as_str()) {
                        proof {
                            lemma_first_key_prefix(keys.deep_view(), a@, i as int);
                        }
                        return Some(i);
                    }
                    i = i + 1;
                }
                assert(keys.deep_view().take(keys@.len() as int) =~= keys.deep_view());
                None
            },
        }
    }
}

/// A key found at `i` with no earlier match is found at `i` in the whole list.
proof fn lemma_first_key_prefix(keys: Seq<Seq<char>>, k: Seq<char>, i: int)
    requires
        0 <= i < keys.len(),
        keys[i] == k,
        first_key_position(keys.take(i), k) is None,
    ensures
        first_key_position(keys, k) == Some(i),
    decreases keys.len(),
{
    if i < keys.len() - 1 {
        assert(keys.drop_last().take(i) =~= keys.take(i));
        lemma_first_key_prefix(keys.drop_last(), k, i);
    } else {
        assert(keys.drop_last() =~= keys.take(i));
    }
}

/// A key that occurs in `keys` has a first position, where it stands.
pub proof fn lemma_first_key_found(keys: Seq<Seq<char>>, k: Seq<char>)
    requires
        keys.contains(k),
    ensures
        first_key_position(keys, k) matches Some(i) && 0 <= i < keys.len() && keys[i] == k,
    decreases keys.len(),
{
    if keys.last() != k {
        let j = choose|j: int| 0 <= j < keys.len() && keys[j] == k;
        assert(keys.drop_last()[j] == k);
        lemma_first_key_found(keys.drop_last(), k);
    } else {
        match first_key_position(keys.drop_last(), k) {
            Some(i) => {
                lemma_first_key_in_range(keys.drop_last(), k);
            },
            None => {},
        }
    }
}

/// A first position lies in range and holds the key.
proof fn lemma_first_key_in_range(keys: Seq<Seq<char>>, k: Seq<char>)
    ensures
        first_key_position(keys, k) matches Some(i) ==> 0 <= i < keys.len() && keys[i] == k,
    decreases keys.len(),
{
    if keys.len() > 0 {
        lemma_first_key_in_range(keys.drop_last(), k);
    }
}

/// Moving the cursor keeps it on a row of a non-empty table.
pub proof fn lemma_cursor_stays_on_rows(s: (Option<usize>, usize))
    requires
        s.1 > 0,
    ensures
        next_state(s).0 matches Some(j) && j < s.1,
        prev_state(s).0 matches Some(j) && j < s.1,
        next_state(s).1 == s.1 && prev_state(s).1 == s.1,
{
}

/// One row down then one row up, or up then down, puts the cursor back on
/// the row it was on.
pub proof fn lemma_cursor_moves_undo(i: usize, n: usize)
    requires
        i < n,
    ensures
        prev_state(next_state((Some(i), n))) == (Some(i), n),
        next_state(prev_state((Some(i), n))) == (Some(i), n),
{
}

} // verus!
