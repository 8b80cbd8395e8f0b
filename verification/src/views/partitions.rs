//! Partitions view: the `sinfo` summary table, its cell text and colours, and
//! a cursor that follows a partition across refreshes.

use crate::columns::column_view;
use crate::responsive::{ColumnSpec, Tier};
use crate::slurm::model::ClusterSummary;
use crate::text::{lowercase, str_eq, to_lower};
use crate::views::table_state::{
    first_key_position, lemma_first_key_found, CapturedTableState, CyclicTableState,
};
use crate::views::tint::Tint;
use vstd::prelude::*;

verus! {

/// The Partitions view columns: name, minimum width, content maximum,
/// priority, minimum tier.
pub open spec fn partitions_column_table() -> Seq<(Seq<char>, u16, u16, u16, Tier, u16)> {
    seq![
        ("PARTITION"@, 14u16, 20u16, 100u16, Tier::Xs, 0u16),
        ("AVAIL"@, 7u16, 8u16, 90u16, Tier::Xs, 0u16),
        ("STATE"@, 12u16, 16u16, 85u16, Tier::Xs, 0u16),
        ("TIMELIMIT"@, 12u16, 16u16, 70u16, Tier::Sm, 0u16),
        ("NODES"@, 7u16, 8u16, 65u16, Tier::Sm, 0u16),
        ("NODELIST"@, 30u16, 40u16, 30u16, Tier::Md, 0u16),
    ]
}

fn push_column(v: &mut Vec<ColumnSpec>, c: ColumnSpec)
    ensures
        final(v)@.map_values(|c: ColumnSpec| column_view(c)) == old(v)@.map_values(
            |c: ColumnSpec| column_view(c),
        ).push(column_view(c)),
{
    let ghost before = v@;
    let ghost cv = column_view(c);
    v.push(c);
    assert(v@.map_values(|c: ColumnSpec| column_view(c)) =~= before.map_values(
        |c: ColumnSpec| column_view(c),
    ).push(cv));
}

/// Column specifications for the partitions table.
pub fn partitions_columns() -> (r: Vec<ColumnSpec>)
    ensures
        r@.map_values(|c: ColumnSpec| column_view(c)) == partitions_column_table(),
{
    let mut r: Vec<ColumnSpec> = Vec::new();
    push_column(&mut r, ColumnSpec::new("PARTITION", 14, 20, 100, Tier::Xs));
    push_column(&mut r, ColumnSpec::new("AVAIL", 7, 8, 90, Tier::Xs));
    push_column(&mut r, ColumnSpec::new("STATE", 12, 16, 85, Tier::Xs));
    push_column(&mut r, ColumnSpec::new("TIMELIMIT", 12, 16, 70, Tier::Sm));
    push_column(&mut r, ColumnSpec::new("NODES", 7, 8, 65, Tier::Sm));
    push_column(&mut r, ColumnSpec::new("NODELIST", 30, 40, 30, Tier::Md));
    assert(r@.map_values(|c: ColumnSpec| column_view(c)) =~= partitions_column_table());
    r
}

/// The colour of a lowercased AVAIL value: `up` green, `down` red, `inact`
/// dark gray, `drain` yellow, anything else white.
pub open spec fn avail_tint(lower: Seq<char>) -> Tint {
    if lower == "up"@ {
        Tint::Green
    } else if lower == "down"@ {
        Tint::Red
    } else if lower == "inact"@ {
        Tint::DarkGray
    } else if lower == "drain"@ {
        Tint::Yellow
    } else {
        Tint::White
    }
}

/// The colour for an AVAIL value, compared case-insensitively.
pub fn avail_color(avail: &str) -> (r: Tint)
    ensures
        r == avail_tint(lowercase(avail@)),
{
    let l = to_lower(avail);
    let s = l.as_str();
    if str_eq(s, "up") {
        Tint::Green
    } else if str_eq(s, "down") {
        Tint::Red
    } else if str_eq(s, "inact") {
        Tint::DarkGray
    } else if str_eq(s, "drain") {
        Tint::Yellow
    } else {
        Tint::White
    }
}

/// `s` without its trailing run of `c`.
pub open spec fn strip_trailing(s: Seq<char>, c: char) -> Seq<char>
    decreases s.len(),
{
    if s.len() > 0 && s.last() == c {
        strip_trailing(s.drop_last(), c)
    } else {
        s
    }
}

/// The colour of a normalised STATE value: `idle` green, `allocated` cyan,
/// `mixed` yellow, `down` and `drain` red, `draining` magenta, `unknown`
/// dark gray, anything else white.
pub open spec fn state_tint(norm: Seq<char>) -> Tint {
    if norm == "idle"@ {
        Tint::Green
    } else if norm == "allocated"@ {
        Tint::Cyan
    } else if norm == "mixed"@ {
        Tint::Yellow
    } else if norm == "down"@ || norm == "drain"@ {
        Tint::Red
    } else if norm == "draining"@ {
        Tint::Magenta
    } else if norm == "unknown"@ {
        Tint::DarkGray
    } else {
        Tint::White
    }
}

/// `s` without its trailing run of `c`.
fn strip_trailing_exec(s: &Vec<char>, c: char) -> (r: Vec<char>)
    ensures
        r@ == strip_trailing(s@, c),
{
    let mut n = s.len();
    assert(s@.take(n as int) =~= s@);
    while n > 0 && s[n - 1] == c
        invariant
            n <= s@.len(),
            strip_trailing(s@.take(n as int), c) == strip_trailing(s@, c),
        decreases n,
    {
        assert(s@.take(n as int).drop_last() =~= s@.take(n - 1));
        n = n - 1;
    }
    let mut r: Vec<char> = Vec::new();
    let mut i: usize = 0;
    while i < n
        invariant
            n <= s@.len(),
            i <= n,
            r@ == s@.take(i as int),
        decreases n - i,
    {
        r.push(s[i]);
        assert(r@ =~= s@.take(i + 1));
        i = i + 1;
    }
    assert(s@.take(n as int).len() == 0 || s@.take(n as int).last() != c);
    r
}

/// Whether a character vector spells `t`.
fn chars_are(v: &Vec<char>, t: &str) -> (r: bool)
    ensures
        r == (v@ == t@),
{
    let s = crate::text::string_from_chars(v);
    str_eq(s.as_str(), t)
}

/// The colour for a STATE value: lowercased, without trailing `*`, then
/// without trailing `-`.
pub fn state_color(state: &str) -> (r: Tint)
    ensures
        r == state_tint(strip_trailing(strip_trailing(lowercase(state@), '*'), '-')),
{
    let l = to_lower(state);
    let v = crate::text::chars_of(l.as_str());
    let a = strip_trailing_exec(&v, '*');
    let n = strip_trailing_exec(&a, '-');
    if chars_are(&n, "idle") {
        Tint::Green
    } else if chars_are(&n, "allocated") {
        Tint::Cyan
    } else if chars_are(&n, "mixed") {
        Tint::Yellow
    } else if chars_are(&n, "down") || chars_are(&n, "drain") {
        Tint::Red
    } else if chars_are(&n, "draining") {
        Tint::Magenta
    } else if chars_are(&n, "unknown") {
        Tint::DarkGray
    } else {
        Tint::White
    }
}

/// The plain text of a partitions column; empty for an unknown column.
pub open spec fn partition_cell(p: ClusterSummary, col: Seq<char>) -> Seq<char> {
    if col == "PARTITION"@ {
        p.partition@
    } else if col == "AVAIL"@ {
        p.avail@
    } else if col == "STATE"@ {
        p.state@
    } else if col == "TIMELIMIT"@ {
        p.timelimit@
    } else if col == "NODES"@ {
        p.nodes@
    } else if col == "NODELIST"@ {
        p.nodelist@
    } else {
        Seq::empty()
    }
}

/// The plain (unformatted) cell value for a partition column.
pub fn plain_cell(partition: &ClusterSummary, col_name: &str) -> (r: String)
    ensures
        r@ == partition_cell(*partition, col_name@),
{
    if str_eq(col_name, "PARTITION") {
        partition.partition.clone()
    } else if str_eq(col_name, "AVAIL") {
        partition.avail.clone()
    } else if str_eq(col_name, "STATE") {
        partition.state.clone()
    } else if str_eq(col_name, "TIMELIMIT") {
        partition.timelimit.clone()
    } else if str_eq(col_name, "NODES") {
        partition.nodes.clone()
    } else if str_eq(col_name, "NODELIST") {
        partition.nodelist.clone()
    } else {
        String::new()
    }
}

/// The partition names, in row order.
pub open spec fn partition_names(ps: Seq<ClusterSummary>) -> Seq<Seq<char>> {
    ps.map_values(|p: ClusterSummary| p.partition@)
}

/// Capture the cursor, anchored on the name of the partition under it; no
/// anchor when the cursor is off the table or absent.
pub fn capture_cursor_state(partitions: &[ClusterSummary], cursor_row: Option<usize>) -> (r:
    CapturedTableState)
    ensures
        r.scroll_offset == 0,
        match cursor_row {
            Some(row) => if row < partitions@.len() {
                r.anchor matches Some(a) && a@ == partitions@[row as int].partition@
            } else {
                r.anchor is None
            },
            None => r.anchor is None,
        },
{
    let anchor = match cursor_row {
        Some(row) => if row < partitions.len() {
            Some(partitions[row].partition.clone())
        } else {
            None
        },
        None => None,
    };
    CapturedTableState::new(anchor, 0)
}

/// Restore the cursor: no row for an empty table; else the first row whose
/// partition is the anchor; else the saved row clamped to the table.
pub fn restore_cursor_position(
    state: &CapturedTableState,
    partitions: &[ClusterSummary],
    saved_row: usize,
) -> (r: Option<usize>)
    ensures
        partitions@.len() == 0 ==> r is None,
        partitions@.len() > 0 ==> r == Some(
            match state.anchor {
                Some(a) => match first_key_position(partition_names(partitions@), a@) {
                    Some(i) => i as usize,
                    None => if saved_row < partitions@.len() - 1 {
                        saved_row
                    } else {
                        (partitions@.len() - 1) as usize
                    },
                },
                None => if saved_row < partitions@.len() - 1 {
                    saved_row
                } else {
                    (partitions@.len() - 1) as usize
                },
            },
        ),
{
    if partitions.len() == 0 {
        return None;
    }
    let mut keys: Vec<String> = Vec::new();
    let mut i: usize = 0;
    while i < partitions.len()
        invariant
            i <= partitions@.len(),
            keys.deep_view() == partition_names(partitions@).take(i as int),
        decreases partitions@.len() - i,
    {
        let ghost before = keys.deep_view();
        keys.push(partitions[i].partition.clone());
        assert(keys.deep_view() =~= before.push(partitions@[i as int].partition@));
        assert(partition_names(partitions@).take(i + 1) =~= partition_names(partitions@).take(
            i as int,
        ).push(partitions@[i as int].partition@));
        i = i + 1;
    }
    assert(partition_names(partitions@).take(partitions@.len() as int) =~= partition_names(
        partitions@,
    ));
    match state.restore(&keys) {
        Some(row) => Some(row),
        None => {
            let last = partitions.len() - 1;
            Some(
                if saved_row < last {
                    saved_row
                } else {
                    last
                },
            )
        },
    }
}

/// The row the cursor takes in `fresh` when it was on the partition named
/// `anchor` (if any) at row `saved`: the first row of that partition, else
/// `saved` clamped to the list; none for an empty list.
pub open spec fn restored_row(anchor: Option<Seq<char>>, fresh: Seq<ClusterSummary>, saved: int) -> Option<usize> {
    if fresh.len() == 0 {
        None
    } else {
        let clamped = if saved < fresh.len() - 1 {
            saved
        } else {
            fresh.len() - 1
        };
        match anchor {
            Some(a) => match first_key_position(partition_names(fresh), a) {
                Some(i) => Some(i as usize),
                None => Some(clamped as usize),
            },
            None => Some(clamped as usize),
        }
    }
}

/// The name of the partition under the cursor, if the cursor is on a row.
pub open spec fn anchor_of(shown: Seq<ClusterSummary>, cursor: Option<usize>) -> Option<Seq<char>> {
    match cursor {
        Some(row) => if row < shown.len() {
            Some(shown[row as int].partition@)
        } else {
            None
        },
        None => None,
    }
}

/// Replace the partitions shown with `fresh`, keeping the cursor on the
/// partition it was on when that one is still listed, else on its row
/// clamped to the new list; no row is selected in an empty list.
pub fn replace_partitions(
    shown: &mut Vec<ClusterSummary>,
    cursor: &mut CyclicTableState,
    fresh: Vec<ClusterSummary>,
)
    ensures
        final(shown)@ == fresh@,
        final(cursor)@ == (
            restored_row(
                anchor_of(old(shown)@, old(cursor)@.0),
                fresh@,
                match old(cursor)@.0 {
                    Some(r) => r as int,
                    None => 0,
                },
            ),
            fresh@.len() as usize,
        ),
{
    let cursor_row = cursor.selected();
    let saved_row = match cursor_row {
        Some(r) => r,
        None => 0,
    };
    let state = capture_cursor_state(shown.as_slice(), cursor_row);
    *shown = fresh;
    cursor.set_row_count(shown.len());
    let new_row = restore_cursor_position(&state, shown.as_slice(), saved_row);
    cursor.select(new_row);
}

/// When the partition under the cursor is still listed after a refresh, the
/// cursor is on a row of that partition.
pub proof fn lemma_cursor_follows_partition(
    shown: Seq<ClusterSummary>,
    row: usize,
    fresh: Seq<ClusterSummary>,
    name: Seq<char>,
)
    requires
        row < shown.len(),
        shown[row as int].partition@ == name,
        partition_names(fresh).contains(name),
        fresh.len() <= usize::MAX,
    ensures
        restored_row(anchor_of(shown, Some(row)), fresh, row as int) matches Some(i) && i < fresh.len()
            && fresh[i as int].partition@ == name,
{
    lemma_first_key_found(partition_names(fresh), name);
    let i = first_key_position(partition_names(fresh), name)->0;
    assert(partition_names(fresh)[i] == fresh[i].partition@);
    assert(i as usize as int == i);
}

} // verus!
