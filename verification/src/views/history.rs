//! History view state: completed and failed jobs from `sacct`.

use crate::columns::column_view;
use crate::responsive::{
    allocate_columns, allocate_spec, lemma_allocation_fits_bounded, terminal_width, tier_for,
    ColumnSpec, Tier,
};
use crate::slurm::model::SacctJob;
use crate::text::{
    chars_of, starts_with, starts_with_seq, str_eq, string_from_range, to_string, to_upper, uppercase,
};
use crate::views::tint::Tint;
use crate::views::keys::{Key, KeyPress};
use crate::views::table_state::{next_state, prev_state, CyclicTableState};
use vstd::prelude::*;
use vstd::string::*;

verus! {

/// The History view columns: name, minimum width, content maximum,
/// priority, minimum tier.
pub open spec fn history_column_table() -> Seq<(Seq<char>, u16, u16, u16, Tier, u16)> {
    seq![
        ("JOBID"@, 8u16, 12u16, 100u16, Tier::Xs, 0u16),
        ("STATE"@, 12u16, 16u16, 95u16, Tier::Xs, 0u16),
        ("ELAPSED"@, 10u16, 12u16, 90u16, Tier::Xs, 0u16),
        ("NAME"@, 12u16, 24u16, 80u16, Tier::Sm, 0u16),
        ("USER"@, 8u16, 12u16, 75u16, Tier::Sm, 0u16),
        ("EXIT"@, 6u16, 8u16, 70u16, Tier::Sm, 0u16),
        ("PARTITION"@, 10u16, 14u16, 60u16, Tier::Md, 0u16),
    ]
}

fn push_column(v: &mut Vec<ColumnSpec>, c: ColumnSpec)
    ensures
        final(v)@.map_values(|c: ColumnSpec| column_view(c)) == old(v)@.map_values(
            |c: ColumnSpec| column_view(c),
        ).push(column_view(c)),
{
    let ghost before = v@;
    let ghost cv = column_view(c);
    v.push(c);
    assert(v@.map_values(|c: ColumnSpec| column_view(c)) =~= before.map_values(
        |c: ColumnSpec| column_view(c),
    ).push(cv));
}

/// Column specifications for the History view.
pub fn history_columns() -> (r: Vec<ColumnSpec>)
    ensures
        r@.map_values(|c: ColumnSpec| column_view(c)) == history_column_table(),
{
    let mut r: Vec<ColumnSpec> = Vec::new();
    push_column(&mut r, ColumnSpec::new("JOBID", 8, 12, 100, Tier::Xs));
    push_column(&mut r, ColumnSpec::new("STATE", 12, 16, 95, Tier::Xs));
    push_column(&mut r, ColumnSpec::new("ELAPSED", 10, 12, 90, Tier::Xs));
    push_column(&mut r, ColumnSpec::new("NAME", 12, 24, 80, Tier::Sm));
    push_column(&mut r, ColumnSpec::new("USER", 8, 12, 75, Tier::Sm));
    push_column(&mut r, ColumnSpec::new("EXIT", 6, 8, 70, Tier::Sm));
    push_column(&mut r, ColumnSpec::new("PARTITION", 10, 14, 60, Tier::Md));
    assert(r@.map_values(|c: ColumnSpec| column_view(c)) =~= history_column_table());
    r
}

/// The jobs of `user`, in order.
pub open spec fn jobs_of_user(jobs: Seq<SacctJob>, user: Seq<char>) -> Seq<SacctJob>
    decreases jobs.len(),
{
    if jobs.len() == 0 {
        Seq::empty()
    } else {
        let prev = jobs_of_user(jobs.drop_last(), user);
        if jobs.last().user@ == user {
            prev.push(jobs.last())
        } else {
            prev
        }
    }
}

/// The position of the first job with id `id`, if any.
pub open spec fn job_position(jobs: Seq<SacctJob>, id: Seq<char>) -> Option<int>
    decreases jobs.len(),
{
    if jobs.len() == 0 {
        None
    } else {
        match job_position(jobs.drop_last(), id) {
            Some(i) => Some(i),
            None => if jobs.last().job_id@ == id {
                Some(jobs.len() - 1)
            } else {
                None
            },
        }
    }
}

/// A field copy of a job.
pub fn copy_job(j: &SacctJob) -> (r: SacctJob)
    ensures
        r == *j,
{
    SacctJob {
        job_id: j.job_id.clone(),
        name: j.name.clone(),
        user: j.user.clone(),
        state: j.state.clone(),
        num_cpus: j.num_cpus.clone(),
        elapsed: j.elapsed.clone(),
        exit_code: j.exit_code.clone(),
        partition: j.partition.clone(),
    }
}

/// A copy of a job list.
fn copy_jobs(v: &Vec<SacctJob>) -> (r: Vec<SacctJob>)
    ensures
        r@ == v@,
{
    let mut r: Vec<SacctJob> = Vec::new();
    let mut i: usize = 0;
    while i < v.len()
        invariant
            i <= v@.len(),
            r@ == v@.take(i as int),
        decreases v@.len() - i,
    {
        r.push(copy_job(&v[i]));
        assert(r@ =~= v@.take(i + 1));
        i = i + 1;
    }
    assert(v@.take(v@.len() as int) =~= v@);
    r
}

/// The jobs of `user` in `jobs`, in order.
fn filter_user(jobs: &Vec<SacctJob>, user: &str) -> (r: Vec<SacctJob>)
    ensures
        r@ == jobs_of_user(jobs@, user@),
{
    let mut r: Vec<SacctJob> = Vec::new();
    let mut i: usize = 0;
    while i < jobs.len()
        invariant
            i <= jobs@.len(),
            r@ == jobs_of_user(jobs@.take(i as int), user@),
        decreases jobs@.len() - i,
    {
        assert(jobs@.take(i + 1).drop_last() =~= jobs@.take(i as int));
        if str_eq(jobs[i].user.as_str(), user) {
            r.push(copy_job(&jobs[i]));
        }
        i = i + 1;
    }
    assert(jobs@.take(jobs@.len() as int) =~= jobs@);
    r
}

/// History view state.
#[derive(Debug, Clone)]
pub struct HistoryView {
    /// Filter: show only jobs owned by the current user.
    pub filter_mine: bool,
    /// Current column names and widths.
    pub current_cols: Vec<(String, u16)>,
    /// Rebuild cache: width when columns were last built.
    pub rebuild_cache_width: u16,
    /// Rebuild cache: column names when last built.
    pub rebuild_cache_names: Vec<String>,
    /// Table cursor state.
    pub table_state: CyclicTableState,
    /// Last filtered jobs (for row lookups).
    pub last_jobs: Vec<SacctJob>,
    /// Last unfiltered jobs.
    pub last_jobs_raw: Vec<SacctJob>,
    /// Hours to query (default 24).
    pub hours: u32,
}

/// The jobs shown for the raw list `raw` under the mine filter.
pub open spec fn shown_jobs(raw: Seq<SacctJob>, filter_mine: bool, user: Seq<char>) -> Seq<SacctJob> {
    if filter_mine {
        jobs_of_user(raw, user)
    } else {
        raw
    }
}

/// The anchor of a cursor: the id of the job under it, if any.
pub open spec fn cursor_anchor(jobs: Seq<SacctJob>, selected: Option<usize>) -> Option<Seq<char>> {
    match selected {
        Some(i) => if i < jobs.len() {
            Some(jobs[i as int].job_id@)
        } else {
            None
        },
        None => None,
    }
}

impl Default for HistoryView {
    fn default() -> (v: Self)
        ensures
            !v.filter_mine,
            v.hours == 24,
            v.last_jobs@.len() == 0,
            v.last_jobs_raw@.len() == 0,
            v.table_state@ == (None::<usize>, 0usize),
    {
        Self::new()
    }
}

impl HistoryView {
    /// Create a new history view with default state.
    pub fn new() -> (v: Self)
        ensures
            !v.filter_mine,
            v.current_cols@.len() == 0,
            v.rebuild_cache_width == 0,
            v.rebuild_cache_names@.len() == 0,
            v.table_state@ == (None::<usize>, 0usize),
            v.last_jobs@.len() == 0,
            v.last_jobs_raw@.len() == 0,
            v.hours == 24,
    {
        HistoryView {
            filter_mine: false,
            current_cols: Vec::new(),
            rebuild_cache_width: 0,
            rebuild_cache_names: Vec::new(),
            table_state: CyclicTableState::new(),
            last_jobs: Vec::new(),
            last_jobs_raw: Vec::new(),
            hours: 24,
        }
    }

    /// Toggle the mine filter and re-filter the last raw jobs.
    pub fn toggle_mine(&mut self, current_user: &str)
        ensures
            final(self).filter_mine == !old(self).filter_mine,
            final(self).last_jobs_raw@ == old(self).last_jobs_raw@,
            final(self).last_jobs@ == shown_jobs(
                old(self).last_jobs_raw@,
                !old(self).filter_mine,
                current_user@,
            ),
            final(self).table_state@ == old(self).table_state@,
            final(self).current_cols@ == old(self).current_cols@,
    {
        self.filter_mine = !self.filter_mine;
        let raw = copy_jobs(&self.last_jobs_raw);
        self.update(raw, current_user);
    }

    /// Update the view with new data and apply the filter. Returns the old
    /// cursor state: the selected row and the id of the job under it.
    pub fn update(&mut self, jobs: Vec<SacctJob>, current_user: &str) -> (r: (
        Option<usize>,
        Option<String>,
    ))
        ensures
            history_updated(*old(self), *final(self), jobs@, current_user@, r),
    {
        let old_selected = self.table_state.selected();
        let anchor = match old_selected {
            Some(idx) => if idx < self.last_jobs.len() {
                Some(self.last_jobs[idx].job_id.clone())
            } else {
                None
            },
            None => None,
        };
        let filtered = if self.filter_mine {
            filter_user(&jobs, current_user)
        } else {
            copy_jobs(&jobs)
        };
        self.last_jobs_raw = jobs;
        self.last_jobs = filtered;
        (old_selected, anchor)
    }

    /// Restore the cursor after an update: on the row of the anchor job when
    /// it is still shown, else on the old row clamped to the table, else on
    /// the first row; no selection when nothing is shown.
    pub fn restore_state(&mut self, old_selected: Option<usize>, anchor: Option<String>)
        ensures
            history_restored(*old(self), *final(self), old_selected, anchor),
    {
        if self.last_jobs.len() == 0 {
            self.table_state.select(None);
            self.table_state.set_row_count(0);
            return;
        }
        self.table_state.set_row_count(self.last_jobs.len());
        if let Some(anchor_id) = &anchor {
            let mut idx: usize = 0;
            while idx < self.last_jobs.len()
                invariant
                    idx <= self.last_jobs@.len(),
                    self.last_jobs@ == old(self).last_jobs@,
                    self.last_jobs_raw@ == old(self).last_jobs_raw@,
                    self.filter_mine == old(self).filter_mine,
                    self.table_state@ == (old(self).table_state@.0, old(self).last_jobs@.len() as usize),
                    self.last_jobs@.len() > 0,
                    anchor == Some(*anchor_id),
                    job_position(self.last_jobs@.take(idx as int), anchor_id@) is None,
                decreases self.last_jobs@.len() - idx,
            {
                assert(self.last_jobs@.take(idx + 1).drop_last() =~= self.last_jobs@.take(
                    idx as int,
                ));
                if str_eq(self.last_jobs[idx].job_id.as_str(), anchor_id.as_str()) {
                    proof {
                        lemma_job_position_prefix(self.last_jobs@, anchor_id@, idx as int);
                    }
                    self.table_state.select(Some(idx));
                    return;
                }
                idx = idx + 1;
            }
            assert(self.last_jobs@.take(self.last_jobs@.len() as int) =~= self.last_jobs@);
        }
        let base = match old_selected {
            Some(i) => i,
            None => 0,
        };
        let last = self.last_jobs.len() - 1;
        let new_idx = if base < last {
            base
        } else {
            last
        };
        self.table_state.select(Some(new_idx));
    }

    /// Rebuild the column layout for `width` (the History columns allocated
    /// in `width - 3` cells); returns whether the width or the visible
    /// column names changed, and only then stores the new layout.
    pub fn rebuild_columns(&mut self, width: u16, _force: bool) -> (changed: bool)
        ensures
            final(self).last_jobs@ == old(self).last_jobs@,
            final(self).table_state@ == old(self).table_state@,
            exists|specs: Seq<ColumnSpec>|
                #![trigger is_history_specs(specs)]
                {
                    let alloc = allocate_spec(sat_sub_u16(width, 3), specs);
                    let names = alloc.map_values(|p: (Seq<char>, u16)| p.0);
                    &&& is_history_specs(specs)
                    &&& changed == !(width == old(self).rebuild_cache_width
                        && old(self).rebuild_cache_names.deep_view() == names)
                    &&& changed ==> final(self).rebuild_cache_width == width
                        && final(self).rebuild_cache_names.deep_view() == names
                        && final(self).current_cols@.map_values(|p: (String, u16)| (p.0@, p.1))
                        == alloc
                    &&& !changed ==> final(self).current_cols@ == old(self).current_cols@
                },
    {
        let budget = width.saturating_sub(3);
        let tier = tier_for(width);
        let specs = history_columns();
        proof {
            assert(specs@.len() == 7) by {
                assert(specs@.map_values(|c: ColumnSpec| column_view(c)).len() == 7);
            }
            assert forall|i: int| 0 <= i < specs@.len() implies #[trigger] specs@[i].min_width <= 12 by {
                assert(specs@.map_values(|c: ColumnSpec| column_view(c))[i] == column_view(specs@[i]));
                assert(column_view(specs@[i]) == history_column_table()[i]);
            }
            lemma_allocation_fits_bounded(budget, specs@, 12);
        }
        let new_cols = allocate_columns(budget, &specs, tier);
        let ghost alloc = new_cols@.map_values(|p: (String, u16)| (p.0@, p.1));
        let mut names: Vec<String> = Vec::new();
        let mut i: usize = 0;
        while i < new_cols.len()
            invariant
                i <= new_cols@.len(),
                alloc == new_cols@.map_values(|p: (String, u16)| (p.0@, p.1)),
                names.deep_view() == alloc.take(i as int).map_values(|p: (Seq<char>, u16)| p.0),
            decreases new_cols@.len() - i,
        {
            let ghost before = names.deep_view();
            names.push(new_cols[i].0.clone());
            assert(names.deep_view() =~= before.push(new_cols@[i as int].0@));
            assert(alloc[i as int] == (new_cols@[i as int].0@, new_cols@[i as int].1));
            assert(alloc.take(i + 1).map_values(|p: (Seq<char>, u16)| p.0) =~= alloc.take(
                i as int,
            ).map_values(|p: (Seq<char>, u16)| p.0).push(alloc[i as int].0));
            i = i + 1;
        }
        assert(alloc.take(new_cols@.len() as int) =~= alloc);
        assert(is_history_specs(specs@));
        if width == self.rebuild_cache_width && same_names(&names, &self.rebuild_cache_names) {
            return false;
        }
        self.rebuild_cache_width = width;
        self.rebuild_cache_names = names;
        self.current_cols = new_cols;
        true
    }

    /// Handle a key without modifiers: Down/`j` and Up/`k` move the cursor,
    /// `m` toggles the mine filter; returns whether the key was used.
    pub fn handle_key(&mut self, key: KeyPress, current_user: &str) -> (handled: bool)
        ensures
            final(self).last_jobs_raw@ == old(self).last_jobs_raw@,
            final(self).current_cols@ == old(self).current_cols@,
            ({
                let plain = !key.shift && !(key.control || key.alt);
                if plain && (key.key == Key::Down || key.key == Key::Char('j')) {
                    &&& handled
                    &&& final(self).table_state@ == next_state(old(self).table_state@)
                    &&& final(self).last_jobs@ == old(self).last_jobs@
                    &&& final(self).filter_mine == old(self).filter_mine
                } else if plain && (key.key == Key::Up || key.key == Key::Char('k')) {
                    &&& handled
                    &&& final(self).table_state@ == prev_state(old(self).table_state@)
                    &&& final(self).last_jobs@ == old(self).last_jobs@
                    &&& final(self).filter_mine == old(self).filter_mine
                } else if plain && key.key == Key::Char('m') {
                    &&& handled
                    &&& final(self).filter_mine == !old(self).filter_mine
                    &&& final(self).last_jobs@ == shown_jobs(
                        old(self).last_jobs_raw@,
                        !old(self).filter_mine,
                        current_user@,
                    )
                    &&& final(self).table_state@ == old(self).table_state@
                } else {
                    &&& !handled
                    &&& final(self).table_state@ == old(self).table_state@
                    &&& final(self).last_jobs@ == old(self).last_jobs@
                    &&& final(self).filter_mine == old(self).filter_mine
                }
            }),
    {
        if key.shift || (key.control || key.alt) {
            return false;
        }
        match key.key {
            Key::Down => {
                self.table_state.next();
                true
            },
            Key::Up => {
                self.table_state.prev();
                true
            },
            Key::Char(c) => {
                if c == 'j' {
                    self.table_state.next();
                    true
                } else if c == 'k' {
                    self.table_state.prev();
                    true
                } else if c == 'm' {
                    self.toggle_mine(current_user);
                    true
                } else {
                    false
                }
            },
            _ => false,
        }
    }

    /// The colour of a job state: by the first of `COMPLETED` (dark gray),
    /// `FAILED` (red), `CANCELLED` (yellow), `TIMEOUT` (magenta) that starts
    /// the uppercased state; white when none does. (None of these starts
    /// another, so at most one matches.)
    pub fn state_color(state: &str) -> (r: Tint)
        ensures
            r == history_state_tint(uppercase(state@)),
    {
        let u = to_upper(state);
        let s = u.as_str();
        if starts_with(s, "COMPLETED") {
            Tint::DarkGray
        } else if starts_with(s, "FAILED") {
            Tint::Red
        } else if starts_with(s, "CANCELLED") {
            Tint::Yellow
        } else if starts_with(s, "TIMEOUT") {
            Tint::Magenta
        } else {
            Tint::White
        }
    }

    /// The colour of an exit code: green for `0:0`, red otherwise.
    pub fn exit_color(exit_code: &str) -> (r: Tint)
        ensures
            r == (if exit_code@ == "0:0"@ {
                Tint::Green
            } else {
                Tint::Red
            }),
    {
        if str_eq(exit_code, "0:0") {
            Tint::Green
        } else {
            Tint::Red
        }
    }

    /// The text of column `col_name` for `job`; empty for an unknown column.
    pub fn cell_value(job: &SacctJob, col_name: &str) -> (r: String)
        ensures
            r@ == history_cell(*job, col_name@),
    {
        if str_eq(col_name, "JOBID") {
            job.job_id.clone()
        } else if str_eq(col_name, "NAME") {
            job.name.clone()
        } else if str_eq(col_name, "USER") {
            job.user.clone()
        } else if str_eq(col_name, "STATE") {
            job.state.clone()
        } else if str_eq(col_name, "ELAPSED") {
            job.elapsed.clone()
        } else if str_eq(col_name, "EXIT") {
            job.exit_code.clone()
        } else if str_eq(col_name, "PARTITION") {
            job.partition.clone()
        } else {
            String::new()
        }
    }

    /// Truncate a cell value to fit the column width: unchanged when its byte
    /// length fits; empty at width 0; its first character at width 1; else
    /// its first `width - 1` characters and `…`.
    pub fn truncate_cell(value: &str, width: u16) -> (r: String)
        ensures
            r@ == history_truncate(value, width as int),
    {
        let w = width as usize;
        if value.as_bytes().len() <= w {
            return to_string(value);
        }
        let v = chars_of(value);
        if w == 0 {
            String::new()
        } else if w == 1 {
            if v.len() > 0 {
                string_from_range(&v, 0, 1)
            } else {
                to_string(" ")
            }
        } else {
            let n = if w - 1 < v.len() {
                w - 1
            } else {
                v.len()
            };
            let mut r = string_from_range(&v, 0, n);
            r.push('…');
            r
        }
    }
}

/// `a - b` saturated at zero, as a `u16`.
pub open spec fn sat_sub_u16(a: u16, b: u16) -> u16 {
    if a > b {
        (a - b) as u16
    } else {
        0
    }
}

/// Whether `specs` are the History columns.
pub open spec fn is_history_specs(specs: Seq<ColumnSpec>) -> bool {
    specs.map_values(|c: ColumnSpec| column_view(c)) == history_column_table()
}

/// Whether two name lists hold the same names.
fn same_names(a: &Vec<String>, b: &Vec<String>) -> (r: bool)
    ensures
        r == (a.deep_view() == b.deep_view()),
{
    if a.len() != b.len() {
        assert(a.deep_view().len() != b.deep_view().len());
        return false;
    }
    let mut i: usize = 0;
    while i < a.len()
        invariant
            i <= a@.len(),
            a@.len() == b@.len(),
            forall|k: int| 0 <= k < i ==> a.deep_view()[k] == b.deep_view()[k],
        decreases a@.len() - i,
    {
        if !str_eq(a[i].as_str(), b[i].as_str()) {
            assert(a.deep_view()[i as int] != b.deep_view()[i as int]);
            return false;
        }
        i = i + 1;
    }
    assert(a.deep_view() =~= b.deep_view());
    true
}

/// The row a cursor falls back to: the old row, or the first, clamped to
/// the last of `len` rows.
pub open spec fn restore_fallback(old_selected: Option<usize>, len: nat) -> usize {
    let base = match old_selected {
        Some(i) => i as int,
        None => 0,
    };
    if base < len - 1 {
        base as usize
    } else {
        (len - 1) as usize
    }
}

/// `b` is `a` after `update` with the jobs `jobs` for user `user`, which
/// returned `r`: the cursor row before and the id of the job under it, the
/// new jobs filtered as `a` says, and the cursor, filter and columns kept.
pub open spec fn history_updated(
    a: HistoryView,
    b: HistoryView,
    jobs: Seq<SacctJob>,
    user: Seq<char>,
    r: (Option<usize>, Option<String>),
) -> bool {
    &&& r.0 == a.table_state@.0
    &&& match r.1 {
        Some(id) => cursor_anchor(a.last_jobs@, r.0) == Some(id@),
        None => cursor_anchor(a.last_jobs@, r.0) is None,
    }
    &&& b.last_jobs_raw@ == jobs
    &&& b.last_jobs@ == shown_jobs(jobs, a.filter_mine, user)
    &&& b.filter_mine == a.filter_mine
    &&& b.table_state@ == a.table_state@
    &&& b.current_cols@ == a.current_cols@
}

/// `b` is `a` after `restore_state(old_selected, anchor)`: the cursor on
/// the first row of the anchored job when it is shown, else on the old row
/// clamped to the list, and on no row of an empty list.
pub open spec fn history_restored(
    a: HistoryView,
    b: HistoryView,
    old_selected: Option<usize>,
    anchor: Option<String>,
) -> bool {
    &&& b.last_jobs@ == a.last_jobs@
    &&& b.last_jobs_raw@ == a.last_jobs_raw@
    &&& b.filter_mine == a.filter_mine
    &&& b.table_state@ == if a.last_jobs@.len() == 0 {
        (None::<usize>, 0usize)
    } else {
        (
            Some(
                match anchor {
                    Some(id) => match job_position(a.last_jobs@, id@) {
                        Some(i) => i as usize,
                        None => restore_fallback(old_selected, a.last_jobs@.len()),
                    },
                    None => restore_fallback(old_selected, a.last_jobs@.len()),
                },
            ),
            a.last_jobs@.len() as usize,
        )
    }
}

/// A refresh keeps the cursor on its job: after `update` and then
/// `restore_state` with what `update` returned, the cursor is on a row of
/// the job it was on before, whenever that job is still shown.
pub proof fn lemma_history_refresh_keeps_job(
    a: HistoryView,
    b: HistoryView,
    r: (Option<usize>, Option<String>),
    d: HistoryView,
    jobs: Seq<SacctJob>,
    user: Seq<char>,
    id: Seq<char>,
)
    requires
        history_updated(a, b, jobs, user, r),
        history_restored(b, d, r.0, r.1),
        cursor_anchor(a.last_jobs@, a.table_state@.0) == Some(id),
        exists|k: int| 0 <= k < b.last_jobs@.len() && #[trigger] b.last_jobs@[k].job_id@ == id,
        b.last_jobs@.len() <= usize::MAX,
    ensures
        d.table_state@.0 matches Some(i) && i < d.last_jobs@.len() && d.last_jobs@[i as int].job_id@ == id,
{
    let k = choose|k: int| 0 <= k < b.last_jobs@.len() && #[trigger] b.last_jobs@[k].job_id@ == id;
    lemma_job_position_found(b.last_jobs@, id, k);
    let i = job_position(b.last_jobs@, id)->0;
    assert(i as usize as int == i);
}

/// A job that occurs in `jobs` has a first position, where it stands.
proof fn lemma_job_position_found(jobs: Seq<SacctJob>, id: Seq<char>, k: int)
    requires
        0 <= k < jobs.len(),
        jobs[k].job_id@ == id,
    ensures
        job_position(jobs, id) matches Some(i) && 0 <= i < jobs.len() && jobs[i].job_id@ == id,
    decreases jobs.len(),
{
    if k < jobs.len() - 1 {
        lemma_job_position_found(jobs.drop_last(), id, k);
    } else {
        match job_position(jobs.drop_last(), id) {
            Some(i) => {
                lemma_job_position_in_range(jobs.drop_last(), id);
            },
            None => {},
        }
    }
}

/// A first position lies in range and holds the job.
proof fn lemma_job_position_in_range(jobs: Seq<SacctJob>, id: Seq<char>)
    ensures
        job_position(jobs, id) matches Some(i) ==> 0 <= i < jobs.len() && jobs[i].job_id@ == id,
    decreases jobs.len(),
{
    if jobs.len() > 0 {
        lemma_job_position_in_range(jobs.drop_last(), id);
    }
}

/// A job found at `i` with no earlier match is found at `i` in the whole list.
proof fn lemma_job_position_prefix(jobs: Seq<SacctJob>, id: Seq<char>, i: int)
    requires
        0 <= i < jobs.len(),
        jobs[i].job_id@ == id,
        job_position(jobs.take(i), id) is None,
    ensures
        job_position(jobs, id) == Some(i),
    decreases jobs.len(),
{
    if i < jobs.len() - 1 {
        assert(jobs.drop_last().take(i) =~= jobs.take(i));
        lemma_job_position_prefix(jobs.drop_last(), id, i);
    } else {
        assert(jobs.drop_last() =~= jobs.take(i));
    }
}

/// The text of a History column for a job; empty for an unknown column.
pub open spec fn history_cell(job: SacctJob, col: Seq<char>) -> Seq<char> {
    if col == "JOBID"@ {
        job.job_id@
    } else if col == "NAME"@ {
        job.name@
    } else if col == "USER"@ {
        job.user@
    } else if col == "STATE"@ {
        job.state@
    } else if col == "ELAPSED"@ {
        job.elapsed@
    } else if col == "EXIT"@ {
        job.exit_code@
    } else if col == "PARTITION"@ {
        job.partition@
    } else {
        Seq::empty()
    }
}

/// What `HistoryView::truncate_cell` shows.
pub open spec fn history_truncate(value: &str, w: int) -> Seq<char> {
    if value.spec_bytes().len() <= w {
        value@
    } else if w == 0 {
        Seq::empty()
    } else if w == 1 {
        if value@.len() > 0 {
            value@.take(1)
        } else {
            " "@
        }
    } else {
        value@.take(if w - 1 < value@.len() { w - 1 } else { value@.len() as int }).push('…')
    }
}

/// The colour of an uppercased job state in the History view.
pub open spec fn history_state_tint(upper: Seq<char>) -> Tint {
    if starts_with_seq(upper, "COMPLETED"@) {
        Tint::DarkGray
    } else if starts_with_seq(upper, "FAILED"@) {
        Tint::Red
    } else if starts_with_seq(upper, "CANCELLED"@) {
        Tint::Yellow
    } else if starts_with_seq(upper, "TIMEOUT"@) {
        Tint::Magenta
    } else {
        Tint::White
    }
}

} // verus!
