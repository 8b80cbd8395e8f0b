//! Command palette modal: a searchable list of system commands whose labels
//! show the current settings.

use crate::config::{SafetyConfig, UiConfig};
use crate::text::{contains, contains_seq, decimal_seq, lowercase, push_decimal, push_str, to_lower, to_string};
use crate::views::keys::{Key, KeyPress};
use crate::views::modals::ModalOutcome;
use crate::views::table_state::{next_state, prev_state, CyclicTableState};
use vstd::prelude::*;

verus! {

/// Command palette result.
#[derive(Debug, Clone, PartialEq, Eq)]
pub enum PaletteResult {
    /// The user closed the palette without choosing.
    Closed,
    /// The user chose a command.
    Execute(PaletteCommand),
}

/// Command to execute from the palette.
#[derive(Debug, Clone, PartialEq, Eq)]
pub enum PaletteCommand {
    RefreshData,
    /// In seconds.
    SetRefreshInterval(u64),
    ToggleExpertMode,
    ToggleConfirmCancelSingle,
    ToggleConfirmBulkActions,
    ColumnVisibility,
    SetJobsDefaultSort(String),
    InvestigateJobById,
    InvestigateNodeByName,
    ReloadConfig,
}

/// A single palette command entry.
#[derive(Debug, Clone)]
pub struct CommandEntry {
    pub title: String,
    pub description: String,
    pub command: PaletteCommand,
    /// False: only shown when searched for.
    pub discover: bool,
}

/// State for the command palette modal.
#[derive(Debug, Clone)]
pub struct PaletteState {
    /// Search query (filters commands by title).
    pub search_query: String,
    /// All commands, built when the palette opens to show current settings.
    pub commands: Vec<CommandEntry>,
    /// The shown commands, as indices into `commands`.
    pub filtered: Vec<usize>,
    /// Cursor position in the shown list.
    pub table_state: CyclicTableState,
}

/// `on` or `off`.
pub open spec fn on_off(b: bool) -> Seq<char> {
    if b {
        "on"@
    } else {
        "off"@
    }
}

/// The refresh intervals offered, in seconds.
pub open spec fn refresh_secs() -> Seq<u64> {
    seq![1u64, 2u64, 5u64, 10u64, 30u64]
}

/// The jobs default sorts offered: (value, label).
pub open spec fn sort_choices() -> Seq<(Seq<char>, Seq<char>)> {
    seq![
        (""@, "State priority (default)"@),
        ("state"@, "State"@),
        ("time"@, "Time used"@),
        ("cpus"@, "CPUs"@),
        ("qos"@, "QOS"@),
    ]
}

/// The number of palette commands.
pub open spec fn command_count() -> nat {
    18
}

/// Title, description and discoverability of palette entry `i`.
pub open spec fn expected_texts(i: int, ui: UiConfig, safety: SafetyConfig) -> (Seq<char>, Seq<char>, bool) {
    if i == 0 {
        ("Refresh data"@, "Refresh all views now"@, true)
    } else if 1 <= i <= 5 {
        let s = decimal_seq(refresh_secs()[i - 1] as nat);
        ("Set refresh: "@ + s + "s"@, "Set auto-refresh interval to "@ + s + "s"@, false)
    } else if i == 6 {
        (
            "Expert mode: "@ + on_off(ui.expert_mode) + " → toggle"@,
            "Toggle expert mode (fewer confirmation dialogs)"@,
            true,
        )
    } else if i == 7 {
        (
            "Confirm single cancel: "@ + on_off(safety.confirm_cancel_single) + " → toggle"@,
            "Toggle confirmation dialog for single job cancel"@,
            true,
        )
    } else if i == 8 {
        (
            "Confirm bulk actions: "@ + on_off(safety.confirm_bulk_actions) + " → toggle"@,
            "Toggle confirmation for bulk operations"@,
            true,
        )
    } else if i == 9 {
        ("Column visibility"@, "Show/hide columns for the current view"@, true)
    } else if 10 <= i <= 14 {
        let label = sort_choices()[i - 10].1;
        (
            "Jobs default sort: "@ + label,
            "Set jobs default sort to '"@ + label + "' and persist"@,
            false,
        )
    } else if i == 15 {
        ("Investigate job by ID"@, "Open the investigation report for a job ID you type"@, false)
    } else if i == 16 {
        (
            "Investigate node by name"@,
            "Open the investigation report for a node name you type"@,
            false,
        )
    } else {
        (
            "Reload config"@,
            "Re-read config and apply theme, expert mode, and confirmation settings"@,
            true,
        )
    }
}

/// Whether `c` is the command of palette entry `i`.
pub open spec fn expected_command(i: int, c: PaletteCommand) -> bool {
    if i == 0 {
        c == PaletteCommand::RefreshData
    } else if 1 <= i <= 5 {
        c == PaletteCommand::SetRefreshInterval(refresh_secs()[i - 1])
    } else if i == 6 {
        c == PaletteCommand::ToggleExpertMode
    } else if i == 7 {
        c == PaletteCommand::ToggleConfirmCancelSingle
    } else if i == 8 {
        c == PaletteCommand::ToggleConfirmBulkActions
    } else if i == 9 {
        c == PaletteCommand::ColumnVisibility
    } else if 10 <= i <= 14 {
        c matches PaletteCommand::SetJobsDefaultSort(v) && v@ == sort_choices()[i - 10].0
    } else if i == 15 {
        c == PaletteCommand::InvestigateJobById
    } else if i == 16 {
        c == PaletteCommand::InvestigateNodeByName
    } else {
        c == PaletteCommand::ReloadConfig
    }
}

/// Whether `e` is palette entry `i` under the given settings.
pub open spec fn entry_ok(e: CommandEntry, i: int, ui: UiConfig, safety: SafetyConfig) -> bool {
    &&& (e.title@, e.description@, e.discover) == expected_texts(i, ui, safety)
    &&& expected_command(i, e.command)
}

/// Whether `cmds` is the palette command list under the given settings.
pub open spec fn is_command_list(cmds: Seq<CommandEntry>, ui: UiConfig, safety: SafetyConfig) -> bool {
    &&& cmds.len() == command_count()
    &&& forall|i: int| 0 <= i < cmds.len() ==> entry_ok(#[trigger] cmds[i], i, ui, safety)
}

fn entry(title: String, description: &str, command: PaletteCommand, discover: bool) -> (e: CommandEntry)
    ensures
        e.title == title,
        e.description@ == description@,
        e.command == command,
        e.discover == discover,
{
    CommandEntry { title, description: to_string(description), command, discover }
}

fn push_entry(v: &mut Vec<CommandEntry>, e: CommandEntry, ui: &UiConfig, safety: &SafetyConfig)
    requires
        entry_ok(e, old(v)@.len() as int, *ui, *safety),
        forall|i: int| 0 <= i < old(v)@.len() ==> entry_ok(#[trigger] old(v)@[i], i, *ui, *safety),
    ensures
        final(v)@ == old(v)@.push(e),
        forall|i: int| 0 <= i < final(v)@.len() ==> entry_ok(#[trigger] final(v)@[i], i, *ui, *safety),
{
    v.push(e);
}

/// `prefix`, the decimal of `n`, then `suffix`.
fn around_number(prefix: &str, n: u64, suffix: &str) -> (r: String)
    ensures
        r@ == prefix@ + decimal_seq(n as nat) + suffix@,
{
    let mut t = to_string(prefix);
    push_decimal(&mut t, n);
    push_str(&mut t, suffix);
    t
}

/// `prefix`, `middle`, then `suffix`.
fn around(prefix: &str, middle: &str, suffix: &str) -> (r: String)
    ensures
        r@ == prefix@ + middle@ + suffix@,
{
    let mut t = to_string(prefix);
    push_str(&mut t, middle);
    push_str(&mut t, suffix);
    t
}

fn on_off_text(b: bool) -> (r: &'static str)
    ensures
        r@ == on_off(b),
{
    if b {
        "on"
    } else {
        "off"
    }
}

fn refresh_entry(secs: u64) -> (e: CommandEntry)
    ensures
        e.title@ == "Set refresh: "@ + decimal_seq(secs as nat) + "s"@,
        e.description@ == "Set auto-refresh interval to "@ + decimal_seq(secs as nat) + "s"@,
        e.command == PaletteCommand::SetRefreshInterval(secs),
        !e.discover,
{
    CommandEntry {
        title: around_number("Set refresh: ", secs, "s"),
        description: around_number("Set auto-refresh interval to ", secs, "s"),
        command: PaletteCommand::SetRefreshInterval(secs),
        discover: false,
    }
}

fn sort_entry(value: &str, label: &str) -> (e: CommandEntry)
    ensures
        e.title@ == "Jobs default sort: "@ + label@ + ""@,
        e.description@ == "Set jobs default sort to '"@ + label@ + "' and persist"@,
        e.command matches PaletteCommand::SetJobsDefaultSort(v) && v@ == value@,
        !e.discover,
{
    CommandEntry {
        title: around("Jobs default sort: ", label, ""),
        description: around("Set jobs default sort to '", label, "' and persist"),
        command: PaletteCommand::SetJobsDefaultSort(to_string(value)),
        discover: false,
    }
}

/// Build the full command list, with labels showing the current settings.
pub fn build_commands(ui: &UiConfig, safety: &SafetyConfig) -> (r: Vec<CommandEntry>)
    ensures
        is_command_list(r@, *ui, *safety),
{
    proof {
        reveal_strlit("");
        reveal_strlit("State priority (default)");
        reveal_strlit("state");
        reveal_strlit("State");
        reveal_strlit("time");
        reveal_strlit("Time used");
        reveal_strlit("cpus");
        reveal_strlit("CPUs");
        reveal_strlit("qos");
        reveal_strlit("QOS");
        reveal_strlit("on");
        reveal_strlit("off");
    }
    let mut v: Vec<CommandEntry> = Vec::new();
    push_entry(
        &mut v,
        entry(to_string("Refresh data"), "Refresh all views now", PaletteCommand::RefreshData, true),
        ui,
        safety,
    );
    push_entry(&mut v, refresh_entry(1), ui, safety);
    push_entry(&mut v, refresh_entry(2), ui, safety);
    push_entry(&mut v, refresh_entry(5), ui, safety);
    push_entry(&mut v, refresh_entry(10), ui, safety);
    push_entry(&mut v, refresh_entry(30), ui, safety);
    push_entry(
        &mut v,
        entry(
            around("Expert mode: ", on_off_text(ui.expert_mode), " → toggle"),
            "Toggle expert mode (fewer confirmation dialogs)",
            PaletteCommand::ToggleExpertMode,
            true,
        ),
        ui,
        safety,
    );
    push_entry(
        &mut v,
        entry(
            around("Confirm single cancel: ", on_off_text(safety.confirm_cancel_single), " → toggle"),
            "Toggle confirmation dialog for single job cancel",
            PaletteCommand::ToggleConfirmCancelSingle,
            true,
        ),
        ui,
        safety,
    );
    push_entry(
        &mut v,
        entry(
            around("Confirm bulk actions: ", on_off_text(safety.confirm_bulk_actions), " → toggle"),
            "Toggle confirmation for bulk operations",
            PaletteCommand::ToggleConfirmBulkActions,
            true,
        ),
        ui,
        safety,
    );
    push_entry(
        &mut v,
        entry(
            to_string("Column visibility"),
            "Show/hide columns for the current view",
            PaletteCommand::ColumnVisibility,
            true,
        ),
        ui,
        safety,
    );
    push_entry(&mut v, sort_entry("", "State priority (default)"), ui, safety);
    push_entry(&mut v, sort_entry("state", "State"), ui, safety);
    push_entry(&mut v, sort_entry("time", "Time used"), ui, safety);
    push_entry(&mut v, sort_entry("cpus", "CPUs"), ui, safety);
    push_entry(&mut v, sort_entry("qos", "QOS"), ui, safety);
    push_entry(
        &mut v,
        entry(
            to_string("Investigate job by ID"),
            "Open the investigation report for a job ID you type",
            PaletteCommand::InvestigateJobById,
            false,
        ),
        ui,
        safety,
    );
    push_entry(
        &mut v,
        entry(
            to_string("Investigate node by name"),
            "Open the investigation report for a node name you type",
            PaletteCommand::InvestigateNodeByName,
            false,
        ),
        ui,
        safety,
    );
    push_entry(
        &mut v,
        entry(
            to_string("Reload config"),
            "Re-read config and apply theme, expert mode, and confirmation settings",
            PaletteCommand::ReloadConfig,
            true,
        ),
        ui,
        safety,
    );
    v
}


/// Whether a palette entry shows for the lowercased query `q`: without a
/// query when it is discoverable, else when its lowercased title holds `q`.
pub open spec fn shows_for(e: CommandEntry, q: Seq<char>) -> bool {
    if q.len() == 0 {
        e.discover
    } else {
        contains_seq(lowercase(e.title@), q)
    }
}

/// The indices of the entries that show for the lowercased query `q`, in
/// order.
pub open spec fn filtered_indices(cmds: Seq<CommandEntry>, q: Seq<char>) -> Seq<usize>
    decreases cmds.len(),
{
    if cmds.len() == 0 {
        Seq::empty()
    } else {
        let prev = filtered_indices(cmds.drop_last(), q);
        if shows_for(cmds.last(), q) {
            prev.push((cmds.len() - 1) as usize)
        } else {
            prev
        }
    }
}

/// Every filtered index points into the list.
pub proof fn lemma_filtered_in_range(cmds: Seq<CommandEntry>, q: Seq<char>)
    ensures
        forall|k: int| 0 <= k < filtered_indices(cmds, q).len() ==> #[trigger] filtered_indices(cmds, q)[k] < cmds.len(),
    decreases cmds.len(),
{
    if cmds.len() > 0 {
        lemma_filtered_in_range(cmds.drop_last(), q);
        let prev = filtered_indices(cmds.drop_last(), q);
        if shows_for(cmds.last(), q) {
            assert forall|k: int| 0 <= k < prev.push((cmds.len() - 1) as usize).len() implies #[trigger] prev.push(
                (cmds.len() - 1) as usize,
            )[k] < cmds.len() by {
                if k < prev.len() {
                    assert(prev.push((cmds.len() - 1) as usize)[k] == prev[k]);
                }
            }
        }
    }
}

/// The palette shows exactly the commands that match: an index is shown if
/// and only if its command shows for the query (discoverable without a
/// query, title containing the query with one), and each at most once, in
/// list order.
pub proof fn lemma_filtered_exactly(cmds: Seq<CommandEntry>, q: Seq<char>)
    requires
        cmds.len() <= usize::MAX,
    ensures
        forall|i: int|
            0 <= i < cmds.len() ==> (filtered_indices(cmds, q).contains(i as usize) <==> shows_for(
                #[trigger] cmds[i],
                q,
            )),
        forall|k: int, l: int|
            0 <= k < l < filtered_indices(cmds, q).len() ==> #[trigger] filtered_indices(cmds, q)[k]
                < #[trigger] filtered_indices(cmds, q)[l],
    decreases cmds.len(),
{
    lemma_filtered_in_range(cmds, q);
    if cmds.len() > 0 {
        let p = cmds.drop_last();
        lemma_filtered_exactly(p, q);
        lemma_filtered_in_range(p, q);
        let prev = filtered_indices(p, q);
        let n = (cmds.len() - 1) as usize;
        assert forall|i: int| 0 <= i < cmds.len() implies (filtered_indices(cmds, q).contains(
            i as usize,
        ) <==> shows_for(#[trigger] cmds[i], q)) by {
            if i < cmds.len() - 1 {
                assert(p[i] == cmds[i]);
                if shows_for(cmds.last(), q) {
                    if prev.push(n).contains(i as usize) {
                        let k = choose|k: int| 0 <= k < prev.push(n).len() && prev.push(n)[k] == i as usize;
                        if k < prev.len() {
                            assert(prev[k] == i as usize);
                        }
                    }
                    if prev.contains(i as usize) {
                        let k = choose|k: int| 0 <= k < prev.len() && prev[k] == i as usize;
                        assert(prev.push(n)[k] == i as usize);
                    }
                }
            } else {
                if shows_for(cmds.last(), q) {
                    assert(prev.push(n)[prev.len() as int] == n);
                } else {
                    if prev.contains(n) {
                        let k = choose|k: int| 0 <= k < prev.len() && prev[k] == n;
                        assert(prev[k] < p.len());
                    }
                }
            }
        }
        if shows_for(cmds.last(), q) {
            assert forall|k: int, l: int| 0 <= k < l < prev.push(n).len() implies #[trigger] prev.push(n)[k]
                < #[trigger] prev.push(n)[l] by {
                if l == prev.len() {
                    assert(prev[k] < p.len());
                } else {
                    assert(prev.push(n)[k] == prev[k] && prev.push(n)[l] == prev[l]);
                }
            }
        }
    }
}

/// The indices of the commands shown for `query`: with an empty (lowercased)
/// query the discoverable ones, else those whose lowercased title holds the
/// lowercased query.
pub fn build_filtered(commands: &Vec<CommandEntry>, query: &str) -> (r: Vec<usize>)
    ensures
        r@ == filtered_indices(commands@, lowercase(query@)),
{
    let q = to_lower(query);
    let qs = q.as_str();
    let empty = qs.is_empty();
    let mut r: Vec<usize> = Vec::new();
    let mut i: usize = 0;
    while i < commands.len()
        invariant
            i <= commands@.len(),
            qs@ == lowercase(query@),
            empty == (qs@.len() == 0),
            r@ == filtered_indices(commands@.take(i as int), qs@),
        decreases commands@.len() - i,
    {
        assert(commands@.take(i + 1).drop_last() =~= commands@.take(i as int));
        let shows = if empty {
            commands[i].discover
        } else {
            let t = to_lower(commands[i].title.as_str());
            contains(t.as_str(), qs)
        };
        if shows {
            r.push(i);
        }
        i = i + 1;
    }
    assert(commands@.take(commands@.len() as int) =~= commands@);
    r
}

/// A copy of a palette command.
fn copy_command(c: &PaletteCommand) -> (r: PaletteCommand)
    ensures
        r == *c,
{
    match c {
        PaletteCommand::RefreshData => PaletteCommand::RefreshData,
        PaletteCommand::SetRefreshInterval(n) => PaletteCommand::SetRefreshInterval(*n),
        PaletteCommand::ToggleExpertMode => PaletteCommand::ToggleExpertMode,
        PaletteCommand::ToggleConfirmCancelSingle => PaletteCommand::ToggleConfirmCancelSingle,
        PaletteCommand::ToggleConfirmBulkActions => PaletteCommand::ToggleConfirmBulkActions,
        PaletteCommand::ColumnVisibility => PaletteCommand::ColumnVisibility,
        PaletteCommand::SetJobsDefaultSort(s) => PaletteCommand::SetJobsDefaultSort(s.clone()),
        PaletteCommand::InvestigateJobById => PaletteCommand::InvestigateJobById,
        PaletteCommand::InvestigateNodeByName => PaletteCommand::InvestigateNodeByName,
        PaletteCommand::ReloadConfig => PaletteCommand::ReloadConfig,
    }
}

/// The command chosen by Enter: the one under the cursor, if the cursor is
/// on a shown command.
pub open spec fn chosen(p: PaletteState) -> Option<PaletteCommand> {
    match p.table_state@.0 {
        Some(s) => if s < p.filtered@.len() {
            Some(p.commands@[p.filtered@[s as int] as int].command)
        } else {
            None
        },
        None => None,
    }
}

impl PaletteState {
    /// Whether every shown index points into the command list.
    pub open spec fn wf(&self) -> bool {
        forall|k: int| 0 <= k < self.filtered@.len() ==> #[trigger] self.filtered@[k] < self.commands@.len()
    }

    /// A palette with the commands for the current settings, no query, the
    /// commands shown for an empty query, and no cursor.
    pub fn new(ui: &UiConfig, safety: &SafetyConfig) -> (p: Self)
        ensures
            is_command_list(p.commands@, *ui, *safety),
            p.search_query@ == Seq::<char>::empty(),
            p.filtered@ == filtered_indices(p.commands@, lowercase(Seq::<char>::empty())),
            p.table_state@ == (None::<usize>, p.filtered@.len() as usize),
            p.wf(),
    {
        let commands = build_commands(ui, safety);
        let filtered = build_filtered(&commands, "");
        proof {
            reveal_strlit("");
            assert(""@ =~= Seq::<char>::empty());
            lemma_filtered_in_range(commands@, lowercase(""@));
        }
        let mut table_state = CyclicTableState::new();
        table_state.set_row_count(filtered.len());
        PaletteState { search_query: String::new(), commands, filtered, table_state }
    }

    /// Show the commands for the current query; the row count follows.
    pub fn update_filter(&mut self)
        ensures
            final(self).filtered@ == filtered_indices(old(self).commands@, lowercase(old(self).search_query@)),
            final(self).table_state@ == (old(self).table_state@.0, final(self).filtered@.len() as usize),
            final(self).commands@ == old(self).commands@,
            final(self).search_query@ == old(self).search_query@,
            final(self).wf(),
    {
        self.filtered = build_filtered(&self.commands, self.search_query.as_str());
        proof {
            lemma_filtered_in_range(self.commands@, lowercase(self.search_query@));
        }
        self.table_state.set_row_count(self.filtered.len());
    }

    /// Handle a key: Esc closes; Enter runs the command under the cursor (or
    /// closes without one); Down/`j` and Up/`k` without modifiers move; other
    /// characters (with or without Shift) extend the query and Backspace
    /// shortens it, refiltering; other keys keep the palette open.
    pub fn handle_key(&mut self, key: KeyPress) -> (r: ModalOutcome<PaletteResult>)
        requires
            old(self).wf(),
        ensures
            final(self).commands@ == old(self).commands@,
            final(self).wf(),
            palette_key_handled(*old(self), *final(self), key, r),
    {
        let plain = !key.shift && !(key.control || key.alt);
        match key.key {
            Key::Esc => ModalOutcome::Dismiss(PaletteResult::Closed),
            Key::Enter => {
                match self.table_state.selected() {
                    Some(s) => {
                        if s < self.filtered.len() {
                            let idx = self.filtered[s];
                            let cmd = copy_command(&self.commands[idx].command);
                            return ModalOutcome::Dismiss(PaletteResult::Execute(cmd));
                        }
                    },
                    None => {},
                }
                ModalOutcome::Dismiss(PaletteResult::Closed)
            },
            Key::Down => {
                if plain {
                    self.table_state.next();
                }
                ModalOutcome::Continue
            },
            Key::Up => {
                if plain {
                    self.table_state.prev();
                }
                ModalOutcome::Continue
            },
            Key::Char(c) => {
                if plain && c == 'j' {
                    self.table_state.next();
                } else if plain && c == 'k' {
                    self.table_state.prev();
                } else if !(key.control || key.alt) {
                    self.search_query.push(c);
                    self.update_filter();
                }
                ModalOutcome::Continue
            },
            Key::Backspace => {
                let v = crate::text::chars_of(self.search_query.as_str());
                if v.len() > 0 {
                    self.search_query = crate::text::string_from_range(&v, 0, v.len() - 1);
                    assert(self.search_query@ =~= v@.drop_last());
                }
                self.update_filter();
                ModalOutcome::Continue
            },
            _ => ModalOutcome::Continue,
        }
    }
}

/// What a key does to the palette.
pub open spec fn palette_key_handled(
    a: PaletteState,
    b: PaletteState,
    key: KeyPress,
    r: ModalOutcome<PaletteResult>,
) -> bool {
    let plain = !key.shift && !(key.control || key.alt);
    let unchanged = b.search_query@ == a.search_query@ && b.filtered@ == a.filtered@
        && b.table_state@ == a.table_state@;
    match key.key {
        Key::Esc => unchanged && r == ModalOutcome::Dismiss(PaletteResult::Closed),
        Key::Enter => unchanged && r == ModalOutcome::Dismiss(
            match chosen(a) {
                Some(c) => PaletteResult::Execute(c),
                None => PaletteResult::Closed,
            },
        ),
        Key::Down => r == ModalOutcome::<PaletteResult>::Continue && b.search_query@
            == a.search_query@ && b.filtered@ == a.filtered@ && b.table_state@ == if plain {
            next_state(a.table_state@)
        } else {
            a.table_state@
        },
        Key::Up => r == ModalOutcome::<PaletteResult>::Continue && b.search_query@
            == a.search_query@ && b.filtered@ == a.filtered@ && b.table_state@ == if plain {
            prev_state(a.table_state@)
        } else {
            a.table_state@
        },
        Key::Char(c) => r == ModalOutcome::<PaletteResult>::Continue && if plain && c == 'j' {
            b.search_query@ == a.search_query@ && b.filtered@ == a.filtered@ && b.table_state@
                == next_state(a.table_state@)
        } else if plain && c == 'k' {
            b.search_query@ == a.search_query@ && b.filtered@ == a.filtered@ && b.table_state@
                == prev_state(a.table_state@)
        } else if !(key.control || key.alt) {
            &&& b.search_query@ == a.search_query@.push(c)
            &&& b.filtered@ == filtered_indices(a.commands@, lowercase(b.search_query@))
            &&& b.table_state@ == (a.table_state@.0, b.filtered@.len() as usize)
        } else {
            unchanged
        },
        Key::Backspace => {
            &&& r == ModalOutcome::<PaletteResult>::Continue
            &&& b.search_query@ == if a.search_query@.len() == 0 {
                a.search_query@
            } else {
                a.search_query@.drop_last()
            }
            &&& b.filtered@ == filtered_indices(a.commands@, lowercase(b.search_query@))
            &&& b.table_state@ == (a.table_state@.0, b.filtered@.len() as usize)
        },
        _ => unchanged && r == ModalOutcome::<PaletteResult>::Continue,
    }
}

} // verus!
