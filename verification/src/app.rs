//! The top-level tabs of the application, and its decisions on job actions.

use crate::config::{SafetyConfig, UiConfig};
use crate::slurm::exec::{
    cancel_job_result, job_action_spec, run_bulk_job_action, shell_quote_spec, CommandSource,
    bulk_action_log, log_after, same_outcomes,
};
use crate::slurm::model::ActionResult;
use crate::views::keys::{Key, KeyPress};
use crate::text::{concat, decimal_seq, push_str, str_eq, to_string, to_upper, u64_to_string, uppercase};
use vstd::prelude::*;

verus! {

/// Top-level tabs, in display order.
#[derive(Debug, Clone, Copy, PartialEq, Eq, Structural)]
pub enum Tab {
    Jobs,
    Nodes,
    Partitions,
    History,
    Health,
}

/// The title shown for each tab.
pub open spec fn tab_title(t: Tab) -> Seq<char> {
    match t {
        Tab::Jobs => "Jobs"@,
        Tab::Nodes => "Nodes"@,
        Tab::Partitions => "Partitions"@,
        Tab::History => "History"@,
        Tab::Health => "Health"@,
    }
}

impl Tab {
    /// All tabs in display order.
    pub fn all() -> (r: [Tab; 5])
        ensures
            r@ == seq![Tab::Jobs, Tab::Nodes, Tab::Partitions, Tab::History, Tab::Health],
    {
        let r = [Tab::Jobs, Tab::Nodes, Tab::Partitions, Tab::History, Tab::Health];
        assert(r@ =~= seq![Tab::Jobs, Tab::Nodes, Tab::Partitions, Tab::History, Tab::Health]);
        r
    }

    /// Tab title for display.
    pub fn title(self) -> (s: &'static str)
        ensures
            s@ == tab_title(self),
    {
        match self {
            Tab::Jobs => "Jobs",
            Tab::Nodes => "Nodes",
            Tab::Partitions => "Partitions",
            Tab::History => "History",
            Tab::Health => "Health",
        }
    }
}

// ── Job actions ─────────────────────────────────────────────────────────────

/// An action on jobs that waits for the user's confirmation.
#[derive(Debug, Clone, PartialEq, Eq)]
pub enum PendingAction {
    CancelJob(String),
    BulkAction { action: String, job_ids: Vec<String> },
}

/// What a requested job action leads to.
#[derive(Debug, Clone, PartialEq, Eq)]
pub enum ActionPlan {
    /// Ask with `prompt` first; run `pending` on a yes.
    Confirm { pending: PendingAction, prompt: String },
    /// Run it at once.
    Run(PendingAction),
    /// Nothing runs; the status line shows this message.
    Status(String),
}

/// Cancelling one job asks first unless expert mode is on or the prompt is
/// switched off.
pub open spec fn cancel_asks(ui: UiConfig, safety: SafetyConfig) -> bool {
    !ui.expert_mode && safety.confirm_cancel_single
}

/// A bulk cancel asks first unless expert mode is on; another bulk action
/// also needs bulk confirmations switched on.
pub open spec fn bulk_asks(action: Seq<char>, ui: UiConfig, safety: SafetyConfig) -> bool {
    if action == "cancel"@ {
        !ui.expert_mode
    } else {
        !ui.expert_mode && safety.confirm_bulk_actions
    }
}

/// Whether cancelling a single job asks for confirmation.
pub fn cancel_needs_confirmation(ui: &UiConfig, safety: &SafetyConfig) -> (r: bool)
    ensures
        r == cancel_asks(*ui, *safety),
{
    !ui.expert_mode && safety.confirm_cancel_single
}

/// Whether running `action` on several jobs asks for confirmation.
pub fn bulk_needs_confirmation(action: &str, ui: &UiConfig, safety: &SafetyConfig) -> (r: bool)
    ensures
        r == bulk_asks(action@, *ui, *safety),
{
    if str_eq(action, "cancel") {
        !ui.expert_mode
    } else {
        !ui.expert_mode && safety.confirm_bulk_actions
    }
}

/// The views of a list of job ids.
pub open spec fn ids_view(v: Seq<String>) -> Seq<Seq<char>> {
    v.map_values(|s: String| s@)
}

/// `p` cancels the job `job_id`.
pub open spec fn cancels(p: PendingAction, job_id: Seq<char>) -> bool {
    p matches PendingAction::CancelJob(id) && id@ == job_id
}

/// `p` runs `action` on the jobs `ids`.
pub open spec fn runs_bulk(p: PendingAction, action: Seq<char>, ids: Seq<Seq<char>>) -> bool {
    p matches PendingAction::BulkAction { action: a, job_ids } && a@ == action && ids_view(job_ids@)
        == ids
}

/// The plan for a single-job action: a cancel asks first when
/// `cancel_asks`, else runs; other actions only report that they are not
/// available.
pub open spec fn job_action_planned(
    r: ActionPlan,
    job_id: Seq<char>,
    action: Seq<char>,
    ui: UiConfig,
    safety: SafetyConfig,
) -> bool {
    if action == "cancel"@ {
        if cancel_asks(ui, safety) {
            r matches ActionPlan::Confirm { pending, prompt } && cancels(pending, job_id) && prompt@
                == "Cancel job "@ + job_id + "?"@
        } else {
            r matches ActionPlan::Run(p) && cancels(p, job_id)
        }
    } else {
        r matches ActionPlan::Status(m) && m@ == "Action '"@ + action + "' not yet implemented"@
    }
}

/// The plan for a bulk action: it asks first when `bulk_asks`, else runs.
pub open spec fn bulk_action_planned(
    r: ActionPlan,
    action: Seq<char>,
    ids: Seq<Seq<char>>,
    ui: UiConfig,
    safety: SafetyConfig,
) -> bool {
    if bulk_asks(action, ui, safety) {
        r matches ActionPlan::Confirm { pending, prompt } && runs_bulk(pending, action, ids) && prompt@
            == action + " "@ + decimal_seq(ids.len()) + " job(s)?"@
    } else {
        r matches ActionPlan::Run(p) && runs_bulk(p, action, ids)
    }
}

/// Decide what a single-job action request leads to.
pub fn plan_job_action(job_id: String, action: &str, ui: &UiConfig, safety: &SafetyConfig) -> (r:
    ActionPlan)
    ensures
        job_action_planned(r, job_id@, action@, *ui, *safety),
{
    if str_eq(action, "cancel") {
        if cancel_needs_confirmation(ui, safety) {
            let mut prompt = to_string("Cancel job ");
            push_str(&mut prompt, job_id.as_str());
            push_str(&mut prompt, "?");
            ActionPlan::Confirm { pending: PendingAction::CancelJob(job_id), prompt }
        } else {
            ActionPlan::Run(PendingAction::CancelJob(job_id))
        }
    } else {
        let mut m = to_string("Action '");
        push_str(&mut m, action);
        push_str(&mut m, "' not yet implemented");
        ActionPlan::Status(m)
    }
}

/// Decide what a request to run `action` on several jobs leads to.
pub fn plan_bulk_action(action: &str, job_ids: Vec<String>, ui: &UiConfig, safety: &SafetyConfig) -> (r:
    ActionPlan)
    requires
        job_ids@.len() <= u64::MAX,
    ensures
        bulk_action_planned(r, action@, ids_view(job_ids@), *ui, *safety),
{
    let pending = PendingAction::BulkAction { action: to_string(action), job_ids };
    if bulk_needs_confirmation(action, ui, safety) {
        let n = match &pending {
            PendingAction::BulkAction { job_ids, .. } => job_ids.len(),
            PendingAction::CancelJob(_) => 0,
        };
        let mut prompt = to_string(action);
        push_str(&mut prompt, " ");
        let count = u64_to_string(n as u64);
        push_str(&mut prompt, count.as_str());
        push_str(&mut prompt, " job(s)?");
        ActionPlan::Confirm { pending, prompt }
    } else {
        ActionPlan::Run(pending)
    }
}

/// The status line after cancelling `job_id`.
pub open spec fn cancel_status_spec(job_id: Seq<char>, ok: bool, message: Seq<char>) -> Seq<char> {
    if ok {
        "Cancelled job "@ + job_id
    } else {
        "Cancel failed: "@ + message
    }
}

/// The status line after cancelling `job_id` with outcome `(ok, message)`.
pub fn cancel_status(job_id: &str, ok: bool, message: &str) -> (r: String)
    ensures
        r@ == cancel_status_spec(job_id@, ok, message@),
{
    if ok {
        concat("Cancelled job ", job_id)
    } else {
        concat("Cancel failed: ", message)
    }
}

/// How many of `results` succeeded.
pub open spec fn ok_count(results: Seq<ActionResult>) -> nat
    decreases results.len(),
{
    if results.len() == 0 {
        0
    } else {
        ok_count(results.drop_last()) + if results.last().ok {
            1nat
        } else {
            0nat
        }
    }
}

/// The status line after a bulk action: `ACTION n job(s)` when all `n`
/// succeeded, else `ACTION k/n job(s)`.
pub open spec fn bulk_status_spec(action: Seq<char>, results: Seq<ActionResult>) -> Seq<char> {
    let total = results.len();
    let ok = ok_count(results);
    if ok == total {
        uppercase(action) + " "@ + decimal_seq(total) + " job(s)"@
    } else {
        uppercase(action) + " "@ + decimal_seq(ok) + "/"@ + decimal_seq(total) + " job(s)"@
    }
}

/// The status line after running `action` on several jobs.
pub fn bulk_status(action: &str, results: &[ActionResult]) -> (r: String)
    requires
        results@.len() <= u64::MAX,
    ensures
        r@ == bulk_status_spec(action@, results@),
{
    let mut ok: usize = 0;
    let mut i: usize = 0;
    while i < results.len()
        invariant
            i <= results@.len(),
            ok == ok_count(results@.take(i as int)),
            ok <= i,
        decreases results@.len() - i,
    {
        assert(results@.take(i + 1).drop_last() =~= results@.take(i as int));
        if results[i].ok {
            ok = ok + 1;
        }
        i = i + 1;
    }
    assert(results@.take(results@.len() as int) =~= results@);
    let mut r = to_upper(action);
    push_str(&mut r, " ");
    if ok == results.len() {
        let t = u64_to_string(results.len() as u64);
        push_str(&mut r, t.as_str());
    } else {
        let k = u64_to_string(ok as u64);
        push_str(&mut r, k.as_str());
        push_str(&mut r, "/");
        let t = u64_to_string(results.len() as u64);
        push_str(&mut r, t.as_str());
    }
    push_str(&mut r, " job(s)");
    r
}

/// Run a confirmed action through `source` and return the status line:
/// a cancel reports what `scancel` answered, a bulk action how many of its
/// jobs succeeded.
pub fn execute_pending_action<S: CommandSource>(source: &mut S, pending: PendingAction) -> (r: String)
    requires
        pending matches PendingAction::BulkAction { job_ids, .. } ==> job_ids@.len() <= u64::MAX,
    ensures
        same_outcomes(*old(source), *final(source)),
        match pending {
            PendingAction::CancelJob(id) => {
                &&& exists|out: Seq<char>, ok: bool, message: Seq<char>|
                    old(source).ran("scancel "@ + shell_quote_spec(id@), out, ok, message) && r@
                        == cancel_status_spec(id@, ok, message)
                &&& final(source).log() == log_after(old(source).log(), "scancel "@ + shell_quote_spec(id@))
            },
            PendingAction::BulkAction { action, job_ids } => {
                &&& exists|results: Seq<ActionResult>|
                    {
                        &&& results.len() == job_ids@.len()
                        &&& forall|i: int|
                            0 <= i < results.len() ==> job_action_spec(
                                *old(source),
                                action@,
                                job_ids@[i]@,
                                #[trigger] results[i],
                            )
                        &&& r@ == bulk_status_spec(action@, results)
                    }
                &&& final(source).log() == bulk_action_log(
                    old(source).log(),
                    action@,
                    job_ids@.map_values(|s: String| s@),
                )
            },
        },
{
    match pending {
        PendingAction::CancelJob(id) => {
            let (ok, message) = cancel_job_result(source, id.as_str());
            let r = cancel_status(id.as_str(), ok, message.as_str());
            proof {
                let out = choose|out: Seq<char>|
                    old(source).ran("scancel "@ + shell_quote_spec(id@), out, ok, message@);
                assert(old(source).ran("scancel "@ + shell_quote_spec(id@), out, ok, message@));
            }
            r
        },
        PendingAction::BulkAction { action, job_ids } => {
            let results = run_bulk_job_action(source, action.as_str(), job_ids.as_slice());
            let r = bulk_status(action.as_str(), results.as_slice());
            assert(results@.len() == job_ids@.len());
            r
        },
    }
}

// ── Application keys ────────────────────────────────────────────────────────

/// What a key does at the application level, before the current tab's view
/// sees it.
#[derive(Debug, Clone, Copy, PartialEq, Eq, Structural)]
pub enum AppCommand {
    Quit,
    /// Show this tab and refresh it at once.
    SwitchTab(Tab),
    /// Refresh the current tab at once.
    Refresh,
    /// Open the column chooser of the jobs or nodes tab.
    ToggleColumns,
    /// The current tab has no column chooser.
    ColumnsUnavailable,
    /// Show the key bindings of the current tab.
    ShowKeybindings,
    /// Open the actions menu of the job under the cursor.
    OpenJobActions,
    /// Open the detail screen of the node under the cursor.
    OpenNodeDetail,
    InvestigateJob,
    InvestigateNode,
    /// Open the information screen of the job under the cursor.
    OpenJobInfo,
    /// Copy the visually selected jobs.
    YankJobs,
    /// Copy the visually selected nodes.
    YankNodes,
    /// Copy the text of the open detail screen.
    CopyPane,
    /// Open the bulk actions menu for the selected jobs.
    OpenBulkActions,
    /// Hand the key to the current tab's view.
    ToView,
}

/// No modifier was held.
pub open spec fn unmodified(k: KeyPress) -> bool {
    !k.shift && !k.control && !k.alt
}

/// The tab a number key chooses.
pub open spec fn tab_for_digit(c: char) -> Option<Tab> {
    if c == '1' {
        Some(Tab::Jobs)
    } else if c == '2' {
        Some(Tab::Nodes)
    } else if c == '3' {
        Some(Tab::Partitions)
    } else if c == '4' {
        Some(Tab::History)
    } else if c == '5' {
        Some(Tab::Health)
    } else {
        None
    }
}

/// The application-level meaning of `k` on `tab`, given whether the jobs and
/// nodes tables are in visual selection mode; the first rule that applies
/// wins.
pub open spec fn app_command_spec(tab: Tab, k: KeyPress, jobs_visual: bool, nodes_visual: bool) -> AppCommand {
    let plain = unmodified(k);
    let ctrl_only = k.control && !k.shift && !k.alt;
    match k.key {
        Key::Char('q') if plain => AppCommand::Quit,
        Key::Char('c') if ctrl_only => AppCommand::Quit,
        Key::Char(c) if plain && tab_for_digit(c) is Some => AppCommand::SwitchTab(tab_for_digit(c)->0),
        Key::Char('r') if plain => AppCommand::Refresh,
        Key::Char('C') if plain => if tab == Tab::Jobs || tab == Tab::Nodes {
            AppCommand::ToggleColumns
        } else {
            AppCommand::ColumnsUnavailable
        },
        Key::Char('?') if plain => AppCommand::ShowKeybindings,
        Key::Enter if plain && tab == Tab::Jobs => AppCommand::OpenJobActions,
        Key::Enter if plain && tab == Tab::Nodes => AppCommand::OpenNodeDetail,
        Key::Char('I') if plain && tab == Tab::Jobs => AppCommand::InvestigateJob,
        Key::Char('I') if plain && tab == Tab::Nodes => AppCommand::InvestigateNode,
        Key::Char('i') if plain && tab == Tab::Jobs => AppCommand::OpenJobInfo,
        Key::Char('y') if plain && tab == Tab::Jobs && jobs_visual => AppCommand::YankJobs,
        Key::Char('y') if plain && tab == Tab::Nodes && nodes_visual => AppCommand::YankNodes,
        Key::Char('y') if k.control && k.shift && !k.alt => AppCommand::CopyPane,
        Key::Char('Y') if ctrl_only => AppCommand::CopyPane,
        Key::Char('B') if plain && tab == Tab::Jobs => AppCommand::OpenBulkActions,
        _ => AppCommand::ToView,
    }
}

/// The tab a number key chooses.
fn digit_tab(c: char) -> (r: Option<Tab>)
    ensures
        r == tab_for_digit(c),
{
    if c == '1' {
        Some(Tab::Jobs)
    } else if c == '2' {
        Some(Tab::Nodes)
    } else if c == '3' {
        Some(Tab::Partitions)
    } else if c == '4' {
        Some(Tab::History)
    } else if c == '5' {
        Some(Tab::Health)
    } else {
        None
    }
}

/// Decide what a key does at the application level (quit, switch or
/// refresh tabs, open screens and menus, copy); keys it leaves alone go to
/// the current tab's view.
pub fn app_command(tab: Tab, k: KeyPress, jobs_visual: bool, nodes_visual: bool) -> (r: AppCommand)
    ensures
        r == app_command_spec(tab, k, jobs_visual, nodes_visual),
{
    let plain = !k.shift && !k.control && !k.alt;
    let ctrl_only = k.control && !k.shift && !k.alt;
    let jobs = tab == Tab::Jobs;
    let nodes = tab == Tab::Nodes;
    match k.key {
        Key::Char(c) => {
            if c == 'q' && plain {
                AppCommand::Quit
            } else if c == 'c' && ctrl_only {
                AppCommand::Quit
            } else if plain && digit_tab(c).is_some() {
                match digit_tab(c) {
                    Some(t) => AppCommand::SwitchTab(t),
                    None => AppCommand::ToView,
                }
            } else if c == 'r' && plain {
                AppCommand::Refresh
            } else if c == 'C' && plain {
                if jobs || nodes {
                    AppCommand::ToggleColumns
                } else {
                    AppCommand::ColumnsUnavailable
                }
            } else if c == '?' && plain {
                AppCommand::ShowKeybindings
            } else if c == 'I' && plain && jobs {
                AppCommand::InvestigateJob
            } else if c == 'I' && plain && nodes {
                AppCommand::InvestigateNode
            } else if c == 'i' && plain && jobs {
                AppCommand::OpenJobInfo
            } else if c == 'y' && plain && jobs && jobs_visual {
                AppCommand::YankJobs
            } else if c == 'y' && plain && nodes && nodes_visual {
                AppCommand::YankNodes
            } else if c == 'y' && k.control && k.shift && !k.alt {
                AppCommand::CopyPane
            } else if c == 'Y' && ctrl_only {
                AppCommand::CopyPane
            } else if c == 'B' && plain && jobs {
                AppCommand::OpenBulkActions
            } else {
                AppCommand::ToView
            }
        },
        Key::Enter => {
            if plain && jobs {
                AppCommand::OpenJobActions
            } else if plain && nodes {
                AppCommand::OpenNodeDetail
            } else {
                AppCommand::ToView
            }
        },
        _ => AppCommand::ToView,
    }
}

/// The status line after copying `count` rows.
pub open spec fn copied_rows_spec(count: nat) -> Seq<char> {
    "Copied "@ + decimal_seq(count) + if count == 1 {
        " row"@
    } else {
        " rows"@
    }
}

/// The status line after copying `count` rows: `Copied 1 row`, `Copied 3 rows`.
pub fn copied_rows_status(count: u64) -> (r: String)
    ensures
        r@ == copied_rows_spec(count as nat),
{
    let mut r = to_string("Copied ");
    let n = u64_to_string(count);
    push_str(&mut r, n.as_str());
    if count == 1 {
        push_str(&mut r, " row");
    } else {
        push_str(&mut r, " rows");
    }
    r
}

// ── Application step ────────────────────────────────────────────────────────

/// What the application keeps between keys, as far as its key decisions go.
#[derive(Debug, Clone, Copy, PartialEq, Eq, Structural)]
pub struct AppState {
    pub tab: Tab,
    /// The jobs table is in visual selection mode.
    pub jobs_visual: bool,
    /// The nodes table is in visual selection mode.
    pub nodes_visual: bool,
    /// How many jobs are selected.
    pub jobs_selected: usize,
    pub should_quit: bool,
    /// Every tab is due for a refresh.
    pub refresh_all: bool,
    /// The current tab is due for a refresh.
    pub refresh_current: bool,
}

/// What the application does after a key, besides its new state.
#[derive(Debug, Clone, Copy, PartialEq, Eq, Structural)]
pub enum AppAction {
    Nothing,
    /// Hand the key to the current tab's view.
    ToView,
    OpenJobActions,
    OpenBulkActions,
    OpenNodeDetail,
    InvestigateJob,
    InvestigateNode,
    OpenJobInfo,
    YankJobs,
    YankNodes,
    CopyPane,
    ShowKeybindings,
    ToggleColumns,
    /// Say that the current tab has no column chooser.
    ReportColumnsUnavailable,
    /// Say that no job is selected for a bulk action.
    ReportNoJobsSelected,
}

/// The application's step on key `k` in state `s`: quitting, switching tabs
/// (the new tab is refreshed at once), refreshing every tab, or the action
/// the key asks for; the bulk actions menu needs selected jobs.
pub open spec fn app_step_spec(s: AppState, k: KeyPress) -> (AppState, AppAction) {
    match app_command_spec(s.tab, k, s.jobs_visual, s.nodes_visual) {
        AppCommand::Quit => (AppState { should_quit: true, ..s }, AppAction::Nothing),
        AppCommand::SwitchTab(t) => (AppState { tab: t, refresh_current: true, ..s }, AppAction::Nothing),
        AppCommand::Refresh => (
            AppState { refresh_all: true, refresh_current: true, ..s },
            AppAction::Nothing,
        ),
        AppCommand::ToggleColumns => (s, AppAction::ToggleColumns),
        AppCommand::ColumnsUnavailable => (s, AppAction::ReportColumnsUnavailable),
        AppCommand::ShowKeybindings => (s, AppAction::ShowKeybindings),
        AppCommand::OpenJobActions => (s, AppAction::OpenJobActions),
        AppCommand::OpenNodeDetail => (s, AppAction::OpenNodeDetail),
        AppCommand::InvestigateJob => (s, AppAction::InvestigateJob),
        AppCommand::InvestigateNode => (s, AppAction::InvestigateNode),
        AppCommand::OpenJobInfo => (s, AppAction::OpenJobInfo),
        AppCommand::YankJobs => (s, AppAction::YankJobs),
        AppCommand::YankNodes => (s, AppAction::YankNodes),
        AppCommand::CopyPane => (s, AppAction::CopyPane),
        AppCommand::OpenBulkActions => if s.jobs_selected > 0 {
            (s, AppAction::OpenBulkActions)
        } else {
            (s, AppAction::ReportNoJobsSelected)
        },
        AppCommand::ToView => (s, AppAction::ToView),
    }
}

/// Take one key at the application level: the new state and what to do.
pub fn app_step(s: &AppState, k: KeyPress) -> (r: (AppState, AppAction))
    ensures
        r == app_step_spec(*s, k),
{
    let s = *s;
    match app_command(s.tab, k, s.jobs_visual, s.nodes_visual) {
        AppCommand::Quit => (AppState { should_quit: true, ..s }, AppAction::Nothing),
        AppCommand::SwitchTab(t) => (AppState { tab: t, refresh_current: true, ..s }, AppAction::Nothing),
        AppCommand::Refresh => (
            AppState { refresh_all: true, refresh_current: true, ..s },
            AppAction::Nothing,
        ),
        AppCommand::ToggleColumns => (s, AppAction::ToggleColumns),
        AppCommand::ColumnsUnavailable => (s, AppAction::ReportColumnsUnavailable),
        AppCommand::ShowKeybindings => (s, AppAction::ShowKeybindings),
        AppCommand::OpenJobActions => (s, AppAction::OpenJobActions),
        AppCommand::OpenNodeDetail => (s, AppAction::OpenNodeDetail),
        AppCommand::InvestigateJob => (s, AppAction::InvestigateJob),
        AppCommand::InvestigateNode => (s, AppAction::InvestigateNode),
        AppCommand::OpenJobInfo => (s, AppAction::OpenJobInfo),
        AppCommand::YankJobs => (s, AppAction::YankJobs),
        AppCommand::YankNodes => (s, AppAction::YankNodes),
        AppCommand::CopyPane => (s, AppAction::CopyPane),
        AppCommand::OpenBulkActions => if s.jobs_selected > 0 {
            (s, AppAction::OpenBulkActions)
        } else {
            (s, AppAction::ReportNoJobsSelected)
        },
        AppCommand::ToView => (s, AppAction::ToView),
    }
}

} // verus!
