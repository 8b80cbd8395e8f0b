use sqtop::app::Tab;

#[test]
fn tab_titles() {
    assert_eq!(Tab::Jobs.title(), "Jobs");
    assert_eq!(Tab::Nodes.title(), "Nodes");
    assert_eq!(Tab::Partitions.title(), "Partitions");
    assert_eq!(Tab::History.title(), "History");
    assert_eq!(Tab::Health.title(), "Health");
}

#[test]
fn tab_all() {
    let all = Tab::all();
    assert_eq!(all.len(), 5);
    assert_eq!(all[0], Tab::Jobs);
    assert_eq!(all[1], Tab::Nodes);
    assert_eq!(all[2], Tab::Partitions);
    assert_eq!(all[3], Tab::History);
    assert_eq!(all[4], Tab::Health);
}

// ── Confirmation decisions ──────────────────────────────────────────────

use sqtop::app::{
    bulk_needs_confirmation, bulk_status, cancel_needs_confirmation, cancel_status,
    execute_pending_action, plan_bulk_action, plan_job_action, ActionPlan, PendingAction,
};
use sqtop::config::{SafetyConfig, UiConfig};
use sqtop::slurm::exec::{run_bulk_job_action, run_job_action, CommandSource};
use sqtop::slurm::model::ActionResult;
use std::cell::RefCell;

fn settings(expert_mode: bool, confirm_cancel_single: bool, confirm_bulk_actions: bool) -> (UiConfig, SafetyConfig) {
    let mut ui = UiConfig::default();
    ui.expert_mode = expert_mode;
    let mut safety = SafetyConfig::default();
    safety.confirm_cancel_single = confirm_cancel_single;
    safety.confirm_bulk_actions = confirm_bulk_actions;
    (ui, safety)
}

#[test]
fn test_expert_mode_skips_cancel_confirmation() {
    let (ui, safety) = settings(true, true, true);
    assert!(ui.expert_mode);
    assert!(!cancel_needs_confirmation(&ui, &safety), "Expert mode should skip confirmation");
}

#[test]
fn test_confirm_cancel_single_flag_enables_confirmation() {
    let (ui, safety) = settings(false, true, true);
    assert!(
        cancel_needs_confirmation(&ui, &safety),
        "Should require confirmation when expert_mode=false and confirm_cancel_single=true"
    );
}

#[test]
fn test_confirm_cancel_single_disabled_skips_confirmation() {
    let (ui, safety) = settings(false, false, true);
    assert!(
        !cancel_needs_confirmation(&ui, &safety),
        "Should skip confirmation when confirm_cancel_single=false"
    );
}

#[test]
fn test_bulk_cancel_always_needs_confirmation_unless_expert() {
    let (ui, safety) = settings(false, true, false);
    assert!(
        bulk_needs_confirmation("cancel", &ui, &safety),
        "Bulk cancel should need confirmation even when confirm_bulk_actions=false"
    );
}

#[test]
fn test_bulk_non_cancel_respects_confirm_bulk_actions() {
    let (ui, safety) = settings(false, true, false);
    assert!(
        !bulk_needs_confirmation("hold", &ui, &safety),
        "Bulk hold should skip confirmation when confirm_bulk_actions=false"
    );
}

#[test]
fn plan_cancel_asks_with_the_job_in_the_prompt() {
    let (ui, safety) = settings(false, true, true);
    match plan_job_action("42".to_string(), "cancel", &ui, &safety) {
        ActionPlan::Confirm { pending, prompt } => {
            assert_eq!(pending, PendingAction::CancelJob("42".to_string()));
            assert_eq!(prompt, "Cancel job 42?");
        }
        other => panic!("unexpected plan {:?}", other),
    }
    let (ui, safety) = settings(true, true, true);
    assert_eq!(
        plan_job_action("42".to_string(), "cancel", &ui, &safety),
        ActionPlan::Run(PendingAction::CancelJob("42".to_string()))
    );
}

#[test]
fn plan_other_single_action_only_reports() {
    let (ui, safety) = settings(false, true, true);
    assert_eq!(
        plan_job_action("42".to_string(), "hold", &ui, &safety),
        ActionPlan::Status("Action 'hold' not yet implemented".to_string())
    );
}

#[test]
fn plan_bulk_counts_jobs_in_the_prompt() {
    let (ui, safety) = settings(false, true, true);
    let ids = vec!["1".to_string(), "2".to_string(), "3".to_string()];
    match plan_bulk_action("hold", ids.clone(), &ui, &safety) {
        ActionPlan::Confirm { pending, prompt } => {
            assert_eq!(pending, PendingAction::BulkAction { action: "hold".to_string(), job_ids: ids.clone() });
            assert_eq!(prompt, "hold 3 job(s)?");
        }
        other => panic!("unexpected plan {:?}", other),
    }
    let (ui, safety) = settings(true, true, true);
    assert_eq!(
        plan_bulk_action("cancel", ids.clone(), &ui, &safety),
        ActionPlan::Run(PendingAction::BulkAction { action: "cancel".to_string(), job_ids: ids })
    );
}

#[test]
fn status_lines_after_actions() {
    assert_eq!(cancel_status("7", true, ""), "Cancelled job 7");
    assert_eq!(cancel_status("7", false, "Permission denied"), "Cancel failed: Permission denied");
    let result = |id: &str, ok: bool| ActionResult {
        job_id: id.to_string(),
        action: "hold".to_string(),
        ok,
        message: String::new(),
    };
    assert_eq!(bulk_status("hold", &[result("1", true), result("2", true)]), "HOLD 2 job(s)");
    assert_eq!(bulk_status("hold", &[result("1", true), result("2", false)]), "HOLD 1/2 job(s)");
    assert_eq!(bulk_status("cancel", &[]), "CANCEL 0 job(s)");
}

struct Recorder {
    commands: RefCell<Vec<String>>,
}

impl CommandSource for Recorder {
    fn run_result(&mut self, cmd: &str) -> (String, bool, String) {
        self.commands.borrow_mut().push(cmd.to_string());
        if cmd.ends_with("'2'") || cmd.ends_with(" 2") {
            (String::new(), false, "Invalid job id specified".to_string())
        } else {
            (String::new(), true, String::new())
        }
    }
}

#[test]
fn executing_a_confirmed_action_runs_its_commands() {
    let mut source = Recorder { commands: RefCell::new(Vec::new()) };
    let status = execute_pending_action(&mut source, PendingAction::CancelJob("5".to_string()));
    assert_eq!(status, "Cancelled job 5");
    let status = execute_pending_action(
        &mut source,
        PendingAction::BulkAction { action: "hold".to_string(), job_ids: vec!["1".to_string(), "2".to_string()] },
    );
    assert_eq!(status, "HOLD 1/2 job(s)");
    assert_eq!(source.commands.borrow().len(), 3);
    assert!(source.commands.borrow()[0].starts_with("scancel "));
    assert!(source.commands.borrow()[1].starts_with("scontrol hold "));
}

#[test]
fn each_job_action_runs_its_command_once() {
    let mut source = Recorder { commands: RefCell::new(Vec::new()) };
    let r = run_job_action(&mut source, "noop", "7");
    assert!(!r.ok);
    assert!(source.commands.borrow().is_empty());
    let r = run_job_action(&mut source, "Cancel", "it's");
    assert!(r.ok);
    assert_eq!(r.message, "ok");
    assert_eq!(*source.commands.borrow(), vec!["scancel 'it'\\''s'".to_string()]);
    let ids = vec!["3".to_string(), "1".to_string(), "2".to_string()];
    let results = run_bulk_job_action(&mut source, "release", &ids);
    assert_eq!(results.len(), 3);
    assert_eq!(
        source.commands.borrow()[1..].to_vec(),
        vec![
            "scontrol release 3".to_string(),
            "scontrol release 1".to_string(),
            "scontrol release 2".to_string(),
        ]
    );
}

// ── Application keys ────────────────────────────────────────────────────

use sqtop::app::{app_command, copied_rows_status, AppCommand};
use sqtop::views::keys::{Key, KeyPress};

#[test]
fn quit_keys() {
    assert_eq!(app_command(Tab::Jobs, KeyPress::plain(Key::Char('q')), false, false), AppCommand::Quit);
    assert_eq!(
        app_command(Tab::Jobs, KeyPress::with_control(Key::Char('c')), false, false),
        AppCommand::Quit
    );
}

#[test]
fn tab_switch_keys() {
    assert_eq!(
        app_command(Tab::Jobs, KeyPress::plain(Key::Char('2')), false, false),
        AppCommand::SwitchTab(Tab::Nodes)
    );
    assert_eq!(
        app_command(Tab::Nodes, KeyPress::plain(Key::Char('3')), false, false),
        AppCommand::SwitchTab(Tab::Partitions)
    );
    assert_eq!(
        app_command(Tab::Partitions, KeyPress::plain(Key::Char('1')), false, false),
        AppCommand::SwitchTab(Tab::Jobs)
    );
}

#[test]
fn app_keys_depend_on_the_tab_and_selection() {
    let plain = |c: char| KeyPress::plain(Key::Char(c));
    assert_eq!(app_command(Tab::Jobs, KeyPress::plain(Key::Enter), false, false), AppCommand::OpenJobActions);
    assert_eq!(app_command(Tab::Nodes, KeyPress::plain(Key::Enter), false, false), AppCommand::OpenNodeDetail);
    assert_eq!(app_command(Tab::History, KeyPress::plain(Key::Enter), false, false), AppCommand::ToView);
    assert_eq!(app_command(Tab::Jobs, plain('I'), false, false), AppCommand::InvestigateJob);
    assert_eq!(app_command(Tab::Nodes, plain('I'), false, false), AppCommand::InvestigateNode);
    assert_eq!(app_command(Tab::Jobs, plain('i'), false, false), AppCommand::OpenJobInfo);
    assert_eq!(app_command(Tab::Jobs, plain('C'), false, false), AppCommand::ToggleColumns);
    assert_eq!(app_command(Tab::Health, plain('C'), false, false), AppCommand::ColumnsUnavailable);
    assert_eq!(app_command(Tab::Jobs, plain('y'), true, false), AppCommand::YankJobs);
    assert_eq!(app_command(Tab::Jobs, plain('y'), false, false), AppCommand::ToView);
    assert_eq!(app_command(Tab::Nodes, plain('y'), false, true), AppCommand::YankNodes);
    assert_eq!(
        app_command(Tab::Jobs, KeyPress::with_control(Key::Char('Y')), false, false),
        AppCommand::CopyPane
    );
    assert_eq!(app_command(Tab::Jobs, plain('B'), false, false), AppCommand::OpenBulkActions);
    assert_eq!(app_command(Tab::Jobs, plain('r'), false, false), AppCommand::Refresh);
    assert_eq!(app_command(Tab::Jobs, plain('?'), false, false), AppCommand::ShowKeybindings);
    assert_eq!(app_command(Tab::Jobs, plain('s'), false, false), AppCommand::ToView);
    assert_eq!(app_command(Tab::Jobs, KeyPress::with_control(Key::Char('q')), false, false), AppCommand::ToView);
}

#[test]
fn copied_rows_status_counts_rows() {
    assert_eq!(copied_rows_status(1), "Copied 1 row");
    assert_eq!(copied_rows_status(3), "Copied 3 rows");
    assert_eq!(copied_rows_status(0), "Copied 0 rows");
}

// ── Application step and menus ──────────────────────────────────────────

use sqtop::app::{app_step, AppAction, AppState};
use sqtop::views::modals::menu::{bulk_actions_menu, job_actions_menu, BulkAction, JobAction};
use sqtop::views::modals::ModalOutcome;

fn app_state(tab: Tab, selected: usize) -> AppState {
    AppState {
        tab,
        jobs_visual: false,
        nodes_visual: false,
        jobs_selected: selected,
        should_quit: false,
        refresh_all: false,
        refresh_current: false,
    }
}

#[test]
fn app_step_quits_switches_and_refreshes() {
    let s = app_state(Tab::Jobs, 0);
    let (q, a) = app_step(&s, KeyPress::plain(Key::Char('q')));
    assert!(q.should_quit);
    assert_eq!(a, AppAction::Nothing);
    let (t, _) = app_step(&s, KeyPress::plain(Key::Char('3')));
    assert_eq!(t.tab, Tab::Partitions);
    assert!(t.refresh_current);
    assert!(!t.refresh_all);
    let (r, _) = app_step(&s, KeyPress::plain(Key::Char('r')));
    assert!(r.refresh_all);
    assert_eq!(app_step(&s, KeyPress::plain(Key::Enter)).1, AppAction::OpenJobActions);
    assert_eq!(app_step(&s, KeyPress::plain(Key::Char('B'))).1, AppAction::ReportNoJobsSelected);
    let s2 = app_state(Tab::Jobs, 2);
    assert_eq!(app_step(&s2, KeyPress::plain(Key::Char('B'))).1, AppAction::OpenBulkActions);
    assert_eq!(app_step(&s2, KeyPress::plain(Key::Char('j'))), (s2, AppAction::ToView));
}

#[test]
fn action_menus_move_choose_and_close() {
    let mut m = job_actions_menu();
    assert_eq!(m.handle_key(KeyPress::plain(Key::Enter)), ModalOutcome::Dismiss(Some(JobAction::Cancel)));
    m.handle_key(KeyPress::plain(Key::Up));
    assert_eq!(m.handle_key(KeyPress::plain(Key::Enter)), ModalOutcome::Dismiss(Some(JobAction::ArrayTasks)));
    let mut b = bulk_actions_menu();
    assert_eq!(b.handle_key(KeyPress::plain(Key::Char('j'))), ModalOutcome::Continue);
    assert_eq!(b.handle_key(KeyPress::plain(Key::Enter)), ModalOutcome::Dismiss(Some(BulkAction::Hold)));
    assert_eq!(BulkAction::Hold.word(), "hold");
    assert_eq!(b.handle_key(KeyPress::plain(Key::Esc)), ModalOutcome::Dismiss(None));
}
