use sqtop::slurm::parse::parse_slurm_duration;
use sqtop::slurm::exec::classify_error;
use sqtop::views::visual::VisualSelection;
use sqtop::columns::jobs_columns;
use sqtop::investigation::explain_node_state;
use sqtop::responsive::{allocate_columns, at_least, tier_for, CHROME_OVERHEAD};
use sqtop::responsive::truncate_cell;
use sqtop::views::health::truncate_stderr;
use sqtop::views::jobs::{job_cell_text, jobs_title};
use sqtop::views::keys::{Key, KeyPress};
use sqtop::columns::{move_in_order, reconcile_order};
use sqtop::config::{SafetyConfig, UiConfig};
use sqtop::investigation::ReasonTable;
use sqtop::slurm::model::Job;
use sqtop::views::jobs::{format_duration, sort_jobs_exec, time_left, JobsView};
use sqtop::views::modals::palette::{build_commands, build_filtered};
use sqtop::views::table_state::CyclicTableState;
use sqtop::views::tint::Tint;

fn job(id: &str, state: &str, used: &str, limit: &str) -> Job {
    Job {
        job_id: id.to_string(),
        name: format!("job{}", id),
        user: "alice".to_string(),
        state: state.to_string(),
        partition: "compute".to_string(),
        nodes: "1".to_string(),
        num_nodes: "1".to_string(),
        num_cpus: "4".to_string(),
        time_used: used.to_string(),
        time_limit: limit.to_string(),
        reason: "".to_string(),
        nodelist: "".to_string(),
        qos: "normal".to_string(),
    }
}

fn strings(v: &[&str]) -> Vec<String> {
    v.iter().map(|s| s.to_string()).collect()
}

#[test]
fn default_sort_orders_by_state_then_id_and_keeps_every_job() {
    let jobs = vec![
        job("30", "PENDING", "0:00", "1:00:00"),
        job("7", "RUNNING", "0:10", "1:00:00"),
        job("12", "COMPLETING", "0:10", "1:00:00"),
        job("3", "PENDING", "0:00", "1:00:00"),
        job("9", "FAILED", "0:00", "1:00:00"),
        job("5", "RUNNING", "0:10", "1:00:00"),
    ];
    let sorted = sort_jobs_exec(&jobs, &None, false);
    let ids: Vec<&str> = sorted.iter().map(|j| j.job_id.as_str()).collect();
    assert_eq!(ids, vec!["12", "5", "7", "3", "30", "9"]);
    let mut before: Vec<&str> = jobs.iter().map(|j| j.job_id.as_str()).collect();
    let mut after = ids.clone();
    before.sort();
    after.sort();
    assert_eq!(before, after);
}

#[test]
fn reversed_sort_by_column_is_a_permutation() {
    let jobs = vec![
        job("1", "RUNNING", "0:10", "1:00:00"),
        job("2", "PENDING", "0:00", "2:00:00"),
        job("3", "RUNNING", "0:10", "3:00:00"),
    ];
    let sorted = sort_jobs_exec(&jobs, &Some("STATE".to_string()), false);
    let ids: Vec<&str> = sorted.iter().map(|j| j.job_id.as_str()).collect();
    assert_eq!(ids, vec!["2", "1", "3"]);
    let sorted = sort_jobs_exec(&jobs, &Some("STATE".to_string()), true);
    let ids: Vec<&str> = sorted.iter().map(|j| j.job_id.as_str()).collect();
    assert_eq!(ids, vec!["3", "1", "2"]);
    // A column the table does not sort by keeps the incoming order.
    let sorted = sort_jobs_exec(&jobs, &Some("NAME".to_string()), true);
    let ids: Vec<&str> = sorted.iter().map(|j| j.job_id.as_str()).collect();
    assert_eq!(ids, vec!["1", "2", "3"]);
}

#[test]
fn shift_right_then_left_restores_order() {
    let mut view = JobsView::new();
    view.column_order = strings(&["A", "B", "C", "D"]);
    for name in ["A", "B", "C", "D"] {
        view.column_widths.insert(name.to_string(), 8);
    }
    view.reorder_target_idx = 1;
    view.shift_column_right();
    assert_eq!(view.column_order, strings(&["A", "C", "B", "D"]));
    view.shift_column_left();
    assert_eq!(view.column_order, strings(&["A", "B", "C", "D"]));
    assert_eq!(view.reorder_target_idx, 1);
}

#[test]
fn reconcile_keeps_saved_then_appends_new_without_duplicates() {
    let saved = strings(&["C", "X", "A", "C"]);
    let default = strings(&["A", "B", "C"]);
    let r = reconcile_order(&saved, &default);
    assert_eq!(r, strings(&["C", "A", "B"]));
    assert!(r.len() <= 2 * default.len());
}

#[test]
fn move_in_order_is_a_permutation() {
    let order = strings(&["A", "B", "C", "D"]);
    let r = move_in_order(&order, "D", Some("B"));
    assert_eq!(r, strings(&["A", "D", "B", "C"]));
    let r2 = move_in_order(&order, "A", None);
    assert_eq!(r2, strings(&["B", "C", "D", "A"]));
}

#[test]
fn palette_filter_lists_exactly_the_matching_commands() {
    let cmds = build_commands(&UiConfig::default(), &SafetyConfig::default());
    let shown = build_filtered(&cmds, "");
    let expected: Vec<usize> = (0..cmds.len()).filter(|&i| cmds[i].discover).collect();
    assert_eq!(shown, expected);
    let shown = build_filtered(&cmds, "REFRESH");
    let expected: Vec<usize> = (0..cmds.len())
        .filter(|&i| cmds[i].title.to_lowercase().contains("refresh"))
        .collect();
    assert!(!expected.is_empty());
    assert_eq!(shown, expected);
    assert!(build_filtered(&cmds, "no such command at all").is_empty());
}

#[test]
fn reason_file_entries_become_user_reasons() {
    let content = "[FooReason]\ntitle = \"Foo title\"\ndetail = \"Foo detail\"\nconfidence = \"medium\"\n\n[BadConfidence]\ntitle = \"t\"\ndetail = \"d\"\nconfidence = \"sure\"\n";
    let (table, errors) = ReasonTable::from_reason_file(content);
    assert!(errors.is_empty());
    let exp = table.explain_pending_reason(Some("FooReason"));
    assert_eq!(exp.title, "Foo title");
    assert_eq!(exp.detail, "Foo detail");
    assert_eq!(exp.confidence, "medium");
    let bad = table.explain_pending_reason(Some("BadConfidence"));
    assert_ne!(bad.title, "t");
}

#[test]
fn reason_file_that_is_not_toml_gives_no_reasons() {
    let (table, errors) = ReasonTable::from_reason_file("this is [ not toml");
    assert!(errors.is_empty());
    let exp = table.explain_pending_reason(Some("FooReason"));
    assert!(exp.title.to_lowercase().contains("unrecognized"));
}

#[test]
fn time_left_colour_thresholds() {
    // 31 of 60 minutes left: more than half.
    let (text, tint) = time_left(&job("1", "RUNNING", "29:00", "1:00:00"));
    assert_eq!(text, "00:31:00");
    assert_eq!(tint, Tint::Green);
    // exactly half left: not green.
    let (_, tint) = time_left(&job("1", "RUNNING", "30:00", "1:00:00"));
    assert_eq!(tint, Tint::Yellow);
    // exactly a tenth left: still yellow.
    let (_, tint) = time_left(&job("1", "RUNNING", "54:00", "1:00:00"));
    assert_eq!(tint, Tint::Yellow);
    // less than a tenth left: red.
    let (_, tint) = time_left(&job("1", "RUNNING", "54:01", "1:00:00"));
    assert_eq!(tint, Tint::Red);
}

#[test]
fn format_duration_exact_values() {
    assert_eq!(format_duration(-5), "\u{2014}");
    assert_eq!(format_duration(0), "00:00:00");
    assert_eq!(format_duration(59), "00:00:59");
    assert_eq!(format_duration(61), "00:01:01");
    assert_eq!(format_duration(3600), "01:00:00");
    assert_eq!(format_duration(90061), "1-01:01:01");
}

#[test]
fn refresh_keeps_cursor_on_its_job() {
    let mut view = JobsView::new();
    let first = vec![
        job("1", "RUNNING", "0:10", "1:00:00"),
        job("2", "RUNNING", "0:10", "1:00:00"),
        job("3", "RUNNING", "0:10", "1:00:00"),
    ];
    let captured = view.update(first, "alice");
    view.restore_state(captured);
    view.table_state.select(Some(1));
    assert_eq!(view.selected_job().map(|j| j.job_id.clone()), Some("2".to_string()));
    // A completing job sorts first, so job 2 moves down a row.
    let second = vec![
        job("1", "RUNNING", "0:10", "1:00:00"),
        job("2", "RUNNING", "0:10", "1:00:00"),
        job("3", "RUNNING", "0:10", "1:00:00"),
        job("9", "COMPLETING", "0:10", "1:00:00"),
    ];
    let captured = view.update(second, "alice");
    view.restore_state(captured);
    assert_eq!(view.cursor_row(), 2);
    assert_eq!(view.selected_job().map(|j| j.job_id.clone()), Some("2".to_string()));
}

#[test]
fn cursor_moves_wrap_and_undo() {
    let mut t = CyclicTableState::new();
    t.set_row_count(3);
    t.select(Some(2));
    t.next();
    assert_eq!(t.selected(), Some(0));
    t.prev();
    assert_eq!(t.selected(), Some(2));
    t.select(Some(0));
    t.prev();
    assert_eq!(t.selected(), Some(2));
    t.next();
    assert_eq!(t.selected(), Some(0));
    t.select(Some(1));
    t.next();
    t.prev();
    assert_eq!(t.selected(), Some(1));
    assert_eq!(t.row_count(), 3);
}

#[test]
fn key_s_sorts_by_state() {
    let mut view = JobsView::new();
    assert!(view.handle_key(KeyPress::plain(Key::Char('s'))));
    assert_eq!(view.sort_col, Some("STATE".to_string()));
    assert!(!view.sort_reversed);
    assert!(view.handle_key(KeyPress::plain(Key::Char('s'))));
    assert!(view.sort_reversed);
}

#[test]
fn qos_column_is_eligible_from_width_90() {
    let qos = jobs_columns().into_iter().find(|c| c.name == "QOS").unwrap();
    for w in [90u16, 100, 110, 200] {
        assert!(at_least(qos.min_tier, w) && qos.min_terminal_width <= w);
    }
    for w in [80u16, 85, 89] {
        assert!(qos.min_terminal_width > w);
    }
    let cols = jobs_columns();
    let shown = |terminal: u16| {
        allocate_columns(terminal - CHROME_OVERHEAD, &cols, tier_for(terminal))
            .iter()
            .any(|(name, _)| name == "QOS")
    };
    assert!(!shown(89));
    assert!(shown(500));
}

#[test]
fn truncation_counts_characters() {
    let e25 = "é".repeat(25);
    assert_eq!(truncate_stderr(&e25), e25);
    let a41 = "a".repeat(41);
    assert_eq!(truncate_stderr(&a41), format!("{}...", "a".repeat(40)));
    assert_eq!(truncate_stderr(&"a".repeat(40)), "a".repeat(40));
    let e41 = "é".repeat(41);
    assert_eq!(truncate_stderr(&e41), format!("{}...", "é".repeat(40)));
    assert_eq!(truncate_cell("éé", 3), "éé");
    assert_eq!(truncate_cell("éééé", 3), "éé…");
    assert_eq!(truncate_cell("hello world", 5), "hell…");
    assert_eq!(truncate_cell("abc", 1), "");
}

#[test]
fn trailing_plus_is_a_decoration() {
    let d = explain_node_state("drain+");
    assert_eq!(d, explain_node_state("DRAIN"));
    assert_eq!(d.confidence, "high");
    assert_eq!(explain_node_state("idle+drain").confidence, "medium");
}

#[test]
fn job_cells_and_title() {
    let mut j = job("42", "PENDING", "0:00", "1:00:00");
    j.name = "a-very-long-training-run".to_string();
    j.reason = "Resources".to_string();
    j.nodelist = String::new();
    assert_eq!(job_cell_text(&j, "NAME", 10), "a-very-...");
    assert_eq!(job_cell_text(&j, "JOBID", 2), "42");
    assert_eq!(job_cell_text(&j, "NODELIST(REASON)", 20), "Resources");
    assert_eq!(job_cell_text(&j, "TIME_LEFT", 20), "01:00:00");
    assert_eq!(job_cell_text(&j, "NOPE", 20), "");
    assert_eq!(jobs_title(false, "alice", ""), "Jobs");
    assert_eq!(jobs_title(true, "alice", "gpu"), "Jobs · (mine: alice) · \"gpu\"");
}

#[test]
fn error_categories_ignore_ascii_case() {
    for code in [None, Some(1), Some(0), Some(127)] {
        let s = "scancel: error: Permission Denied";
        assert_eq!(classify_error(code, s), classify_error(code, &s.to_ascii_uppercase()));
        assert_eq!(classify_error(code, s), classify_error(code, &s.to_ascii_lowercase()));
        assert_eq!(classify_error(code, s).is_none(), code == Some(0));
    }
}

#[test]
fn active_selection_keeps_its_anchor() {
    let mut v = VisualSelection::new();
    v.enter(3);
    v.move_cursor(5, 10, 3);
    v.set_cursor(1);
    v.move_cursor_to(20, 10);
    assert!(v.is_active());
    assert_eq!(v.anchor(), Some(3));
    assert_eq!(v.cursor(), Some(9));
    v.exit();
    assert!(!v.is_active());
}

#[test]
fn formatted_durations_parse_back() {
    for n in [0i64, 59, 61, 3599, 3600, 86399, 86400, 90061, 1_000_000, 987_654_321] {
        let text = format_duration(n);
        assert_eq!(parse_slurm_duration(&text), Some(n as u64), "{}", text);
    }
}

#[test]
fn classification_ignores_case_beyond_ascii() {
    for s in ["Permission Denied — Über", "ΣΥΣΤΗΜΑ timeout Σ", "Invalid Job id: ÄÖÜ"] {
        for code in [None, Some(1), Some(0), Some(127)] {
            let r = classify_error(code, s);
            assert_eq!(classify_error(code, &s.to_ascii_uppercase()), r);
            assert_eq!(classify_error(code, &s.to_ascii_lowercase()), r);
            assert_eq!(r.is_none(), code == Some(0));
        }
    }
}
