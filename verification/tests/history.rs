use sqtop::slurm::model::SacctJob;
use sqtop::views::history::HistoryView;
use sqtop::views::tint::Tint;

fn make_job(job_id: &str, state: &str, user: &str) -> SacctJob {
    SacctJob {
        job_id: job_id.to_string(),
        name: "test-job".to_string(),
        user: user.to_string(),
        state: state.to_string(),
        num_cpus: "4".to_string(),
        elapsed: "01:00:00".to_string(),
        exit_code: "0:0".to_string(),
        partition: "gpu".to_string(),
    }
}

#[test]
fn test_history_view_creation() {
    let view = HistoryView::new();
    assert!(!view.filter_mine);
    assert_eq!(view.hours, 24);
    assert!(view.last_jobs.is_empty());
}

#[test]
fn test_toggle_mine_filter() {
    let mut view = HistoryView::new();
    let jobs = vec![
        make_job("1", "COMPLETED", "alice"),
        make_job("2", "FAILED", "bob"),
        make_job("3", "COMPLETED", "alice"),
    ];

    view.update(jobs, "alice");
    assert_eq!(view.last_jobs.len(), 3);

    view.toggle_mine("alice");
    assert!(view.filter_mine);
    assert_eq!(view.last_jobs.len(), 2);
    assert_eq!(view.last_jobs[0].job_id, "1");
    assert_eq!(view.last_jobs[1].job_id, "3");

    view.toggle_mine("alice");
    assert!(!view.filter_mine);
    assert_eq!(view.last_jobs.len(), 3);
}

#[test]
fn test_history_preserves_cursor_on_update() {
    let mut view = HistoryView::new();
    let jobs = vec![
        make_job("100", "COMPLETED", "alice"),
        make_job("101", "COMPLETED", "alice"),
        make_job("102", "COMPLETED", "bob"),
    ];

    // First update
    let (old_selected, anchor) = view.update(jobs.clone(), "alice");
    view.restore_state(old_selected, anchor);
    view.table_state.select(Some(1));

    // Second update with same data - cursor should stay on job 101
    let (old_selected, anchor) = view.update(jobs, "alice");
    view.restore_state(old_selected, anchor);

    assert_eq!(view.table_state.selected(), Some(1));
}

#[test]
fn test_state_colors() {
    assert_eq!(HistoryView::state_color("COMPLETED"), Tint::DarkGray);
    assert_eq!(HistoryView::state_color("FAILED"), Tint::Red);
    assert_eq!(HistoryView::state_color("CANCELLED"), Tint::Yellow);
    assert_eq!(HistoryView::state_color("TIMEOUT"), Tint::Magenta);
    assert_eq!(HistoryView::state_color("UNKNOWN"), Tint::White);
}

#[test]
fn test_exit_colors() {
    assert_eq!(HistoryView::exit_color("0:0"), Tint::Green);
    assert_eq!(HistoryView::exit_color("1:0"), Tint::Red);
    assert_eq!(HistoryView::exit_color("0:1"), Tint::Red);
}

#[test]
fn test_cell_value() {
    let job = make_job("123", "COMPLETED", "alice");
    assert_eq!(HistoryView::cell_value(&job, "JOBID"), "123");
    assert_eq!(HistoryView::cell_value(&job, "STATE"), "COMPLETED");
    assert_eq!(HistoryView::cell_value(&job, "USER"), "alice");
    assert_eq!(HistoryView::cell_value(&job, "UNKNOWN"), "");
}

#[test]
fn test_truncate_cell() {
    assert_eq!(HistoryView::truncate_cell("short", 10), "short");
    assert_eq!(HistoryView::truncate_cell("exactly10c", 10), "exactly10c");
    assert_eq!(HistoryView::truncate_cell("toolongvalue", 8), "toolong…");
    assert_eq!(HistoryView::truncate_cell("abc", 2), "a…");
}

#[test]
fn test_restore_state_with_anchor() {
    let mut view = HistoryView::new();
    let jobs = vec![
        make_job("1", "COMPLETED", "alice"),
        make_job("2", "FAILED", "bob"),
        make_job("3", "COMPLETED", "alice"),
    ];

    view.update(jobs.clone(), "alice");
    view.table_state.select(Some(1));
    view.table_state.set_row_count(3);

    // Simulate refresh with same data but reordered
    let new_jobs = vec![
        make_job("3", "COMPLETED", "alice"),
        make_job("2", "FAILED", "bob"),
        make_job("1", "COMPLETED", "alice"),
    ];
    view.last_jobs = new_jobs;

    view.restore_state(Some(1), Some("2".to_string()));
    assert_eq!(view.table_state.selected(), Some(1));
}

#[test]
fn test_restore_state_empty() {
    let mut view = HistoryView::new();
    view.restore_state(Some(0), None);
    assert_eq!(view.table_state.selected(), None);
}

#[test]
fn test_column_rebuild() {
    let mut view = HistoryView::new();
    assert!(view.rebuild_columns(80, true));
    assert!(!view.current_cols.is_empty());

    // No change on same width
    assert!(!view.rebuild_columns(80, false));

    // Change on different width
    assert!(view.rebuild_columns(120, false));
}


#[test]
fn history_refresh_keeps_cursor_on_its_job() {
    let mut view = HistoryView::new();
    let (sel, anchor) = view.update(
        vec![make_job("1", "COMPLETED", "alice"), make_job("2", "FAILED", "alice")],
        "alice",
    );
    view.restore_state(sel, anchor);
    view.table_state.select(Some(1));
    let (sel, anchor) = view.update(
        vec![
            make_job("7", "COMPLETED", "alice"),
            make_job("1", "COMPLETED", "alice"),
            make_job("2", "FAILED", "alice"),
        ],
        "alice",
    );
    view.restore_state(sel, anchor);
    assert_eq!(view.table_state.selected(), Some(2));
    assert_eq!(view.last_jobs[2].job_id, "2");
}
