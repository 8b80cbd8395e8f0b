use sqtop::config::{ColumnsConfig, ViewStateConfig};
use sqtop::slurm::model::Job;
use sqtop::views::jobs::{format_duration, job_matches_search, time_left, truncate, JobsView};
use sqtop::views::keys::{Key, KeyPress};
use sqtop::views::tint::Tint;
use sqtop::views::visual::yank_tsv;
use std::collections::BTreeSet;

#[allow(clippy::too_many_arguments)]
fn make_job(
    job_id: &str,
    name: &str,
    user: &str,
    state: &str,
    partition: &str,
    reason: &str,
    nodelist: &str,
    qos: &str,
) -> Job {
    Job {
        job_id: job_id.to_string(),
        name: name.to_string(),
        user: user.to_string(),
        state: state.to_string(),
        partition: partition.to_string(),
        nodes: "1".to_string(),
        num_nodes: "1".to_string(),
        num_cpus: "8".to_string(),
        time_used: "00:02:10".to_string(),
        time_limit: "01:00:00".to_string(),
        reason: reason.to_string(),
        nodelist: nodelist.to_string(),
        qos: qos.to_string(),
    }
}

#[test]
fn test_job_matches_search_empty_query() {
    let job = make_job(
        "12345", "training", "alice", "RUNNING", "compute", "", "node001", "normal",
    );
    assert!(job_matches_search(&job, ""));
}

#[test]
fn test_job_matches_search_name() {
    let job = make_job(
        "12345",
        "training-run",
        "alice",
        "RUNNING",
        "compute",
        "",
        "node001",
        "normal",
    );
    assert!(job_matches_search(&job, "training"));
    assert!(job_matches_search(&job, "TRAINING"));
    assert!(!job_matches_search(&job, "xyz"));
}

#[test]
fn test_job_matches_search_state() {
    let job = make_job(
        "12345", "training", "alice", "RUNNING", "compute", "", "node001", "normal",
    );
    assert!(job_matches_search(&job, "running"));
    assert!(job_matches_search(&job, "RUN"));
}

#[test]
fn test_job_matches_search_user() {
    let job = make_job(
        "12345", "training", "alice", "RUNNING", "compute", "", "node001", "normal",
    );
    assert!(job_matches_search(&job, "alice"));
    assert!(job_matches_search(&job, "ALICE"));
}

#[test]
fn test_job_matches_search_partition() {
    let job = make_job(
        "12345", "training", "alice", "RUNNING", "compute", "", "node001", "normal",
    );
    assert!(job_matches_search(&job, "compute"));
    assert!(job_matches_search(&job, "COMP"));
}

#[test]
fn test_job_matches_search_qos() {
    let job = make_job(
        "12345",
        "training",
        "alice",
        "RUNNING",
        "compute",
        "",
        "node001",
        "high-prio",
    );
    assert!(job_matches_search(&job, "high"));
    assert!(job_matches_search(&job, "PRIO"));
}

#[test]
fn test_job_matches_search_reason() {
    let job = make_job(
        "12345",
        "training",
        "alice",
        "PENDING",
        "compute",
        "Resources",
        "node001",
        "normal",
    );
    assert!(job_matches_search(&job, "resources"));
    assert!(job_matches_search(&job, "RES"));
}

#[test]
fn test_job_matches_search_nodelist() {
    let job = make_job(
        "12345", "training", "alice", "RUNNING", "compute", "", "gpu001", "normal",
    );
    assert!(job_matches_search(&job, "gpu001"));
    assert!(job_matches_search(&job, "GPU"));
}

#[test]
fn test_job_matches_search_job_id() {
    let job = make_job(
        "12345", "training", "alice", "RUNNING", "compute", "", "node001", "normal",
    );
    assert!(job_matches_search(&job, "12345"));
    assert!(job_matches_search(&job, "234"));
}

#[test]
fn test_filter_mine() {
    let jobs = vec![
        make_job("1", "job1", "alice", "RUNNING", "compute", "", "", "normal"),
        make_job("2", "job2", "bob", "RUNNING", "compute", "", "", "normal"),
        make_job("3", "job3", "alice", "PENDING", "compute", "", "", "normal"),
    ];

    let mut view = JobsView::new();
    view.filter_mine = true;
    let filtered = view.apply_filters(&jobs, "alice");

    assert_eq!(filtered.len(), 2);
    assert_eq!(filtered[0].job_id, "1");
    assert_eq!(filtered[1].job_id, "3");
}

#[test]
fn test_search_filter() {
    let jobs = vec![
        make_job(
            "1", "training", "alice", "RUNNING", "compute", "", "", "normal",
        ),
        make_job(
            "2",
            "inference",
            "bob",
            "RUNNING",
            "compute",
            "",
            "",
            "normal",
        ),
        make_job(
            "3",
            "training-v2",
            "alice",
            "PENDING",
            "compute",
            "",
            "",
            "normal",
        ),
    ];

    let mut view = JobsView::new();
    view.search_query = "training".to_string();
    let filtered = view.apply_filters(&jobs, "alice");

    assert_eq!(filtered.len(), 2);
    assert_eq!(filtered[0].job_id, "1");
    assert_eq!(filtered[1].job_id, "3");
}

#[test]
fn test_filter_pipeline_order() {
    let jobs = vec![
        make_job(
            "1", "training", "alice", "RUNNING", "compute", "", "", "normal",
        ),
        make_job(
            "2", "training", "bob", "RUNNING", "compute", "", "", "normal",
        ),
        make_job(
            "3",
            "inference",
            "alice",
            "PENDING",
            "compute",
            "",
            "",
            "normal",
        ),
    ];

    let mut view = JobsView::new();
    view.filter_mine = true;
    view.search_query = "training".to_string();
    let filtered = view.apply_filters(&jobs, "alice");

    // Should apply mine first (keeps 1, 3), then search (keeps only 1)
    assert_eq!(filtered.len(), 1);
    assert_eq!(filtered[0].job_id, "1");
}

#[test]
fn test_default_sort() {
    let jobs = vec![
        make_job("3", "job3", "alice", "PENDING", "compute", "", "", "normal"),
        make_job("1", "job1", "alice", "RUNNING", "compute", "", "", "normal"),
        make_job(
            "2",
            "job2",
            "alice",
            "COMPLETING",
            "compute",
            "",
            "",
            "normal",
        ),
    ];

    let view = JobsView::new();
    let sorted = view.apply_filters(&jobs, "alice");

    // Should sort by state priority: COMPLETING(0), RUNNING(1), PENDING(2)
    assert_eq!(sorted[0].job_id, "2"); // COMPLETING
    assert_eq!(sorted[1].job_id, "1"); // RUNNING
    assert_eq!(sorted[2].job_id, "3"); // PENDING
}

#[test]
fn test_sort_by_state() {
    let jobs = vec![
        make_job("1", "job1", "alice", "RUNNING", "compute", "", "", "normal"),
        make_job("2", "job2", "alice", "PENDING", "compute", "", "", "normal"),
        make_job("3", "job3", "alice", "FAILED", "compute", "", "", "normal"),
    ];

    let mut view = JobsView::new();
    view.toggle_sort("STATE");
    let sorted = view.apply_filters(&jobs, "alice");

    // Alphabetical: FAILED, PENDING, RUNNING
    assert_eq!(sorted[0].state, "FAILED");
    assert_eq!(sorted[1].state, "PENDING");
    assert_eq!(sorted[2].state, "RUNNING");

    // Reverse
    view.toggle_sort("STATE");
    let sorted = view.apply_filters(&jobs, "alice");
    assert_eq!(sorted[0].state, "RUNNING");
    assert_eq!(sorted[1].state, "PENDING");
    assert_eq!(sorted[2].state, "FAILED");
}

#[test]
fn test_truncate() {
    assert_eq!(truncate("hello", 10), "hello");
    assert_eq!(truncate("hello world", 8), "hello...");
    assert_eq!(truncate("hi", 1), "h");
    assert_eq!(truncate("hello", 3), "hel");
}

#[test]
fn test_capture_restore_state() {
    let jobs = vec![
        make_job("1", "job1", "alice", "RUNNING", "compute", "", "", "normal"),
        make_job("2", "job2", "alice", "PENDING", "compute", "", "", "normal"),
        make_job("3", "job3", "alice", "FAILED", "compute", "", "", "normal"),
    ];

    let mut view = JobsView::new();
    view.update(jobs.clone(), "alice");

    // Select second job
    view.table_state.select(Some(1));
    let state = view.capture_state();
    assert_eq!(state.anchor, Some("2".to_string()));

    // Update with re-sorted data
    view.toggle_sort("STATE");
    view.update(jobs, "alice");
    view.restore_state(state);

    // Cursor should track job 2
    let selected = view.selected_job();
    assert!(selected.is_some());
    assert_eq!(selected.unwrap().job_id, "2");
}

#[test]
fn test_format_duration_negative() {
    assert_eq!(format_duration(-1), "—");
    assert_eq!(format_duration(-100), "—");
}

#[test]
fn test_format_duration_zero() {
    assert_eq!(format_duration(0), "00:00:00");
}

#[test]
fn test_format_duration_seconds() {
    assert_eq!(format_duration(45), "00:00:45");
}

#[test]
fn test_format_duration_minutes_seconds() {
    assert_eq!(format_duration(125), "00:02:05");
}

#[test]
fn test_format_duration_hours_minutes_seconds() {
    assert_eq!(format_duration(3661), "01:01:01");
}

#[test]
fn test_format_duration_days() {
    assert_eq!(format_duration(90061), "1-01:01:01");
    assert_eq!(format_duration(172800), "2-00:00:00");
}

#[test]
fn test_time_left_unlimited() {
    let job = make_job("1", "job1", "alice", "RUNNING", "compute", "", "", "normal");
    let mut job = job;
    job.time_limit = "UNLIMITED".to_string();
    job.time_used = "00:10:00".to_string();

    let (text, color) = time_left(&job);
    assert_eq!(text, "UNLIMITED");
    assert_eq!(color, Tint::DarkGray);
}

#[test]
fn test_time_left_invalid_used() {
    let job = make_job("1", "job1", "alice", "RUNNING", "compute", "", "", "normal");
    let mut job = job;
    job.time_limit = "01:00:00".to_string();
    job.time_used = "INVALID".to_string();

    let (text, color) = time_left(&job);
    assert_eq!(text, "—");
    assert_eq!(color, Tint::DarkGray);
}

#[test]
fn test_time_left_clamp_at_zero() {
    let job = make_job("1", "job1", "alice", "RUNNING", "compute", "", "", "normal");
    let mut job = job;
    job.time_limit = "00:10:00".to_string();
    job.time_used = "00:15:00".to_string();

    let (text, _color) = time_left(&job);
    assert_eq!(text, "00:00:00");
}

#[test]
fn test_time_left_color_green() {
    let job = make_job("1", "job1", "alice", "RUNNING", "compute", "", "", "normal");
    let mut job = job;
    job.time_limit = "01:00:00".to_string(); // 3600 seconds
    job.time_used = "00:10:00".to_string(); // 600 seconds
                                            // Remaining: 3000/3600 = 0.833 > 0.50 -> green

    let (_text, color) = time_left(&job);
    assert_eq!(color, Tint::Green);
}

#[test]
fn test_time_left_color_yellow() {
    let job = make_job("1", "job1", "alice", "RUNNING", "compute", "", "", "normal");
    let mut job = job;
    job.time_limit = "01:00:00".to_string(); // 3600 seconds
    job.time_used = "00:50:00".to_string(); // 3000 seconds
                                            // Remaining: 600/3600 = 0.167, >= 0.10 and <= 0.50 -> yellow

    let (_text, color) = time_left(&job);
    assert_eq!(color, Tint::Yellow);
}

#[test]
fn test_time_left_color_red() {
    let job = make_job("1", "job1", "alice", "RUNNING", "compute", "", "", "normal");
    let mut job = job;
    job.time_limit = "01:00:00".to_string(); // 3600 seconds
    job.time_used = "00:58:00".to_string(); // 3480 seconds
                                            // Remaining: 120/3600 = 0.033 < 0.10 -> red

    let (_text, color) = time_left(&job);
    assert_eq!(color, Tint::Red);
}

#[test]
fn test_time_left_zero_limit() {
    let job = make_job("1", "job1", "alice", "RUNNING", "compute", "", "", "normal");
    let mut job = job;
    job.time_limit = "0".to_string();
    job.time_used = "00:00:00".to_string();

    let (_text, color) = time_left(&job);
    assert_eq!(color, Tint::DarkGray);
}

#[test]
fn test_state_persists_across_updates() {
    let jobs = vec![
        make_job("1", "job1", "alice", "RUNNING", "compute", "", "", "normal"),
        make_job("2", "job2", "bob", "PENDING", "compute", "", "", "normal"),
        make_job("3", "job3", "alice", "RUNNING", "compute", "", "", "normal"),
    ];

    let mut view = JobsView::from_config(&ViewStateConfig::default(), &ColumnsConfig::default());

    // First update
    view.update(jobs.clone(), "alice");

    // Set some state
    view.set_search_query("job1".to_string());
    view.toggle_filter_mine();
    view.table_state.select(Some(0));

    let captured_search = view.search_query.clone();
    let captured_mine = view.filter_mine;

    // Second update - state should persist
    view.update(jobs.clone(), "alice");

    assert_eq!(view.search_query, captured_search);
    assert_eq!(view.filter_mine, captured_mine);
    // Cursor position will be restored via anchor
}

#[test]
fn test_cursor_anchor_survives_resort() {
    let jobs = vec![
        make_job("1", "job1", "alice", "PENDING", "compute", "", "", "normal"),
        make_job("2", "job2", "alice", "RUNNING", "compute", "", "", "normal"),
        make_job("3", "job3", "alice", "FAILED", "compute", "", "", "normal"),
    ];

    let mut view = JobsView::from_config(&ViewStateConfig::default(), &ColumnsConfig::default());

    // First update - default sort (RUNNING, PENDING, FAILED by state priority)
    let state = view.update(jobs.clone(), "alice");
    view.restore_state(state);

    // Select job 2 (which is first in default sort: RUNNING)
    view.table_state.select(Some(0));
    assert_eq!(view.selected_job().unwrap().job_id, "2");

    // Capture state before resort
    let captured = view.capture_state();

    // Sort by STATE (alphabetically: FAILED, PENDING, RUNNING)
    view.toggle_sort("STATE");
    let _state = view.update(jobs, "alice");
    view.restore_state(captured);

    // Job 2 should still be selected, but now at index 2
    assert_eq!(view.selected_job().unwrap().job_id, "2");
}

#[test]
fn test_search_input_mode() {
    let mut view = JobsView::new();

    // Enter search mode with /
    let key = KeyPress::plain(Key::Char('/'));
    assert!(view.handle_key(key));
    assert!(view.search_input_active);
    assert_eq!(view.search_query, "");

    // Type "test"
    for c in ['t', 'e', 's', 't'] {
        let key = KeyPress::plain(Key::Char(c));
        assert!(view.handle_key(key));
    }
    assert_eq!(view.search_query, "test");

    // Escape clears and exits
    let key = KeyPress::plain(Key::Esc);
    assert!(view.handle_key(key));
    assert!(!view.search_input_active);
    assert_eq!(view.search_query, "");
}

#[test]
fn test_visual_mode_selection() {
    let jobs = vec![
        make_job("1", "job1", "alice", "RUNNING", "compute", "", "", "normal"),
        make_job("2", "job2", "alice", "PENDING", "compute", "", "", "normal"),
        make_job("3", "job3", "alice", "FAILED", "compute", "", "", "normal"),
    ];

    let mut view = JobsView::new();
    view.update(jobs, "alice");
    view.table_state.select(Some(0));


    // Enter visual mode with 'v'
    let key = KeyPress::plain(Key::Char('v'));
    assert!(view.handle_key(key));
    assert!(view.visual_selection.is_active());

    // Press 'j' to move down and extend selection
    let key = KeyPress::plain(Key::Char('j'));
    assert!(view.handle_key(key));

    // Should have selected rows 0 and 1
    let selected = view.selected_jobs();
    assert_eq!(selected.len(), 2);
    assert_eq!(selected[0].job_id, "1");
    assert_eq!(selected[1].job_id, "2");
}

#[test]
fn test_yank_tsv() {
    let jobs = vec![
        make_job("1", "job1", "alice", "RUNNING", "compute", "", "", "normal"),
        make_job("2", "job2", "bob", "PENDING", "gpu", "", "", "high"),
    ];

    let mut rows = BTreeSet::new();
    rows.insert(0);
    rows.insert(1);

    let text = yank_tsv(&rows, &jobs, |job| {
        format!("{}\t{}\t{}\t{}", job.job_id, job.name, job.state, job.user)
    });

    let expected = "1\tjob1\tRUNNING\talice\n2\tjob2\tPENDING\tbob\n";
    assert_eq!(text, expected);
}

#[test]
fn test_cycle_reorder_target_wraps() {
    let mut view = JobsView::new();
    view.column_widths.insert("A".to_string(), 10);
    view.column_widths.insert("B".to_string(), 10);
    view.column_widths.insert("C".to_string(), 10);

    assert_eq!(view.reorder_target_idx, 0);
    view.cycle_reorder_target();
    assert_eq!(view.reorder_target_idx, 1);
    view.cycle_reorder_target();
    assert_eq!(view.reorder_target_idx, 2);
    view.cycle_reorder_target();
    // Should wrap back to 0
    assert_eq!(view.reorder_target_idx, 0);
}

#[test]
fn test_cycle_reorder_target_zero_columns() {
    let mut view = JobsView::new();
    // No columns
    assert_eq!(view.column_widths.len(), 0);
    view.cycle_reorder_target();
    // Should not panic and idx should remain 0
    assert_eq!(view.reorder_target_idx, 0);
}

#[test]
fn test_shift_column_right_and_left() {
    let mut view = JobsView::new();
    view.column_order = vec!["A".to_string(), "B".to_string(), "C".to_string()];
    view.column_widths.insert("A".to_string(), 10);
    view.column_widths.insert("B".to_string(), 10);
    view.column_widths.insert("C".to_string(), 10);

    // Target first column (A) at idx 0
    view.reorder_target_idx = 0;

    // Shift right: A should move to position 1
    view.shift_column_right();
    assert_eq!(
        view.column_order,
        vec!["B".to_string(), "A".to_string(), "C".to_string()]
    );
    assert_eq!(view.reorder_target_idx, 1);

    // Shift left: A should move back to position 0
    view.shift_column_left();
    assert_eq!(
        view.column_order,
        vec!["A".to_string(), "B".to_string(), "C".to_string()]
    );
    assert_eq!(view.reorder_target_idx, 0);
}

#[test]
fn test_shift_at_edges_clamps() {
    let mut view = JobsView::new();
    view.column_order = vec!["A".to_string(), "B".to_string(), "C".to_string()];
    view.column_widths.insert("A".to_string(), 10);
    view.column_widths.insert("B".to_string(), 10);
    view.column_widths.insert("C".to_string(), 10);

    // Target first column
    view.reorder_target_idx = 0;
    let initial_order = view.column_order.clone();

    // Try to shift left at left edge
    view.shift_column_left();
    // Should not move past the start
    assert_eq!(view.column_order, initial_order);
    assert_eq!(view.reorder_target_idx, 0);

    // Target last column
    view.reorder_target_idx = 2;
    let order_before = view.column_order.clone();

    // Try to shift right at right edge
    view.shift_column_right();
    // Should not move past the end
    assert_eq!(view.column_order, order_before);
    assert_eq!(view.reorder_target_idx, 2);
}

#[test]
fn test_reorder_target_visible_space_only() {
    let mut view = JobsView::new();

    // Set up column order with A, B, C
    view.column_order = vec!["A".to_string(), "B".to_string(), "C".to_string()];

    // Only A and C are visible (B is hidden by having no width)
    view.column_widths.insert("A".to_string(), 10);
    view.column_widths.insert("C".to_string(), 10);
    // B has no width (hidden)

    // Reorder target is in visible-space: idx 0 = A, idx 1 = C
    view.reorder_target_idx = 0;
    assert_eq!(view.visible_column_names().len(), 2);

    // Cycling should only iterate over visible columns
    view.cycle_reorder_target();
    assert_eq!(view.reorder_target_idx, 1);
    view.cycle_reorder_target();
    assert_eq!(view.reorder_target_idx, 0); // Wraps back
}

#[test]
fn test_reorder_keys() {

    let mut view = JobsView::new();
    view.column_widths.insert("A".to_string(), 10);
    view.column_widths.insert("B".to_string(), 10);

    // Test '.' key
    let key = KeyPress::plain(Key::Char('.'));
    assert!(view.handle_key(key));
    assert_eq!(view.reorder_target_idx, 1);

    // Test '[' key (will be no-op at position 1 since we need column_order set up)
    view.column_order = vec!["A".to_string(), "B".to_string()];
    view.reorder_target_idx = 1;
    let key = KeyPress::plain(Key::Char('['));
    assert!(view.handle_key(key));

    // Test ']' key
    view.reorder_target_idx = 0;
    let key = KeyPress::plain(Key::Char(']'));
    assert!(view.handle_key(key));
}
