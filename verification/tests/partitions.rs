use sqtop::responsive::{allocate_columns, Tier, CHROME_OVERHEAD};
use sqtop::slurm::model::ClusterSummary;
use sqtop::views::partitions::{
    avail_color, capture_cursor_state, partitions_columns, plain_cell, restore_cursor_position,
    state_color,
};
use sqtop::views::partitions::replace_partitions;
use sqtop::views::table_state::{CapturedTableState, CyclicTableState};
use sqtop::views::tint::Tint;


fn make_partition(name: &str, avail: &str, state: &str) -> ClusterSummary {
    ClusterSummary {
        partition: name.to_string(),
        avail: avail.to_string(),
        state: state.to_string(),
        timelimit: "UNLIMITED".to_string(),
        nodes: "4".to_string(),
        nodelist: "node[01-04]".to_string(),
    }
}

// Column allocation tests at different terminal widths
#[test]
fn test_partitions_columns_xs_width() {
    // At xs tier (40-79), should show only xs-priority columns
    let budget = 40 - CHROME_OVERHEAD;
    let allocated = allocate_columns(budget, &partitions_columns(), Tier::Xs);

    // Should have at least PARTITION, AVAIL, STATE (all xs tier)
    assert!(!allocated.is_empty());
    let names: Vec<&str> = allocated.iter().map(|(n, _)| n.as_str()).collect();
    assert!(names.contains(&"PARTITION"));
}

#[test]
fn test_partitions_columns_sm_width() {
    // At sm tier (80-109), should show xs + sm columns
    let budget = 80 - CHROME_OVERHEAD;
    let allocated = allocate_columns(budget, &partitions_columns(), Tier::Sm);

    let names: Vec<&str> = allocated.iter().map(|(n, _)| n.as_str()).collect();
    assert!(names.contains(&"PARTITION"));
    assert!(names.contains(&"AVAIL"));
    assert!(names.contains(&"STATE"));
}

#[test]
fn test_partitions_columns_md_width() {
    // At md tier (110-159), should show xs + sm + md columns
    let budget = 110 - CHROME_OVERHEAD;
    let allocated = allocate_columns(budget, &partitions_columns(), Tier::Md);

    let names: Vec<&str> = allocated.iter().map(|(n, _)| n.as_str()).collect();
    assert!(names.contains(&"PARTITION"));
    assert!(names.contains(&"NODELIST")); // md-tier column
}

#[test]
fn test_partitions_columns_lg_width() {
    // At lg tier (160+), should show all columns
    let budget = 160 - CHROME_OVERHEAD;
    let allocated = allocate_columns(budget, &partitions_columns(), Tier::Lg);

    assert!(!allocated.is_empty());
    let names: Vec<&str> = allocated.iter().map(|(n, _)| n.as_str()).collect();
    assert!(names.contains(&"PARTITION"));
    assert!(names.contains(&"NODELIST"));
}

// Color tests
#[test]
fn test_avail_color_up() {
    assert_eq!(avail_color("up"), Tint::Green);
    assert_eq!(avail_color("UP"), Tint::Green);
}

#[test]
fn test_avail_color_down() {
    assert_eq!(avail_color("down"), Tint::Red);
}

#[test]
fn test_avail_color_drain() {
    assert_eq!(avail_color("drain"), Tint::Yellow);
}

#[test]
fn test_avail_color_inact() {
    assert_eq!(avail_color("inact"), Tint::DarkGray);
}

#[test]
fn test_state_color_idle() {
    assert_eq!(state_color("idle"), Tint::Green);
}

#[test]
fn test_state_color_allocated() {
    assert_eq!(state_color("allocated"), Tint::Cyan);
}

#[test]
fn test_state_color_mixed() {
    assert_eq!(state_color("mixed"), Tint::Yellow);
}

#[test]
fn test_state_color_drain() {
    assert_eq!(state_color("drain"), Tint::Red);
}

#[test]
fn test_state_color_draining() {
    assert_eq!(state_color("draining"), Tint::Magenta);
}

#[test]
fn test_state_color_strips_asterisk() {
    assert_eq!(state_color("idle*"), Tint::Green);
    assert_eq!(state_color("mixed*"), Tint::Yellow);
}

#[test]
fn test_state_color_strips_dash() {
    assert_eq!(state_color("idle-"), Tint::Green);
}

// Cursor anchor tests
#[test]
fn test_capture_cursor_state_valid() {
    let partitions = vec![
        make_partition("gpu", "up", "idle"),
        make_partition("cpu", "up", "mixed"),
        make_partition("debug", "up", "idle"),
    ];

    let state = capture_cursor_state(&partitions, Some(1));
    assert_eq!(state.anchor, Some("cpu".to_string()));
}

#[test]
fn test_capture_cursor_state_out_of_bounds() {
    let partitions = vec![make_partition("gpu", "up", "idle")];

    let state = capture_cursor_state(&partitions, Some(5));
    assert_eq!(state.anchor, None);
}

#[test]
fn test_capture_cursor_state_empty() {
    let partitions: Vec<ClusterSummary> = vec![];

    let state = capture_cursor_state(&partitions, Some(0));
    assert_eq!(state.anchor, None);
}

#[test]
fn test_restore_cursor_position_anchor_found() {
    let partitions = vec![
        make_partition("gpu", "up", "idle"),
        make_partition("cpu", "up", "mixed"),
        make_partition("debug", "up", "idle"),
    ];

    let state = CapturedTableState::new(Some("debug".to_string()), 0);
    let restored = restore_cursor_position(&state, &partitions, 0);

    assert_eq!(restored, Some(2)); // "debug" is at index 2
}

#[test]
fn test_restore_cursor_position_anchor_not_found_fallback() {
    let partitions = vec![
        make_partition("gpu", "up", "idle"),
        make_partition("cpu", "up", "mixed"),
    ];

    let state = CapturedTableState::new(Some("missing".to_string()), 0);
    let restored = restore_cursor_position(&state, &partitions, 1);

    // Should fall back to saved row (1), which is valid
    assert_eq!(restored, Some(1));
}

#[test]
fn test_restore_cursor_position_saved_row_clamped() {
    let partitions = vec![make_partition("gpu", "up", "idle")];

    let state = CapturedTableState::new(Some("missing".to_string()), 0);
    let restored = restore_cursor_position(&state, &partitions, 10);

    // Should clamp saved row to max valid index (0)
    assert_eq!(restored, Some(0));
}

#[test]
fn test_restore_cursor_position_empty_partitions() {
    let partitions: Vec<ClusterSummary> = vec![];

    let state = CapturedTableState::new(Some("gpu".to_string()), 0);
    let restored = restore_cursor_position(&state, &partitions, 0);

    assert_eq!(restored, None);
}

#[test]
fn test_cursor_tracks_partition_across_reorder() {
    // Initial order
    let mut partitions = vec![
        make_partition("gpu", "up", "idle"),
        make_partition("cpu", "up", "mixed"),
        make_partition("debug", "up", "idle"),
    ];

    // Cursor on "cpu" (index 1)
    let state = capture_cursor_state(&partitions, Some(1));
    assert_eq!(state.anchor, Some("cpu".to_string()));

    // Reorder partitions (e.g., sort by name)
    partitions.sort_by(|a, b| a.partition.cmp(&b.partition));
    // New order: ["cpu", "debug", "gpu"]

    // Restore cursor - should find "cpu" at new index 0
    let restored = restore_cursor_position(&state, &partitions, 1);
    assert_eq!(restored, Some(0));
    assert_eq!(partitions[restored.unwrap()].partition, "cpu");
}

// Render tests
#[test]
fn test_plain_cell_all_columns() {
    let p = make_partition("gpu", "up", "idle");

    assert_eq!(plain_cell(&p, "PARTITION"), "gpu");
    assert_eq!(plain_cell(&p, "AVAIL"), "up");
    assert_eq!(plain_cell(&p, "STATE"), "idle");
    assert_eq!(plain_cell(&p, "TIMELIMIT"), "UNLIMITED");
    assert_eq!(plain_cell(&p, "NODES"), "4");
    assert_eq!(plain_cell(&p, "NODELIST"), "node[01-04]");
    assert_eq!(plain_cell(&p, "UNKNOWN"), "");
}

#[test]
fn replacing_partitions_keeps_the_cursor_on_its_partition() {
    let mut shown = vec![
        make_partition("cpu", "up", "idle"),
        make_partition("gpu", "up", "mixed"),
        make_partition("debug", "up", "idle"),
    ];
    let mut cursor = CyclicTableState::new();
    cursor.set_row_count(3);
    cursor.select(Some(1));
    // gpu moves to the last row.
    let fresh = vec![
        make_partition("cpu", "up", "idle"),
        make_partition("debug", "up", "idle"),
        make_partition("gpu", "up", "mixed"),
    ];
    replace_partitions(&mut shown, &mut cursor, fresh);
    assert_eq!(cursor.selected(), Some(2));
    assert_eq!(cursor.row_count(), 3);
    assert_eq!(shown[2].partition, "gpu");
    // gpu disappears: the cursor keeps its row, clamped to the shorter list.
    let fresh = vec![make_partition("cpu", "up", "idle")];
    replace_partitions(&mut shown, &mut cursor, fresh);
    assert_eq!(cursor.selected(), Some(0));
    // An empty list selects nothing.
    replace_partitions(&mut shown, &mut cursor, Vec::new());
    assert_eq!(cursor.selected(), None);
    assert_eq!(cursor.row_count(), 0);
}
