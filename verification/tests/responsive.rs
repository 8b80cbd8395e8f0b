use sqtop::responsive::{
    allocate_columns, at_least, tier_for, truncate_cell, ColumnSpec, Tier, TOO_SMALL_HEIGHT,
    TOO_SMALL_WIDTH,
};


// TIER_WIDTH constants
#[test]
fn test_tier_xs_width() {
    assert_eq!(Tier::Xs.min_width(), 40);
}

#[test]
fn test_tier_sm_width() {
    assert_eq!(Tier::Sm.min_width(), 80);
}

#[test]
fn test_tier_md_width() {
    assert_eq!(Tier::Md.min_width(), 110);
}

#[test]
fn test_tier_lg_width() {
    assert_eq!(Tier::Lg.min_width(), 160);
}

#[test]
fn test_too_small_width() {
    assert_eq!(TOO_SMALL_WIDTH, 40);
}

#[test]
fn test_too_small_height() {
    assert_eq!(TOO_SMALL_HEIGHT, 10);
}

// tier_for boundaries
#[test]
fn test_tier_for_xs() {
    assert_eq!(tier_for(39), Tier::Xs);
    assert_eq!(tier_for(40), Tier::Xs);
    assert_eq!(tier_for(79), Tier::Xs);
}

#[test]
fn test_tier_for_sm() {
    assert_eq!(tier_for(80), Tier::Sm);
    assert_eq!(tier_for(109), Tier::Sm);
}

#[test]
fn test_tier_for_md() {
    assert_eq!(tier_for(110), Tier::Md);
    assert_eq!(tier_for(159), Tier::Md);
}

#[test]
fn test_tier_for_lg() {
    assert_eq!(tier_for(160), Tier::Lg);
    assert_eq!(tier_for(9999), Tier::Lg);
}

// at_least
#[test]
fn test_at_least_xs_always_true() {
    assert!(at_least(Tier::Xs, 40));
    assert!(at_least(Tier::Xs, 79));
    assert!(at_least(Tier::Xs, 160));
}

#[test]
fn test_at_least_sm() {
    assert!(!at_least(Tier::Sm, 79));
    assert!(at_least(Tier::Sm, 80));
    assert!(at_least(Tier::Sm, 160));
}

#[test]
fn test_at_least_md() {
    assert!(!at_least(Tier::Md, 109));
    assert!(at_least(Tier::Md, 110));
    assert!(at_least(Tier::Md, 160));
}

#[test]
fn test_at_least_lg() {
    assert!(!at_least(Tier::Lg, 159));
    assert!(at_least(Tier::Lg, 160));
    assert!(at_least(Tier::Lg, 9999));
}

// allocate_columns
#[test]
fn test_allocate_no_columns_below_min_budget() {
    let cols = vec![ColumnSpec::new("A", 8, 12, 100, Tier::Xs)];
    assert_eq!(allocate_columns(0, &cols, Tier::Xs), vec![]);
}

#[test]
fn test_allocate_preserves_input_order() {
    let cols = vec![
        ColumnSpec::new("A", 8, 12, 50, Tier::Xs),
        ColumnSpec::new("B", 8, 12, 100, Tier::Xs),
        ColumnSpec::new("C", 8, 12, 75, Tier::Xs),
    ];
    let result = allocate_columns(100, &cols, Tier::Xs);
    let names: Vec<&str> = result.iter().map(|(n, _)| n.as_str()).collect();
    assert_eq!(names, vec!["A", "B", "C"]);
}

#[test]
fn test_allocate_drops_low_priority_when_budget_tight() {
    let cols = vec![
        ColumnSpec::new("HIGH", 8, 12, 100, Tier::Xs),
        ColumnSpec::new("LOW", 10, 14, 50, Tier::Xs),
    ];
    // Budget = 15, total min = 18, should drop LOW
    let result = allocate_columns(15, &cols, Tier::Xs);
    let names: Vec<&str> = result.iter().map(|(n, _)| n.as_str()).collect();
    assert_eq!(names, vec!["HIGH"]);
}

#[test]
fn test_allocate_respects_min_tier() {
    let cols = vec![
        ColumnSpec::new("XS", 8, 12, 100, Tier::Xs),
        ColumnSpec::new("LG", 10, 14, 50, Tier::Lg),
    ];
    // At width 100 (md tier), LG column should not appear
    let result = allocate_columns(97, &cols, Tier::Md);
    let names: Vec<&str> = result.iter().map(|(n, _)| n.as_str()).collect();
    assert_eq!(names, vec!["XS"]);
}

// truncate_cell
#[test]
fn test_truncate_cell_truncates_with_ellipsis() {
    assert_eq!(truncate_cell("hello world", 5), "hell…");
}

#[test]
fn test_truncate_cell_no_truncation_when_fits() {
    assert_eq!(truncate_cell("hi", 10), "hi");
}

#[test]
fn test_truncate_cell_exact_fit() {
    assert_eq!(truncate_cell("hello", 5), "hello");
}

#[test]
fn test_truncate_cell_width_2_last_resort() {
    assert_eq!(truncate_cell("abc", 2), "a…");
}

#[test]
fn test_truncate_cell_width_1_returns_empty() {
    assert_eq!(truncate_cell("abc", 1), "");
}

#[test]
fn test_truncate_cell_width_0_returns_empty() {
    assert_eq!(truncate_cell("abc", 0), "");
}

#[test]
fn test_truncate_cell_empty_string() {
    assert_eq!(truncate_cell("", 5), "");
}

#[test]
fn allocation_stays_within_budget_and_input_order() {
    let cols = vec![
        ColumnSpec::new("A", 8, 20, 50, Tier::Xs),
        ColumnSpec::new("B", 6, 10, 100, Tier::Xs),
        ColumnSpec::new("C", 10, 30, 75, Tier::Xs),
        ColumnSpec::new("D", 5, 5, 10, Tier::Xs),
    ];
    for budget in [1u16, 7, 15, 20, 29, 40, 60, 200] {
        let result = allocate_columns(budget, &cols, Tier::Xs);
        let total: u32 = result.iter().map(|(_, w)| *w as u32).sum();
        assert!(result.len() <= 1 || total <= budget as u32, "budget {}", budget);
        let positions: Vec<usize> = result
            .iter()
            .map(|(n, _)| cols.iter().position(|c| &c.name == n).unwrap())
            .collect();
        assert!(positions.windows(2).all(|w| w[0] < w[1]));
    }
    // A single column is kept even when its minimum is over the budget.
    let one = vec![ColumnSpec::new("WIDE", 30, 40, 1, Tier::Xs)];
    assert_eq!(allocate_columns(10, &one, Tier::Xs), vec![("WIDE".to_string(), 30)]);
}
