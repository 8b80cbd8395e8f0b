use sqtop::app::Tab;
use sqtop::chrome::{binding_show_at, binding_visible, sub_title, tab_label, tab_labels, tier_ge};
use sqtop::responsive::Tier;

// -----------------------------------------------------------------------
// Tab label tests
// -----------------------------------------------------------------------

#[test]
fn test_tab_labels_constants_defined() {
    // All five tabs must be present in tab_labels()
    assert_eq!(tab_labels().len(), 5);
    let labels = tab_labels();
    let tabs = labels.iter().map(|(t, _, _)| t).collect::<Vec<_>>();
    assert!(tabs.iter().any(|t| matches!(t, Tab::Jobs)));
    assert!(tabs.iter().any(|t| matches!(t, Tab::Nodes)));
    assert!(tabs.iter().any(|t| matches!(t, Tab::Partitions)));
    assert!(tabs.iter().any(|t| matches!(t, Tab::History)));
    assert!(tabs.iter().any(|t| matches!(t, Tab::Health)));
}

#[test]
fn test_tab_labels_xs_short() {
    // At xs, the short label has no bracket suffix
    for (tab, short, _) in &tab_labels() {
        assert!(
            !short.contains('['),
            "Short label for {:?} must not contain '['",
            tab
        );
    }
}

#[test]
fn test_tab_labels_full_has_bracket() {
    // At sm+, the full label includes [N]
    for (tab, _, full) in &tab_labels() {
        assert!(
            full.contains('['),
            "Full label for {:?} should contain '[N]'",
            tab
        );
    }
}

#[test]
fn test_short_is_prefix_of_full() {
    // Short label text is a prefix of the full label
    for (tab, short, full) in &tab_labels() {
        assert!(
            full.starts_with(short),
            "Full label {:?} should start with short label {:?} for tab {:?}",
            full,
            short,
            tab
        );
    }
}

#[test]
fn test_tab_label_xs_returns_short() {
    assert_eq!(tab_label(Tab::Jobs, Tier::Xs), "Jobs");
    assert_eq!(tab_label(Tab::Nodes, Tier::Xs), "Nodes");
    assert_eq!(tab_label(Tab::Partitions, Tier::Xs), "Partitions");
    assert_eq!(tab_label(Tab::History, Tier::Xs), "History");
    assert_eq!(tab_label(Tab::Health, Tier::Xs), "Health");
}

#[test]
fn test_tab_label_sm_returns_full() {
    assert_eq!(tab_label(Tab::Jobs, Tier::Sm), "Jobs [1]");
    assert_eq!(tab_label(Tab::Nodes, Tier::Sm), "Nodes [2]");
    assert_eq!(tab_label(Tab::Partitions, Tier::Sm), "Partitions [3]");
    assert_eq!(tab_label(Tab::History, Tier::Sm), "History [4]");
    assert_eq!(tab_label(Tab::Health, Tier::Sm), "Health [5]");
}

#[test]
fn test_tab_label_md_returns_full() {
    assert_eq!(tab_label(Tab::Jobs, Tier::Md), "Jobs [1]");
}

#[test]
fn test_tab_label_lg_returns_full() {
    assert_eq!(tab_label(Tab::Jobs, Tier::Lg), "Jobs [1]");
}

// -----------------------------------------------------------------------
// Subtitle tests
// -----------------------------------------------------------------------

#[test]
fn test_sub_title_empty_at_xs() {
    let result = sub_title("Slurm Dashboard", Tier::Xs, 80);
    assert_eq!(result, "");
}

#[test]
fn test_sub_title_present_at_sm() {
    let result = sub_title("Slurm Dashboard", Tier::Sm, 200);
    assert_eq!(result, "Slurm Dashboard");
}

#[test]
fn test_sub_title_present_at_lg() {
    let result = sub_title("Slurm Dashboard", Tier::Lg, 200);
    assert_eq!(result, "Slurm Dashboard");
}

#[test]
fn test_sub_title_truncated_at_narrow_sm() {
    // At sm with width=80, max_width = 80//2 - 10 = 30
    let long_text = format!("Slurm Dashboard — {}", "a".repeat(100));
    let result = sub_title(&long_text, Tier::Sm, 80);
    assert!(result.chars().count() <= 30);
    assert!(result.ends_with('…'));
}

#[test]
fn test_sub_title_no_ellipsis_when_fits() {
    // Short sub_title is NOT truncated at lg
    let result = sub_title("Slurm Dashboard", Tier::Lg, 200);
    assert!(!result.contains('…'));
    assert_eq!(result, "Slurm Dashboard");
}

#[test]
fn test_sub_title_truncation_exact_boundary() {
    // Test exact boundary: if base.len() == max_width, no truncation
    let width = 80u16;
    let max_width = (width / 2 - 10) as usize; // 30
    let exact_text = "a".repeat(max_width);
    let result = sub_title(&exact_text, Tier::Sm, width);
    assert_eq!(result, exact_text);
    assert!(!result.contains('…'));
}

#[test]
fn test_sub_title_truncation_one_over() {
    // If base.len() = max_width + 1, should truncate with ellipsis
    let width = 80u16;
    let max_width = (width / 2 - 10) as usize; // 30
    let over_text = "a".repeat(max_width + 1);
    let result = sub_title(&over_text, Tier::Sm, width);
    assert_eq!(result.chars().count(), max_width);
    assert!(result.ends_with('…'));
}

#[test]
fn test_sub_title_very_narrow_terminal() {
    // Very narrow terminal: max_width < 2 should return empty
    let result = sub_title("Slurm Dashboard", Tier::Sm, 20);
    // width=20, max_width = 20//2 - 10 = 0
    assert_eq!(result, "Slurm Dashboard"); // max_width=0 case

    let result2 = sub_title("Slurm Dashboard", Tier::Sm, 22);
    // width=22, max_width = 22//2 - 10 = 1
    assert_eq!(result2, ""); // max_width < 2 case
}

// -----------------------------------------------------------------------
// Binding visibility tests
// -----------------------------------------------------------------------

#[test]
fn test_xs_only_quit_and_keys() {
    // At xs, only 'quit' and 'show_keybindings' are visible (assuming originally shown)
    assert!(binding_visible("quit", Tier::Xs, true));
    assert!(binding_visible("show_keybindings", Tier::Xs, true));

    // Tab-switching actions are NOT visible at xs (even if originally shown)
    assert!(!binding_visible("switch_tab('jobs')", Tier::Xs, true));
    assert!(!binding_visible("switch_tab('nodes')", Tier::Xs, true));
    assert!(!binding_visible("switch_tab('partitions')", Tier::Xs, true));
    assert!(!binding_visible("switch_tab('history')", Tier::Xs, true));
    assert!(!binding_visible("switch_tab('health')", Tier::Xs, true));
    assert!(!binding_visible("refresh", Tier::Xs, true));
}

#[test]
fn test_sm_includes_tabs_and_refresh() {
    // At sm, tab-switching and refresh are visible (assuming originally shown)
    assert!(binding_visible("quit", Tier::Sm, true));
    assert!(binding_visible("show_keybindings", Tier::Sm, true));
    assert!(binding_visible("refresh", Tier::Sm, true));
    assert!(binding_visible("switch_tab('jobs')", Tier::Sm, true));
    assert!(binding_visible("switch_tab('nodes')", Tier::Sm, true));
    assert!(binding_visible("switch_tab('partitions')", Tier::Sm, true));
    assert!(binding_visible("switch_tab('history')", Tier::Sm, true));
    assert!(binding_visible("switch_tab('health')", Tier::Sm, true));
}

#[test]
fn test_sm_more_visible_than_xs() {
    // sm shows strictly more than xs
    let xs_count = binding_show_at()
        .iter()
        .filter(|(_, tier)| tier_ge(Tier::Xs, *tier))
        .count();
    let sm_count = binding_show_at()
        .iter()
        .filter(|(_, tier)| tier_ge(Tier::Sm, *tier))
        .count();
    assert!(sm_count > xs_count);
}

#[test]
fn test_bindings_not_in_table_default_visible() {
    // Actions not in binding_show_at() default to visible if originally shown
    assert!(binding_visible("some_unknown_action", Tier::Xs, true));
    assert!(binding_visible("some_unknown_action", Tier::Sm, true));
    assert!(binding_visible("some_unknown_action", Tier::Md, true));
}

#[test]
fn test_md_shows_all_sm_bindings() {
    // md tier shows all sm+ bindings (assuming originally shown)
    for (action, _) in binding_show_at() {
        if binding_visible(action, Tier::Sm, true) {
            assert!(
                binding_visible(action, Tier::Md, true),
                "{} visible at sm should also be visible at md",
                action
            );
        }
    }
}

#[test]
fn test_lg_shows_all_bindings() {
    // lg tier shows all bindings in the table (assuming originally shown)
    for (action, _) in binding_show_at() {
        assert!(
            binding_visible(action, Tier::Lg, true),
            "{} should be visible at lg",
            action
        );
    }
}

#[test]
fn test_tier_comparison() {
    // Test tier_ge helper
    assert!(tier_ge(Tier::Xs, Tier::Xs));
    assert!(tier_ge(Tier::Sm, Tier::Xs));
    assert!(tier_ge(Tier::Md, Tier::Sm));
    assert!(tier_ge(Tier::Lg, Tier::Md));

    assert!(!tier_ge(Tier::Xs, Tier::Sm));
    assert!(!tier_ge(Tier::Sm, Tier::Md));
    assert!(!tier_ge(Tier::Md, Tier::Lg));
}

#[test]
fn test_health_tab_label_full_includes_bracket_5() {
    // Specific test for health tab
    let label = tab_label(Tab::Health, Tier::Sm);
    assert!(label.contains("[5]"));
}

#[test]
fn test_health_binding_show_at_sm() {
    // Health tab switch binding is visible at sm (assuming originally shown)
    assert!(binding_visible("switch_tab('health')", Tier::Sm, true));
    assert!(!binding_visible("switch_tab('health')", Tier::Xs, true));
}

#[test]
fn test_originally_hidden_stays_hidden() {
    // ctrl+c / quit with originally_shown = false is hidden at all tiers
    assert!(!binding_visible("quit", Tier::Xs, false));
    assert!(!binding_visible("quit", Tier::Sm, false));
    assert!(!binding_visible("quit", Tier::Md, false));
    assert!(!binding_visible("quit", Tier::Lg, false));
}

#[test]
fn test_originally_hidden_in_table_stays_hidden() {
    // Action in tier table with originally_shown = false is still hidden at lg
    // (the hidden flag wins over the tier rule)
    assert!(!binding_visible("refresh", Tier::Lg, false));
    assert!(!binding_visible("switch_tab('jobs')", Tier::Lg, false));
}

#[test]
fn test_not_in_table_originally_shown_always_visible() {
    // Action not in table with originally_shown = true is visible at every tier
    assert!(binding_visible("some_custom_action", Tier::Xs, true));
    assert!(binding_visible("some_custom_action", Tier::Sm, true));
    assert!(binding_visible("some_custom_action", Tier::Md, true));
    assert!(binding_visible("some_custom_action", Tier::Lg, true));
}
