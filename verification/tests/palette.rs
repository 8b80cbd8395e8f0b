use sqtop::config::{SafetyConfig, UiConfig};
use sqtop::views::keys::{Key, KeyPress};
use sqtop::views::modals::palette::{PaletteCommand, PaletteResult, PaletteState};
use sqtop::views::modals::ModalOutcome;

#[test]
fn test_palette_new() {
    let state = PaletteState::new(&UiConfig::default(), &SafetyConfig::default());
    // Should have some commands
    assert!(!state.commands.is_empty());
    // With no search, only discover=true commands shown
    let discoverable_count = state.commands.iter().filter(|c| c.discover).count();
    assert_eq!(state.filtered.len(), discoverable_count);
}

#[test]
fn test_palette_filter_discover() {
    let state = PaletteState::new(&UiConfig::default(), &SafetyConfig::default());
    // With empty search, only discover=true commands are shown
    let discoverable_count = state.commands.iter().filter(|c| c.discover).count();
    assert_eq!(state.filtered.len(), discoverable_count);
}

#[test]
fn test_palette_filter_search() {
    let mut state = PaletteState::new(&UiConfig::default(), &SafetyConfig::default());
    // Type "refresh" to filter
    for c in "refresh".chars() {
        state.search_query.push(c);
    }
    state.update_filter();
    // Should match "Refresh data" and "Set refresh: Xs" commands
    assert!(!state.filtered.is_empty());
    for &idx in &state.filtered {
        assert!(state.commands[idx].title.to_lowercase().contains("refresh"));
    }
}

#[test]
fn test_palette_key_typing() {
    let mut state = PaletteState::new(&UiConfig::default(), &SafetyConfig::default());
    let initial_count = state.filtered.len();

    // Type 'r'
    let key = KeyPress::plain(Key::Char('r'));
    let outcome = state.handle_key(key);
    assert_eq!(outcome, ModalOutcome::Continue);
    assert_eq!(state.search_query, "r");
    // Filter should have changed
    assert_ne!(state.filtered.len(), initial_count);
}

#[test]
fn test_palette_key_backspace() {
    let mut state = PaletteState::new(&UiConfig::default(), &SafetyConfig::default());
    state.search_query = "test".to_string();
    state.update_filter();

    let key = KeyPress::plain(Key::Backspace);
    let outcome = state.handle_key(key);
    assert_eq!(outcome, ModalOutcome::Continue);
    assert_eq!(state.search_query, "tes");
}

#[test]
fn test_palette_key_esc() {
    let mut state = PaletteState::new(&UiConfig::default(), &SafetyConfig::default());
    let key = KeyPress::plain(Key::Esc);
    let outcome = state.handle_key(key);
    assert_eq!(outcome, ModalOutcome::Dismiss(PaletteResult::Closed));
}

#[test]
fn test_palette_key_enter() {
    let mut state = PaletteState::new(&UiConfig::default(), &SafetyConfig::default());
    // Select first command
    if !state.filtered.is_empty() {
        state.table_state.select(Some(0));
        let key = KeyPress::plain(Key::Enter);
        let outcome = state.handle_key(key);
        match outcome {
            ModalOutcome::Dismiss(PaletteResult::Execute(_)) => {
                // OK
            }
            _ => panic!("Expected Execute outcome"),
        }
    }
}

#[test]
fn test_palette_key_navigation() {
    let mut state = PaletteState::new(&UiConfig::default(), &SafetyConfig::default());
    if state.filtered.len() > 1 {
        state.table_state.select(Some(0));
        let key = KeyPress::plain(Key::Down);
        let outcome = state.handle_key(key);
        assert_eq!(outcome, ModalOutcome::Continue);
        assert_eq!(state.table_state.selected(), Some(1));

        let key = KeyPress::plain(Key::Up);
        let outcome = state.handle_key(key);
        assert_eq!(outcome, ModalOutcome::Continue);
        assert_eq!(state.table_state.selected(), Some(0));
    }
}

#[test]
fn test_commands_reflect_config_state() {
    let mut ui = UiConfig::default();
    ui.expert_mode = true;
    let state = PaletteState::new(&ui, &SafetyConfig::default());
    // Find the expert mode command
    let expert_cmd = state
        .commands
        .iter()
        .find(|c| matches!(c.command, PaletteCommand::ToggleExpertMode));
    assert!(expert_cmd.is_some());
    assert!(expert_cmd.unwrap().title.contains("on"));

    // Now with expert_mode off
    ui.expert_mode = false;
    let state = PaletteState::new(&ui, &SafetyConfig::default());
    let expert_cmd = state
        .commands
        .iter()
        .find(|c| matches!(c.command, PaletteCommand::ToggleExpertMode));
    assert!(expert_cmd.is_some());
    assert!(expert_cmd.unwrap().title.contains("off"));
}
#[test]
fn test_commands_set_refresh_interval() {
    let state = PaletteState::new(&UiConfig::default(), &SafetyConfig::default());
    // Find a "Set refresh: 5s" command
    let refresh_cmd = state
        .commands
        .iter()
        .find(|c| matches!(c.command, PaletteCommand::SetRefreshInterval(5)));
    assert!(refresh_cmd.is_some());
    assert_eq!(refresh_cmd.unwrap().title, "Set refresh: 5s");
}

#[test]
fn test_commands_jobs_sort_options() {
    let state = PaletteState::new(&UiConfig::default(), &SafetyConfig::default());
    // Check that all sort options are present
    let sort_options = [
        "State priority (default)",
        "State",
        "Time used",
        "CPUs",
        "QOS",
    ];
    for label in sort_options {
        let found = state
            .commands
            .iter()
            .any(|c| c.title == format!("Jobs default sort: {}", label));
        assert!(found, "Missing sort option: {}", label);
    }
}

#[test]
fn test_discover_false_commands_hidden() {
    let state = PaletteState::new(&UiConfig::default(), &SafetyConfig::default());
    // With empty search, discover=false commands should not be in filtered
    for &idx in &state.filtered {
        assert!(
            state.commands[idx].discover,
            "Non-discoverable command '{}' shown without search",
            state.commands[idx].title
        );
    }
}

#[test]
fn test_discover_false_commands_shown_with_search() {
    let mut state = PaletteState::new(&UiConfig::default(), &SafetyConfig::default());
    // Search for "Set refresh" which should show discover=false commands
    state.search_query = "Set refresh".to_string();
    state.update_filter();
    // Should find at least one "Set refresh: Xs" command
    let found = state
        .filtered
        .iter()
        .any(|&idx| state.commands[idx].title.starts_with("Set refresh:"));
    assert!(
        found,
        "Discover=false 'Set refresh' commands not shown when searched"
    );
}

#[test]
fn test_investigate_commands_present() {
    let state = PaletteState::new(&UiConfig::default(), &SafetyConfig::default());
    // Check investigation commands exist
    let job_inv = state
        .commands
        .iter()
        .any(|c| matches!(c.command, PaletteCommand::InvestigateJobById));
    let node_inv = state
        .commands
        .iter()
        .any(|c| matches!(c.command, PaletteCommand::InvestigateNodeByName));
    assert!(job_inv, "Missing InvestigateJobById command");
    assert!(node_inv, "Missing InvestigateNodeByName command");
}

#[test]
fn test_reload_config_command_present() {
    let state = PaletteState::new(&UiConfig::default(), &SafetyConfig::default());
    let reload_cmd = state
        .commands
        .iter()
        .any(|c| matches!(c.command, PaletteCommand::ReloadConfig));
    assert!(reload_cmd, "Missing ReloadConfig command");
}

#[test]
fn test_filter_case_insensitive() {
    let mut state = PaletteState::new(&UiConfig::default(), &SafetyConfig::default());
    // Search with different case
    state.search_query = "EXPERT".to_string();
    state.update_filter();
    // Should find "Expert mode" command
    let found = state
        .filtered
        .iter()
        .any(|&idx| state.commands[idx].title.to_lowercase().contains("expert"));
    assert!(found, "Case-insensitive search failed");
}
#[test]
fn test_investigate_job_command() {
    let state = PaletteState::new(&UiConfig::default(), &SafetyConfig::default());
    // Find the InvestigateJobById command
    let cmd = state.commands.iter()
        .find(|c| matches!(c.command, PaletteCommand::InvestigateJobById));
    assert!(cmd.is_some(), "InvestigateJobById command not found");
    assert_eq!(cmd.unwrap().title, "Investigate job by ID");
    assert!(!cmd.unwrap().discover, "Investigation command should be discover=false");
}

#[test]
fn test_investigate_node_command() {
    let state = PaletteState::new(&UiConfig::default(), &SafetyConfig::default());
    // Find the InvestigateNodeByName command
    let cmd = state.commands.iter()
        .find(|c| matches!(c.command, PaletteCommand::InvestigateNodeByName));
    assert!(cmd.is_some(), "InvestigateNodeByName command not found");
    assert_eq!(cmd.unwrap().title, "Investigate node by name");
    assert!(!cmd.unwrap().discover, "Investigation command should be discover=false");
}

#[test]
fn test_execute_investigate_job_returns_correct_command() {
    let mut state = PaletteState::new(&UiConfig::default(), &SafetyConfig::default());
    // Search for "Investigate job"
    state.search_query = "Investigate job".to_string();
    state.update_filter();
    // Should find the command
    assert!(!state.filtered.is_empty(), "Should find investigation command");
    // Select and execute it
    state.table_state.select(Some(0));
    let key = KeyPress::plain(Key::Enter);
    let outcome = state.handle_key(key);
    match outcome {
        ModalOutcome::Dismiss(PaletteResult::Execute(PaletteCommand::InvestigateJobById)) => {
            // Success
        }
        _ => panic!("Expected InvestigateJobById command to be executed"),
    }
}

#[test]
fn test_execute_investigate_node_returns_correct_command() {
    let mut state = PaletteState::new(&UiConfig::default(), &SafetyConfig::default());
    // Search for "Investigate node"
    state.search_query = "Investigate node".to_string();
    state.update_filter();
    // Should find the command
    assert!(!state.filtered.is_empty(), "Should find investigation command");
    // Select and execute it
    state.table_state.select(Some(0));
    let key = KeyPress::plain(Key::Enter);
    let outcome = state.handle_key(key);
    match outcome {
        ModalOutcome::Dismiss(PaletteResult::Execute(PaletteCommand::InvestigateNodeByName)) => {
            // Success
        }
        _ => panic!("Expected InvestigateNodeByName command to be executed"),
    }
}
