use sqtop::config::AttachConfig;
use sqtop::views::detail::attach_prompt::AttachPromptScreen;
use sqtop::views::detail::Outcome;
use sqtop::views::keys::{Key, KeyPress};

#[test]
fn test_check_enabled_when_true() {
    let config = AttachConfig {
        enabled: true,
        default_command: "bash".to_string(),
        extra_args: "".to_string(),
    };
    assert!(AttachPromptScreen::check_enabled(&config).is_ok());
}

#[test]
fn test_check_enabled_when_false() {
    let config = AttachConfig {
        enabled: false,
        default_command: "bash".to_string(),
        extra_args: "".to_string(),
    };
    let result = AttachPromptScreen::check_enabled(&config);
    assert!(result.is_err());
    assert!(result.unwrap_err().contains("disabled"));
}

#[test]
fn test_build_command_with_node_and_extra_args() {
    let config = AttachConfig {
        enabled: true,
        default_command: "bash -l".to_string(),
        extra_args: "--mpi=none".to_string(),
    };
    let mut screen = AttachPromptScreen::new("job123".to_string(), "c1".to_string());
    screen.set_input("c2".to_string());

    let cmd = screen.build_command("12345", &config);
    assert_eq!(
        cmd,
        vec![
            "srun",
            "--pty",
            "--overlap",
            "--mpi=none",
            "--jobid",
            "12345",
            "-w",
            "c2",
            "bash",
            "-l",
        ]
    );
}

#[test]
fn test_build_command_without_node() {
    let config = AttachConfig {
        enabled: true,
        default_command: "bash -l".to_string(),
        extra_args: "".to_string(),
    };
    let mut screen = AttachPromptScreen::new("job123".to_string(), "".to_string());
    screen.set_input("".to_string());

    let cmd = screen.build_command("12345", &config);
    assert!(!cmd.contains(&"-w".to_string()));
    assert!(cmd.contains(&"bash".to_string()));
    assert!(cmd.contains(&"12345".to_string()));
}

#[test]
fn test_build_command_with_whitespace_node_treated_as_empty() {
    let config = AttachConfig {
        enabled: true,
        default_command: "bash".to_string(),
        extra_args: "".to_string(),
    };
    let mut screen = AttachPromptScreen::new("job123".to_string(), "".to_string());
    screen.set_input("   ".to_string());

    let cmd = screen.build_command("12345", &config);
    assert!(!cmd.contains(&"-w".to_string()));
}

#[test]
fn test_build_command_honors_default_command_from_config() {
    let config = AttachConfig {
        enabled: true,
        default_command: "zsh -l".to_string(),
        extra_args: "".to_string(),
    };
    let screen = AttachPromptScreen::new("job123".to_string(), "".to_string());

    let cmd = screen.build_command("12345", &config);
    assert!(cmd.contains(&"zsh".to_string()));
    assert!(cmd.contains(&"-l".to_string()));
}

#[test]
fn test_build_command_honors_extra_args_from_config() {
    let config = AttachConfig {
        enabled: true,
        default_command: "bash".to_string(),
        extra_args: "--exclusive --mpi=pmi2".to_string(),
    };
    let screen = AttachPromptScreen::new("job123".to_string(), "".to_string());

    let cmd = screen.build_command("12345", &config);
    assert!(cmd.contains(&"--exclusive".to_string()));
    assert!(cmd.contains(&"--mpi=pmi2".to_string()));
}

#[test]
fn test_handle_key_enter_returns_value() {
    let mut screen = AttachPromptScreen::new("job123".to_string(), "node01".to_string());
    screen.set_input("node02".to_string());

    let outcome = screen.handle_key(KeyPress::plain(Key::Enter));
    assert_eq!(outcome, Outcome::Value("node02".to_string()));
}

#[test]
fn test_handle_key_esc_closes() {
    let mut screen = AttachPromptScreen::new("job123".to_string(), "".to_string());
    let outcome = screen.handle_key(KeyPress::plain(Key::Esc));
    assert_eq!(outcome, Outcome::Close);
}

#[test]
fn test_handle_key_char_appends_to_input() {
    let mut screen = AttachPromptScreen::new("job123".to_string(), "".to_string());
    screen.set_input(String::new());

    screen.handle_key(KeyPress::plain(Key::Char('c')));
    screen.handle_key(KeyPress::plain(Key::Char('1')));
    assert_eq!(screen.input(), "c1");
}

#[test]
fn test_handle_key_backspace_removes_char() {
    let mut screen = AttachPromptScreen::new("job123".to_string(), "".to_string());
    screen.set_input("abc".to_string());

    screen.handle_key(KeyPress::plain(Key::Backspace));
    assert_eq!(screen.input(), "ab");
}
