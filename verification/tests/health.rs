use sqtop::slurm::exec::Runner;
use sqtop::slurm::model::ErrorCategory;
use sqtop::views::health::{format_error_category, truncate_stderr};

#[test]
fn test_format_error_category_all_variants() {
    // Verify ErrorCategory::as_str() matches expected snake_case strings exactly
    assert_eq!(
        format_error_category(&Some(ErrorCategory::SlurmCommandNotFound)),
        "slurm_command_not_found"
    );
    assert_eq!(
        format_error_category(&Some(ErrorCategory::SlurmCommandTimeout)),
        "slurm_command_timeout"
    );
    assert_eq!(
        format_error_category(&Some(ErrorCategory::SlurmCommandFailed)),
        "slurm_command_failed"
    );
    assert_eq!(
        format_error_category(&Some(ErrorCategory::SlurmPermissionDenied)),
        "slurm_permission_denied"
    );
    assert_eq!(
        format_error_category(&Some(ErrorCategory::SlurmFieldUnavailable)),
        "slurm_field_unavailable"
    );
    assert_eq!(
        format_error_category(&Some(ErrorCategory::SshConnectionFailed)),
        "ssh_connection_failed"
    );
    assert_eq!(
        format_error_category(&Some(ErrorCategory::SshAuthFailed)),
        "ssh_auth_failed"
    );
    assert_eq!(
        format_error_category(&Some(ErrorCategory::SshCommandTimeout)),
        "ssh_command_timeout"
    );
    assert_eq!(
        format_error_category(&Some(ErrorCategory::JobNotFound)),
        "job_not_found"
    );
    assert_eq!(
        format_error_category(&Some(ErrorCategory::NodeNotFound)),
        "node_not_found"
    );
}

#[test]
fn test_format_error_category_none() {
    assert_eq!(format_error_category(&None), "");
}

#[test]
fn test_truncate_stderr_under_40() {
    assert_eq!(truncate_stderr("short error"), "short error");
}

#[test]
fn test_truncate_stderr_exactly_40() {
    let s = "a".repeat(40);
    assert_eq!(truncate_stderr(&s), s);
}

#[test]
fn test_truncate_stderr_over_40() {
    let s = "a".repeat(50);
    assert_eq!(truncate_stderr(&s), format!("{}...", "a".repeat(40)));
}

#[test]
fn test_truncate_stderr_41_chars() {
    let s = "a".repeat(41);
    assert_eq!(truncate_stderr(&s), format!("{}...", "a".repeat(40)));
}

#[test]
fn test_health_view_100_entry_cap() {
    // The health view reads the runner's history, which keeps at most 100 entries.
    let mut runner = Runner::new();

    // Record 150 commands in the history
    for i in 0..150 {
        let cmd = format!("echo test{}", i);
        runner.record_outcome(&cmd, 1, Ok((format!("test{}\n", i), Some(0), String::new())));
    }

    // Health view requests history(100)
    let stats = runner.history(100);

    // Should cap at 100 entries
    assert!(stats.len() <= 100);
}
