use sqtop::slurm::exec::{
    classify_error, run_bulk_job_action, run_job_action, shell_quote, CommandSource, Runner,
};
use sqtop::slurm::model::ErrorCategory;

// ── classify_error: table-driven ─────────────────────────────────────────

#[test]
fn test_classify_error_success() {
    assert_eq!(classify_error(Some(0), ""), None);
    assert_eq!(classify_error(Some(0), "warning: foo"), None);
}

#[test]
fn test_classify_error_exception_path() {
    assert_eq!(
        classify_error(None, "timeout"),
        Some(ErrorCategory::SlurmCommandTimeout)
    );
    assert_eq!(
        classify_error(None, "command not found"),
        Some(ErrorCategory::SlurmCommandNotFound)
    );
    assert_eq!(
        classify_error(None, "OS error: too many open files"),
        Some(ErrorCategory::SlurmCommandFailed)
    );
}

#[test]
fn test_classify_error_permission_denied() {
    assert_eq!(
        classify_error(Some(1), "scancel: error: Permission denied"),
        Some(ErrorCategory::SlurmPermissionDenied)
    );
    assert_eq!(
        classify_error(Some(1), "user unauthorized"),
        Some(ErrorCategory::SlurmPermissionDenied)
    );
    assert_eq!(
        classify_error(Some(1), "operation not allowed"),
        Some(ErrorCategory::SlurmPermissionDenied)
    );
}

#[test]
fn test_classify_error_ssh_connection() {
    assert_eq!(
        classify_error(Some(255), "ssh: connect to host x: Connection refused"),
        Some(ErrorCategory::SshConnectionFailed)
    );
    assert_eq!(
        classify_error(Some(255), "ssh: Could not resolve hostname x"),
        Some(ErrorCategory::SshConnectionFailed)
    );
    assert_eq!(
        classify_error(Some(255), "Connection closed by remote host"),
        Some(ErrorCategory::SshConnectionFailed)
    );
}

#[test]
fn test_classify_error_ssh_auth_priority() {
    // Must be ssh_auth_failed even though stderr contains "Permission denied"
    assert_eq!(
        classify_error(Some(255), "Permission denied (publickey)."),
        Some(ErrorCategory::SshAuthFailed)
    );
    assert_eq!(
        classify_error(Some(1), "authentication failed"),
        Some(ErrorCategory::SshAuthFailed)
    );
}

#[test]
fn test_classify_error_timeout() {
    assert_eq!(
        classify_error(Some(1), "timeout waiting for response"),
        Some(ErrorCategory::SlurmCommandTimeout)
    );
}

#[test]
fn test_classify_error_job_not_found() {
    assert_eq!(
        classify_error(Some(1), "scontrol: error: Invalid job id 9999"),
        Some(ErrorCategory::JobNotFound)
    );
    assert_eq!(
        classify_error(Some(1), "job not found"),
        Some(ErrorCategory::JobNotFound)
    );
    assert_eq!(
        classify_error(Some(1), "unknown job specification"),
        Some(ErrorCategory::JobNotFound)
    );
}

#[test]
fn test_classify_error_node_not_found() {
    assert_eq!(
        classify_error(Some(1), "scontrol: error: invalid node specification"),
        Some(ErrorCategory::NodeNotFound)
    );
    assert_eq!(
        classify_error(Some(1), "node not found"),
        Some(ErrorCategory::NodeNotFound)
    );
    assert_eq!(
        classify_error(Some(1), "unknown node specification"),
        Some(ErrorCategory::NodeNotFound)
    );
}

#[test]
fn test_classify_error_exit_127() {
    // sh -c returns 127 when command not found
    assert_eq!(
        classify_error(Some(127), "command not found"),
        Some(ErrorCategory::SlurmCommandNotFound)
    );
}

#[test]
fn test_classify_error_generic_failure() {
    assert_eq!(
        classify_error(Some(1), ""),
        Some(ErrorCategory::SlurmCommandFailed)
    );
    assert_eq!(
        classify_error(Some(2), "some opaque slurm message"),
        Some(ErrorCategory::SlurmCommandFailed)
    );
}

// ── Runner ───────────────────────────────────────────────────────────────
//
// The runner keeps the SSH target and the command history; the process
// itself is started by the application, which hands the runner what the
// process gave back. These tests hand it what `sh -c` gives for each command.

/// What `sh -c` gives back for `echo <text>`.
fn echoed(text: &str) -> Result<(String, Option<i32>, String), String> {
    Ok((format!("{}\n", text), Some(0), String::new()))
}

/// A command source that never gets asked: actions it is given are refused
/// before anything runs.
struct Unused;

impl CommandSource for Unused {
    fn run_result(&mut self, cmd: &str) -> (String, bool, String) {
        panic!("unexpected command: {}", cmd)
    }
}

#[test]
fn test_runner_new() {
    let runner = Runner::new();
    assert_eq!(runner.history(10).len(), 0);
}

#[test]
fn test_runner_set_remote() {
    let mut runner = Runner::new();
    runner.set_remote("host".to_string(), "key".to_string());
    assert_eq!(runner.ssh_host(), Some("host".to_string()));
    assert_eq!(runner.ssh_key(), Some("key".to_string()));

    // Clear with empty strings
    runner.set_remote("".to_string(), "".to_string());
    assert_eq!(runner.ssh_host(), None);
    assert_eq!(runner.ssh_key(), None);
}

#[test]
fn test_runner_run_result_success() {
    let mut runner = Runner::new();
    let (stdout, ok, stderr) = runner.record_outcome("echo hello", 1, echoed("hello"));
    assert!(ok);
    assert!(stdout.contains("hello"));
    assert!(stderr.is_empty());

    let history = runner.history(1);
    assert_eq!(history.len(), 1);
    assert!(history[0].ok);
    assert_eq!(history[0].error_category, None);
}

#[test]
fn test_runner_run_result_failure() {
    let mut runner = Runner::new();
    let (_, ok, _) = runner.record_outcome("false", 1, Ok((String::new(), Some(1), String::new())));
    assert!(!ok);

    let history = runner.history(1);
    assert_eq!(history.len(), 1);
    assert!(!history[0].ok);
    assert_eq!(
        history[0].error_category,
        Some(ErrorCategory::SlurmCommandFailed)
    );
}

#[test]
fn test_runner_run_wrapper() {
    let mut runner = Runner::new();
    let (stdout, _, _) = runner.record_outcome("echo test", 1, echoed("test"));
    assert!(stdout.contains("test"));
}

#[test]
fn test_runner_history_limit() {
    let mut runner = Runner::new();
    // Record 5 commands
    for i in 0..5 {
        let cmd = format!("echo {}", i);
        runner.record_outcome(&cmd, 1, echoed(&i.to_string()));
    }
    assert_eq!(runner.history(0).len(), 0);
    assert_eq!(runner.history(2).len(), 2);
    assert_eq!(runner.history(10).len(), 5);
}

#[test]
fn test_runner_history_bounded() {
    let mut runner = Runner::new();
    // Record 150 commands, only last 100 should remain
    for i in 0..150 {
        let cmd = format!("echo {}", i);
        runner.record_outcome(&cmd, 1, echoed(&i.to_string()));
    }
    let history = runner.history(200);
    assert_eq!(history.len(), 100);
    // The first command should be "echo 50" (we dropped 0..49)
    assert!(history[0].command.contains("echo 50"));
}

#[test]
fn test_runner_command_not_found() {
    let mut runner = Runner::new();
    let (_, ok, stderr) = runner.record_outcome(
        "nonexistent_command_xyz",
        1,
        Ok((
            String::new(),
            Some(127),
            "sh: 1: nonexistent_command_xyz: not found\n".to_string(),
        )),
    );
    assert!(!ok);
    let history = runner.history(1);
    assert_eq!(history.len(), 1);
    // Should be classified as command not found
    assert_eq!(
        history[0].error_category,
        Some(ErrorCategory::SlurmCommandNotFound)
    );
    assert!(stderr.contains("not found"));
}

// ── Action functions ─────────────────────────────────────────────────────

#[test]
fn test_run_job_action_unsupported() {
    let result = run_job_action(&mut Unused, "noop", "100");
    assert!(!result.ok);
    assert!(result.message.contains("unsupported"));
}

#[test]
fn test_run_bulk_job_action() {
    let job_ids = vec!["1".to_string(), "2".to_string(), "3".to_string()];
    let results = run_bulk_job_action(&mut Unused, "noop", &job_ids);
    assert_eq!(results.len(), 3);
    assert!(results.iter().all(|r| !r.ok));
}

#[test]
fn test_shell_quote_simple() {
    assert_eq!(shell_quote("abc123"), "abc123");
    assert_eq!(shell_quote("job_id"), "job_id");
}

#[test]
fn test_shell_quote_with_spaces() {
    assert_eq!(shell_quote("hello world"), "'hello world'");
}

#[test]
fn test_shell_quote_with_single_quote() {
    assert_eq!(shell_quote("it's"), "'it'\\''s'");
}

#[test]
fn test_shell_quote_empty() {
    assert_eq!(shell_quote(""), "''");
}


#[test]
fn test_runner_large_output_no_deadlock() {
    // A command whose output exceeds a pipe buffer (~64 KB): the runner hands
    // the full 500 KB of output back unchanged.
    let mut runner = Runner::new();
    let big = "x".repeat(500000);
    let (stdout, ok, stderr) = runner.record_outcome(
        "head -c 500000 /dev/zero | tr '\\0' 'x'",
        1,
        Ok((big, Some(0), String::new())),
    );
    assert!(
        ok,
        "large output command should succeed, got stderr: {}",
        stderr
    );
    assert_eq!(stdout.len(), 500000, "should receive full 500 KB output");
}
