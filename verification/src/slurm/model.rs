//! Shared domain types for the Slurm data layer.
//!
//! These form the contract between the parsers in `slurm` and the views.

use vstd::prelude::*;

verus! {

/// Normalized failure classes for Slurm CLI and SSH transport errors.
#[derive(Debug, Clone, Copy, PartialEq, Eq, Structural)]
pub enum ErrorCategory {
    SlurmCommandNotFound,
    SlurmCommandTimeout,
    SlurmCommandFailed,
    SlurmPermissionDenied,
    SlurmFieldUnavailable,
    SshConnectionFailed,
    SshAuthFailed,
    SshCommandTimeout,
    JobNotFound,
    NodeNotFound,
}

impl ErrorCategory {
    /// The stable wire name of each category.
    pub open spec fn wire_name(self) -> Seq<char> {
        match self {
            ErrorCategory::SlurmCommandNotFound => "slurm_command_not_found"@,
            ErrorCategory::SlurmCommandTimeout => "slurm_command_timeout"@,
            ErrorCategory::SlurmCommandFailed => "slurm_command_failed"@,
            ErrorCategory::SlurmPermissionDenied => "slurm_permission_denied"@,
            ErrorCategory::SlurmFieldUnavailable => "slurm_field_unavailable"@,
            ErrorCategory::SshConnectionFailed => "ssh_connection_failed"@,
            ErrorCategory::SshAuthFailed => "ssh_auth_failed"@,
            ErrorCategory::SshCommandTimeout => "ssh_command_timeout"@,
            ErrorCategory::JobNotFound => "job_not_found"@,
            ErrorCategory::NodeNotFound => "node_not_found"@,
        }
    }

    /// Stable wire name of the category.
    pub fn as_str(self) -> (s: &'static str)
        ensures
            s@ == self.wire_name(),
    {
        match self {
            ErrorCategory::SlurmCommandNotFound => "slurm_command_not_found",
            ErrorCategory::SlurmCommandTimeout => "slurm_command_timeout",
            ErrorCategory::SlurmCommandFailed => "slurm_command_failed",
            ErrorCategory::SlurmPermissionDenied => "slurm_permission_denied",
            ErrorCategory::SlurmFieldUnavailable => "slurm_field_unavailable",
            ErrorCategory::SshConnectionFailed => "ssh_connection_failed",
            ErrorCategory::SshAuthFailed => "ssh_auth_failed",
            ErrorCategory::SshCommandTimeout => "ssh_command_timeout",
            ErrorCategory::JobNotFound => "job_not_found",
            ErrorCategory::NodeNotFound => "node_not_found",
        }
    }
}

/// One recorded Slurm CLI invocation, surfaced by the Health view.
#[derive(Debug, Clone, PartialEq, Eq)]
pub struct CommandStat {
    pub command: String,
    pub ok: bool,
    pub latency_ms: u64,
    pub stderr: String,
    pub error_category: Option<ErrorCategory>,
}

/// Outcome of a single job action (cancel, hold, release, requeue).
#[derive(Debug, Clone, PartialEq, Eq)]
pub struct ActionResult {
    pub job_id: String,
    pub action: String,
    pub ok: bool,
    pub message: String,
}

/// One queue entry, parsed from `squeue`.
#[derive(Debug, Clone, Default, PartialEq, Eq)]
pub struct Job {
    pub job_id: String,
    pub name: String,
    pub user: String,
    pub state: String,
    pub partition: String,
    pub nodes: String,
    pub num_nodes: String,
    pub num_cpus: String,
    pub time_used: String,
    pub time_limit: String,
    pub reason: String,
    pub nodelist: String,
    pub qos: String,
}

/// One compute node, parsed from `sinfo` and enriched from `scontrol`.
#[derive(Debug, Clone, Default, PartialEq, Eq)]
pub struct Node {
    pub name: String,
    pub state: String,
    pub partition: String,
    pub cpus_total: String,
    pub cpus_alloc: String,
    pub memory_total: String,
    pub memory_free: String,
    pub load: String,
    pub gpu_total: u32,
    pub gpu_alloc: u32,
}

/// One partition row, parsed from `sinfo`.
#[derive(Debug, Clone, Default, PartialEq, Eq)]
pub struct ClusterSummary {
    pub partition: String,
    pub avail: String,
    pub timelimit: String,
    pub nodes: String,
    pub state: String,
    pub nodelist: String,
}

/// One accounting row, parsed from `sacct`.
#[derive(Debug, Clone, Default, PartialEq, Eq)]
pub struct SacctJob {
    pub job_id: String,
    pub name: String,
    pub user: String,
    pub state: String,
    pub num_cpus: String,
    pub elapsed: String,
    pub exit_code: String,
    pub partition: String,
}

} // verus!
