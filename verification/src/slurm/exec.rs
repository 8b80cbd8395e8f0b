//! Command construction, error classification, command history, and job actions.
//!
//! Running a process is the caller's business: `Runner` decides what to run
//! (`command_args`) and records what came back (`record_outcome`); the
//! `CommandSource` trait is how the actions and investigations reach a shell.

use crate::slurm::model::{ActionResult, CommandStat, ErrorCategory};
use crate::text::{
    all_ascii, ascii_lower, ascii_upper, chars_of, concat, contains, contains_seq, lowercase, push_str, to_lower, to_string, trim,
    trim_seq, is_blank, str_eq,
};
use vstd::prelude::*;

verus! {

// ── Error classification ────────────────────────────────────────────────────

/// The category of a failed command, from its exit code and its stderr
/// lowercased as `lower`; `None` for exit code 0.
pub open spec fn classify_spec(code: Option<i32>, lower: Seq<char>) -> Option<ErrorCategory> {
    if code == Some(0i32) {
        None
    } else if code is None {
        if contains_seq(lower, "timeout"@) {
            Some(ErrorCategory::SlurmCommandTimeout)
        } else if contains_seq(lower, "not found"@) {
            Some(ErrorCategory::SlurmCommandNotFound)
        } else {
            Some(ErrorCategory::SlurmCommandFailed)
        }
    } else if code == Some(127i32) {
        Some(ErrorCategory::SlurmCommandNotFound)
    } else if contains_seq(lower, "publickey"@) || contains_seq(lower, "authentication failed"@) {
        Some(ErrorCategory::SshAuthFailed)
    } else if contains_seq(lower, "permission denied"@) || contains_seq(lower, "unauthorized"@)
        || contains_seq(lower, "not allowed"@) {
        Some(ErrorCategory::SlurmPermissionDenied)
    } else if contains_seq(lower, "connection refused"@) || contains_seq(
        lower,
        "could not resolve hostname"@,
    ) || contains_seq(lower, "connection closed"@) {
        Some(ErrorCategory::SshConnectionFailed)
    } else if contains_seq(lower, "timeout"@) {
        Some(ErrorCategory::SlurmCommandTimeout)
    } else if contains_seq(lower, "invalid job id"@) || contains_seq(lower, "job not found"@)
        || contains_seq(lower, "unknown job"@) {
        Some(ErrorCategory::JobNotFound)
    } else if contains_seq(lower, "invalid node"@) || contains_seq(lower, "node not found"@)
        || contains_seq(lower, "unknown node"@) {
        Some(ErrorCategory::NodeNotFound)
    } else {
        Some(ErrorCategory::SlurmCommandFailed)
    }
}

/// Success is exactly exit code 0, and the category of an ASCII stderr does
/// not depend on its letter case: the text and its ASCII uppercase or
/// lowercase form are classified alike.
pub proof fn lemma_classify_ignores_case(code: Option<i32>, s: Seq<char>)
    requires
        all_ascii(s),
    ensures
        (classify_spec(code, ascii_lower(s)) is None) <==> code == Some(0i32),
        all_ascii(ascii_upper(s)) && all_ascii(ascii_lower(s)),
        classify_spec(code, ascii_lower(ascii_upper(s))) == classify_spec(code, ascii_lower(s)),
        classify_spec(code, ascii_lower(ascii_lower(s))) == classify_spec(code, ascii_lower(s)),
{
    assert(ascii_lower(ascii_upper(s)) =~= ascii_lower(s));
    assert(ascii_lower(ascii_lower(s)) =~= ascii_lower(s));
    assert forall|i: int| 0 <= i < ascii_upper(s).len() implies (#[trigger] ascii_upper(s)[i] as int) < 128 by {
        assert((s[i] as int) < 128);
    }
    assert forall|i: int| 0 <= i < ascii_lower(s).len() implies (#[trigger] ascii_lower(s)[i] as int) < 128 by {
        assert((s[i] as int) < 128);
    }
}

/// Success is exactly exit code 0, whatever the text.
pub proof fn lemma_classify_none_iff_success(code: Option<i32>, text: Seq<char>)
    ensures
        (classify_spec(code, text) is None) <==> code == Some(0i32),
{
}

/// Classify a command failure into a normalized error category.
///
/// Returns `None` on success (exit code 0), `Some(ErrorCategory)` otherwise.
/// An exit code of `None` means the command could not be run or timed out.
/// The category does not depend on letter case: the text, its ASCII
/// uppercase form and its ASCII lowercase form are classified alike.
pub fn classify_error(code: Option<i32>, stderr: &str) -> (r: Option<ErrorCategory>)
    ensures
        r == classify_spec(code, lowercase(stderr@)),
        r == classify_spec(code, lowercase(ascii_upper(stderr@))),
        r == classify_spec(code, lowercase(ascii_lower(stderr@))),
        all_ascii(stderr@) ==> r == classify_spec(code, ascii_lower(stderr@)),
{
    if code == Some(0i32) {
        return None;
    }
    let lower = to_lower(stderr);
    let text = lower.as_str();
    if code.is_none() {
        if contains(text, "timeout") {
            return Some(ErrorCategory::SlurmCommandTimeout);
        }
        if contains(text, "not found") {
            return Some(ErrorCategory::SlurmCommandNotFound);
        }
        return Some(ErrorCategory::SlurmCommandFailed);
    }
    if code == Some(127i32) {
        return Some(ErrorCategory::SlurmCommandNotFound);
    }
    if contains(text, "publickey") || contains(text, "authentication failed") {
        return Some(ErrorCategory::SshAuthFailed);
    }
    if contains(text, "permission denied") || contains(text, "unauthorized") || contains(
        text,
        "not allowed",
    ) {
        return Some(ErrorCategory::SlurmPermissionDenied);
    }
    if contains(text, "connection refused") || contains(text, "could not resolve hostname")
        || contains(text, "connection closed") {
        return Some(ErrorCategory::SshConnectionFailed);
    }
    if contains(text, "timeout") {
        return Some(ErrorCategory::SlurmCommandTimeout);
    }
    if contains(text, "invalid job id") || contains(text, "job not found") || contains(
        text,
        "unknown job",
    ) {
        return Some(ErrorCategory::JobNotFound);
    }
    if contains(text, "invalid node") || contains(text, "node not found") || contains(
        text,
        "unknown node",
    ) {
        return Some(ErrorCategory::NodeNotFound);
    }
    Some(ErrorCategory::SlurmCommandFailed)
}

// ── Runner: remote target and bounded history ──────────────────────────────

/// Number of command records the history keeps.
pub const HISTORY_CAP: usize = 100;

/// A field copy of a command record.
pub fn copy_stat(s: &CommandStat) -> (r: CommandStat)
    ensures
        r == *s,
{
    CommandStat {
        command: s.command.clone(),
        ok: s.ok,
        latency_ms: s.latency_ms,
        stderr: s.stderr.clone(),
        error_category: s.error_category,
    }
}

/// Slurm command target (local shell or SSH host) with a bounded command history.
pub struct Runner {
    ssh_host: Option<String>,
    ssh_key: Option<String>,
    history: Vec<CommandStat>,
}

/// The SSH host or key held for a trimmed setting: `None` when it is blank.
pub open spec fn remote_setting(s: Seq<char>) -> Option<Seq<char>> {
    if trim_seq(s).len() == 0 {
        None
    } else {
        Some(trim_seq(s))
    }
}

/// The history after recording `stat`: the oldest record leaves once the
/// history holds `HISTORY_CAP` records.
pub open spec fn history_after(h: Seq<CommandStat>, stat: CommandStat) -> Seq<CommandStat> {
    if h.len() >= HISTORY_CAP {
        h.drop_first().push(stat)
    } else {
        h.push(stat)
    }
}

/// The last `limit` records of `h` (all of them when there are fewer).
pub open spec fn history_tail(h: Seq<CommandStat>, limit: nat) -> Seq<CommandStat> {
    if h.len() <= limit {
        h
    } else {
        h.skip(h.len() - limit)
    }
}

impl Runner {
    /// The recorded commands, oldest first.
    pub closed spec fn records(&self) -> Seq<CommandStat> {
        self.history@
    }

    /// The SSH host, if remoting is configured.
    pub closed spec fn host(&self) -> Option<Seq<char>> {
        match self.ssh_host {
            Some(h) => Some(h@),
            None => None,
        }
    }

    /// The SSH key path, if one is configured.
    pub closed spec fn key(&self) -> Option<Seq<char>> {
        match self.ssh_key {
            Some(k) => Some(k@),
            None => None,
        }
    }

    #[verifier::type_invariant]
    spec fn bounded(&self) -> bool {
        self.history@.len() <= HISTORY_CAP
    }

    /// A runner with no SSH target and an empty history.
    pub fn new() -> (r: Self)
        ensures
            r.records() == Seq::<CommandStat>::empty(),
            r.host() is None,
            r.key() is None,
    {
        Runner { ssh_host: None, ssh_key: None, history: Vec::new() }
    }

    /// Configure SSH remoting.  Values are trimmed; blank values clear the setting.
    pub fn set_remote(&mut self, host: String, key: String)
        ensures
            final(self).host() == remote_setting(host@),
            final(self).key() == remote_setting(key@),
            final(self).records() == old(self).records(),
    {
        proof {
            use_type_invariant(&*self);
        }
        let h = trim(host.as_str());
        let k = trim(key.as_str());
        self.ssh_host = if h.as_str().is_empty() {
            None
        } else {
            Some(h)
        };
        self.ssh_key = if k.as_str().is_empty() {
            None
        } else {
            Some(k)
        };
    }

    /// The configured SSH host.
    pub fn ssh_host(&self) -> (r: Option<String>)
        ensures
            match r {
                Some(h) => Some(h@),
                None => None,
            } == self.host(),
    {
        match &self.ssh_host {
            Some(h) => Some(h.clone()),
            None => None,
        }
    }

    /// The configured SSH key path.
    pub fn ssh_key(&self) -> (r: Option<String>)
        ensures
            match r {
                Some(k) => Some(k@),
                None => None,
            } == self.key(),
    {
        match &self.ssh_key {
            Some(k) => Some(k.clone()),
            None => None,
        }
    }

    /// The program and arguments that run `cmd`: through `sh -c` locally, or
    /// through `ssh` in batch mode when a host is configured.
    pub fn command_args(&self, cmd: &str) -> (r: Vec<String>)
        ensures
            r.deep_view() == command_args_spec(self.host(), self.key(), cmd@),
    {
        let mut args: Vec<String> = Vec::new();
        match &self.ssh_host {
            Some(host) => {
                args.push(to_string("ssh"));
                args.push(to_string("-q"));
                args.push(to_string("-o"));
                args.push(to_string("BatchMode=yes"));
                args.push(to_string("-o"));
                args.push(to_string("ConnectTimeout=8"));
                match &self.ssh_key {
                    Some(key) => {
                        args.push(to_string("-i"));
                        args.push(key.clone());
                    },
                    None => {},
                }
                args.push(host.clone());
                args.push(to_string(cmd));
            },
            None => {
                args.push(to_string("sh"));
                args.push(to_string("-c"));
                args.push(to_string(cmd));
            },
        }
        assert(args.deep_view() =~= command_args_spec(self.host(), self.key(), cmd@));
        args
    }

    /// Records one command outcome.
    pub fn record_command(
        &mut self,
        command: &str,
        ok: bool,
        latency_ms: u64,
        stderr: String,
        error_category: Option<ErrorCategory>,
    )
        ensures
            final(self).records() == history_after(
                old(self).records(),
                CommandStat {
                    command: final(self).records().last().command,
                    ok,
                    latency_ms,
                    stderr,
                    error_category,
                },
            ),
            final(self).records().last().command@ == command@,
            final(self).host() == old(self).host(),
            final(self).key() == old(self).key(),
    {
        proof {
            use_type_invariant(&*self);
        }
        let stat = CommandStat {
            command: to_string(command),
            ok,
            latency_ms,
            stderr,
            error_category,
        };
        let mut h: Vec<CommandStat> = Vec::new();
        std::mem::swap(&mut h, &mut self.history);
        if h.len() >= HISTORY_CAP {
            h.remove(0);
        }
        h.push(stat);
        self.history = h;
        assert(self.history@.last() == stat);
    }

    /// Records what running `cmd` produced and returns `(stdout, ok, stderr)`.
    ///
    /// `outcome` is `Ok((stdout, exit_code, stderr))` when the process ran to
    /// completion and `Err(message)` when it could not be started or timed out.
    pub fn record_outcome(
        &mut self,
        cmd: &str,
        latency_ms: u64,
        outcome: Result<(String, Option<i32>, String), String>,
    ) -> (r: (String, bool, String))
        ensures
            ({
                let stat = final(self).records().last();
                &&& final(self).records() == history_after(old(self).records(), stat)
                &&& stat.command@ == cmd@
                &&& stat.latency_ms == latency_ms
                &&& stat.ok == r.1
                &&& stat.stderr@ == r.2@
                &&& match outcome {
                    Ok((out, code, err)) => {
                        &&& r.0 == out
                        &&& r.1 == (code == Some(0i32))
                        &&& r.2@ == trim_seq(err@)
                        &&& stat.error_category == classify_spec(code, lowercase(trim_seq(err@)))
                    },
                    Err(msg) => {
                        &&& r.0@ == Seq::<char>::empty()
                        &&& !r.1
                        &&& r.2 == msg
                        &&& stat.error_category == classify_spec(None, lowercase(msg@))
                    },
                }
            }),
            final(self).host() == old(self).host(),
            final(self).key() == old(self).key(),
    {
        match outcome {
            Ok((stdout, exit_code, stderr)) => {
                let stderr_trimmed = trim(stderr.as_str());
                let ok = exit_code == Some(0i32);
                let category = classify_error(exit_code, stderr_trimmed.as_str());
                self.record_command(cmd, ok, latency_ms, stderr_trimmed.clone(), category);
                (stdout, ok, stderr_trimmed)
            },
            Err(msg) => {
                let category = classify_error(None, msg.as_str());
                self.record_command(cmd, false, latency_ms, msg.clone(), category);
                (String::new(), false, msg)
            },
        }
    }

    /// The last `limit` history entries, oldest first.
    pub fn history(&self, limit: usize) -> (r: Vec<CommandStat>)
        ensures
            r@ == history_tail(self.records(), limit as nat),
            r@.len() <= HISTORY_CAP,
    {
        proof {
            use_type_invariant(self);
        }
        let len = self.history.len();
        let start: usize = if len <= limit {
            0
        } else {
            len - limit
        };
        let mut out: Vec<CommandStat> = Vec::new();
        let mut i = start;
        while i < len
            invariant
                start <= i <= len,
                len == self.history@.len(),
                out@ == self.history@.subrange(start as int, i as int),
            decreases len - i,
        {
            out.push(copy_stat(&self.history[i]));
            assert(out@ =~= self.history@.subrange(start as int, i + 1));
            i = i + 1;
        }
        assert(self.history@.subrange(0, len as int) =~= self.history@);
        out
    }
}

/// The program and arguments that run `cmd` for the given remote settings.
pub open spec fn command_args_spec(
    host: Option<Seq<char>>,
    key: Option<Seq<char>>,
    cmd: Seq<char>,
) -> Seq<Seq<char>> {
    match host {
        Some(h) => {
            let base = seq!["ssh"@, "-q"@, "-o"@, "BatchMode=yes"@, "-o"@, "ConnectTimeout=8"@];
            let with_key = match key {
                Some(k) => base + seq!["-i"@, k],
                None => base,
            };
            with_key + seq![h, cmd]
        },
        None => seq!["sh"@, "-c"@, cmd],
    }
}

// ── Running commands ────────────────────────────────────────────────────────

/// A way to run Slurm commands.
///
/// The terminal app runs them through a `Runner`; tests answer with canned output.
pub trait CommandSource: Sized {
    /// Whether running `cmd` may have produced `(out, ok, err)`. A source
    /// that says nothing of its outcomes admits every one.
    open spec fn ran(&self, cmd: Seq<char>, out: Seq<char>, ok: bool, err: Seq<char>) -> bool {
        true
    }

    /// The commands run so far, oldest first, for a source that keeps such
    /// a log; `None` for one that does not.
    open spec fn log(&self) -> Option<Seq<Seq<char>>> {
        None
    }

    /// Execute a command, returning (stdout, ok, stderr). The command is
    /// added to the log, and what the source may answer stays the same.
    fn run_result(&mut self, cmd: &str) -> (r: (String, bool, String))
        ensures
            old(self).ran(cmd@, r.0@, r.1, r.2@),
            forall|c: Seq<char>, o: Seq<char>, k: bool, e: Seq<char>|
                #![trigger old(self).ran(c, o, k, e)]
                #![trigger final(self).ran(c, o, k, e)]
                old(self).ran(c, o, k, e) == final(self).ran(c, o, k, e),
            final(self).log() == log_after(old(self).log(), cmd@),
    ;

    /// Execute a command, returning stdout only (stderr discarded).
    fn run(&mut self, cmd: &str) -> (out: String)
        ensures
            exists|ok: bool, err: Seq<char>| old(self).ran(cmd@, out@, ok, err),
            forall|c: Seq<char>, o: Seq<char>, k: bool, e: Seq<char>|
                #![trigger old(self).ran(c, o, k, e)]
                #![trigger final(self).ran(c, o, k, e)]
                old(self).ran(c, o, k, e) == final(self).ran(c, o, k, e),
            final(self).log() == log_after(old(self).log(), cmd@),
    {
        let (stdout, _, _) = self.run_result(cmd);
        stdout
    }
}

/// The log after running `cmd`: the command is appended to a kept log.
pub open spec fn log_after(log: Option<Seq<Seq<char>>>, cmd: Seq<char>) -> Option<Seq<Seq<char>>> {
    match log {
        Some(l) => Some(l.push(cmd)),
        None => None,
    }
}

/// Whether two states of a source admit the same outcomes for every command.
pub open spec fn same_outcomes<S: CommandSource>(a: S, b: S) -> bool {
    forall|c: Seq<char>, o: Seq<char>, k: bool, e: Seq<char>|
        #![trigger a.ran(c, o, k, e)]
        #![trigger b.ran(c, o, k, e)]
        a.ran(c, o, k, e) == b.ran(c, o, k, e)
}

// ── Job actions ─────────────────────────────────────────────────────────────

/// Whether `c` needs no quoting in a shell word.
pub open spec fn shell_safe_char(c: char) -> bool {
    ('a' <= c && c <= 'z') || ('A' <= c && c <= 'Z') || ('0' <= c && c <= '9') || c == '_' || c
        == '-' || c == '.'
}

/// `s` with every `'` replaced by `'\''`.
pub open spec fn escape_quotes(s: Seq<char>) -> Seq<char>
    decreases s.len(),
{
    if s.len() == 0 {
        Seq::empty()
    } else {
        escape_quotes(s.drop_last()) + if s.last() == '\'' {
            seq!['\'', '\\', '\'', '\'']
        } else {
            seq![s.last()]
        }
    }
}

/// `s` as one shell word: `''` when empty, unchanged when every character is
/// safe, otherwise single-quoted with embedded quotes escaped.
pub open spec fn shell_quote_spec(s: Seq<char>) -> Seq<char> {
    if s.len() == 0 {
        "''"@
    } else if forall|k: int| 0 <= k < s.len() ==> shell_safe_char(#[trigger] s[k]) {
        s
    } else {
        seq!['\''] + escape_quotes(s) + seq!['\'']
    }
}

/// Minimal shell quoting (single quotes, escape embedded single quotes).
pub fn shell_quote(s: &str) -> (r: String)
    ensures
        r@ == shell_quote_spec(s@),
{
    let v = chars_of(s);
    if v.len() == 0 {
        return to_string("''");
    }
    let mut safe = true;
    let mut i: usize = 0;
    while i < v.len()
        invariant
            i <= v@.len(),
            safe == forall|k: int| 0 <= k < i ==> shell_safe_char(#[trigger] v@[k]),
        decreases v@.len() - i,
    {
        let c = v[i];
        let ok = ('a' <= c && c <= 'z') || ('A' <= c && c <= 'Z') || ('0' <= c && c <= '9') || c
            == '_' || c == '-' || c == '.';
        if !ok {
            safe = false;
        }
        i = i + 1;
    }
    if safe {
        return to_string(s);
    }
    let mut out = String::new();
    out.push('\'');
    let mut j: usize = 0;
    while j < v.len()
        invariant
            j <= v@.len(),
            out@ == seq!['\''] + escape_quotes(v@.subrange(0, j as int)),
        decreases v@.len() - j,
    {
        assert(v@.subrange(0, j + 1).drop_last() =~= v@.subrange(0, j as int));
        if v[j] == '\'' {
            push_str(&mut out, "'\\''");
            proof {
                reveal_strlit("'\\''");
            }
        } else {
            out.push(v[j]);
        }
        assert(out@ =~= seq!['\''] + escape_quotes(v@.subrange(0, j + 1)));
        j = j + 1;
    }
    out.push('\'');
    assert(v@.subrange(0, v@.len() as int) =~= v@);
    assert(out@ =~= seq!['\''] + escape_quotes(v@) + seq!['\'']);
    out
}

/// The command that performs `action` (already lowercased) on `job_id`, or
/// `None` for an unsupported action.
pub open spec fn action_command(action_lower: Seq<char>, job_id: Seq<char>) -> Option<Seq<char>> {
    if action_lower == "cancel"@ {
        Some("scancel "@ + shell_quote_spec(job_id))
    } else if action_lower == "hold"@ {
        Some("scontrol hold "@ + shell_quote_spec(job_id))
    } else if action_lower == "release"@ {
        Some("scontrol release "@ + shell_quote_spec(job_id))
    } else if action_lower == "requeue"@ {
        Some("scontrol requeue "@ + shell_quote_spec(job_id))
    } else {
        None
    }
}

/// Runs `verb` followed by the quoted job id, once.
fn job_command<S: CommandSource>(source: &mut S, verb: &str, job_id: &str) -> (r: (bool, String))
    ensures
        exists|out: Seq<char>| old(source).ran(verb@ + shell_quote_spec(job_id@), out, r.0, r.1@),
        same_outcomes(*old(source), *final(source)),
        final(source).log() == log_after(old(source).log(), verb@ + shell_quote_spec(job_id@)),
{
    let q = shell_quote(job_id);
    let cmd = concat(verb, q.as_str());
    let (out, ok, stderr) = source.run_result(cmd.as_str());
    let r = (ok, stderr);
    assert(old(source).ran(verb@ + shell_quote_spec(job_id@), out@, r.0, r.1@));
    r
}

/// Cancel a job with `scancel`, run once; returns `(ok, stderr)`.
pub fn cancel_job_result<S: CommandSource>(source: &mut S, job_id: &str) -> (r: (bool, String))
    ensures
        exists|out: Seq<char>| old(source).ran("scancel "@ + shell_quote_spec(job_id@), out, r.0, r.1@),
        same_outcomes(*old(source), *final(source)),
        final(source).log() == log_after(old(source).log(), "scancel "@ + shell_quote_spec(job_id@)),
{
    job_command(source, "scancel ", job_id)
}

/// Hold a job with `scontrol hold`, run once; returns `(ok, stderr)`.
pub fn hold_job_result<S: CommandSource>(source: &mut S, job_id: &str) -> (r: (bool, String))
    ensures
        exists|out: Seq<char>|
            old(source).ran("scontrol hold "@ + shell_quote_spec(job_id@), out, r.0, r.1@),
        same_outcomes(*old(source), *final(source)),
        final(source).log() == log_after(old(source).log(), "scontrol hold "@ + shell_quote_spec(job_id@)),
{
    job_command(source, "scontrol hold ", job_id)
}

/// Release a job with `scontrol release`, run once; returns `(ok, stderr)`.
pub fn release_job_result<S: CommandSource>(source: &mut S, job_id: &str) -> (r: (bool, String))
    ensures
        exists|out: Seq<char>|
            old(source).ran("scontrol release "@ + shell_quote_spec(job_id@), out, r.0, r.1@),
        same_outcomes(*old(source), *final(source)),
        final(source).log() == log_after(old(source).log(), "scontrol release "@ + shell_quote_spec(job_id@)),
{
    job_command(source, "scontrol release ", job_id)
}

/// Requeue a job with `scontrol requeue`, run once; returns `(ok, stderr)`.
pub fn requeue_job_result<S: CommandSource>(source: &mut S, job_id: &str) -> (r: (bool, String))
    ensures
        exists|out: Seq<char>|
            old(source).ran("scontrol requeue "@ + shell_quote_spec(job_id@), out, r.0, r.1@),
        same_outcomes(*old(source), *final(source)),
        final(source).log() == log_after(old(source).log(), "scontrol requeue "@ + shell_quote_spec(job_id@)),
{
    job_command(source, "scontrol requeue ", job_id)
}

/// The message reported for an action that ran: its stderr, or `ok` /
/// `failed` when stderr is empty.
pub open spec fn action_message(ok: bool, err: Seq<char>) -> Seq<char> {
    if err.len() == 0 {
        if ok {
            "ok"@
        } else {
            "failed"@
        }
    } else {
        err
    }
}

/// Whether `r` reports running `action` on `job_id` with outcome `(ok, err)`.
pub open spec fn action_reported(
    r: ActionResult,
    job_id: Seq<char>,
    action: Seq<char>,
    ok: bool,
    err: Seq<char>,
) -> bool {
    &&& r.job_id@ == job_id
    &&& r.action@ == action
    &&& r.ok == ok
    &&& r.message@ == action_message(ok, err)
}

/// The result record for an action that ran with outcome `(ok, err)`.
pub fn action_outcome(job_id: &str, action: &str, ok: bool, err: String) -> (r: ActionResult)
    ensures
        action_reported(r, job_id@, action@, ok, err@),
{
    let message = if chars_of(err.as_str()).len() == 0 {
        if ok {
            to_string("ok")
        } else {
            to_string("failed")
        }
    } else {
        err
    };
    ActionResult { job_id: to_string(job_id), action: to_string(action), ok, message }
}

/// What running `action` on `job_id` through `source` may report.
pub open spec fn job_action_spec<S: CommandSource>(
    source: S,
    action: Seq<char>,
    job_id: Seq<char>,
    r: ActionResult,
) -> bool {
    match action_command(lowercase(action), job_id) {
        None => {
            &&& r.job_id@ == job_id
            &&& r.action@ == action
            &&& !r.ok
            &&& r.message@ == "unsupported action"@
        },
        Some(cmd) => exists|out: Seq<char>, ok: bool, err: Seq<char>|
            source.ran(cmd, out, ok, err) && action_reported(r, job_id, action, ok, err),
    }
}

/// The log after running `action` on `job_id`: its one command appended, or
/// unchanged for an unsupported action.
pub open spec fn job_action_log(
    log: Option<Seq<Seq<char>>>,
    action: Seq<char>,
    job_id: Seq<char>,
) -> Option<Seq<Seq<char>>> {
    match action_command(lowercase(action), job_id) {
        None => log,
        Some(cmd) => log_after(log, cmd),
    }
}

/// The log after running `action` on each of `job_ids`, in order.
pub open spec fn bulk_action_log(
    log: Option<Seq<Seq<char>>>,
    action: Seq<char>,
    job_ids: Seq<Seq<char>>,
) -> Option<Seq<Seq<char>>>
    decreases job_ids.len(),
{
    if job_ids.len() == 0 {
        log
    } else {
        job_action_log(bulk_action_log(log, action, job_ids.drop_last()), action, job_ids.last())
    }
}

/// Execute a per-job action (`cancel`, `hold`, `release`, `requeue`, in any
/// letter case) with a normalized result. A supported action runs its one
/// command; an unsupported one runs nothing and leaves the source as it was.
pub fn run_job_action<S: CommandSource>(source: &mut S, action: &str, job_id: &str) -> (r: ActionResult)
    ensures
        job_action_spec(*old(source), action@, job_id@, r),
        same_outcomes(*old(source), *final(source)),
        final(source).log() == job_action_log(old(source).log(), action@, job_id@),
        action_command(lowercase(action@), job_id@) is None ==> *final(source) == *old(source),
{
    let lower = to_lower(action);
    let la = lower.as_str();
    let (ok, err) = if str_eq(la, "cancel") {
        cancel_job_result(source, job_id)
    } else if str_eq(la, "hold") {
        hold_job_result(source, job_id)
    } else if str_eq(la, "release") {
        release_job_result(source, job_id)
    } else if str_eq(la, "requeue") {
        requeue_job_result(source, job_id)
    } else {
        return ActionResult {
            job_id: to_string(job_id),
            action: to_string(action),
            ok: false,
            message: to_string("unsupported action"),
        };
    };
    let ghost err_v = err@;
    let ghost cmd = action_command(lowercase(action@), job_id@).unwrap();
    let r = action_outcome(job_id, action, ok, err);
    proof {
        let out = choose|out: Seq<char>| old(source).ran(cmd, out, ok, err_v);
        assert(old(source).ran(cmd, out, ok, err_v) && action_reported(r, job_id@, action@, ok, err_v));
    }
    r
}

/// Execute one action on each job, in order: the log grows by the jobs'
/// commands in index order.
pub fn run_bulk_job_action<S: CommandSource>(source: &mut S, action: &str, job_ids: &[String]) -> (r:
    Vec<ActionResult>)
    ensures
        r@.len() == job_ids@.len(),
        forall|i: int|
            0 <= i < job_ids@.len() ==> job_action_spec(*old(source), action@, job_ids@[i]@, #[trigger] r@[i]),
        same_outcomes(*old(source), *final(source)),
        final(source).log() == bulk_action_log(old(source).log(), action@, job_ids@.map_values(|s: String| s@)),
{
    let ghost s0 = *source;
    let ghost ids = job_ids@.map_values(|s: String| s@);
    let mut out: Vec<ActionResult> = Vec::new();
    let mut i: usize = 0;
    while i < job_ids.len()
        invariant
            i <= job_ids@.len(),
            out@.len() == i,
            ids == job_ids@.map_values(|s: String| s@),
            forall|k: int|
                0 <= k < i ==> job_action_spec(s0, action@, job_ids@[k]@, #[trigger] out@[k]),
            same_outcomes(s0, *source),
            source.log() == bulk_action_log(s0.log(), action@, ids.take(i as int)),
        decreases job_ids@.len() - i,
    {
        let ghost before = *source;
        let r = run_job_action(source, action, job_ids[i].as_str());
        proof {
            assert(ids.take(i + 1).drop_last() =~= ids.take(i as int));
            assert(ids.take(i + 1).last() == job_ids@[i as int]@);
            if let Some(cmd) = action_command(lowercase(action@), job_ids@[i as int]@) {
                let (o, k, e) = choose|o: Seq<char>, k: bool, e: Seq<char>|
                    before.ran(cmd, o, k, e) && action_reported(r, job_ids@[i as int]@, action@, k, e);
                assert(s0.ran(cmd, o, k, e));
            }
        }
        out.push(r);
        i = i + 1;
    }
    assert(ids.take(job_ids@.len() as int) =~= ids);
    out
}

} // verus!
