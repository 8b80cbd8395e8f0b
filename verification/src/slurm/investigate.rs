//! Job and node investigation orchestration.
//!
//! These functions gather evidence from several Slurm sources (scontrol,
//! squeue, sinfo, sacct) and assemble an investigation report. They are
//! tolerant of partial failure: any individual command error is recorded and
//! the rest of the report is still produced.
//!
//! Each investigation is split in two: a function that runs the commands
//! through a `CommandSource`, and a function that builds the report from the
//! command outputs, whose contract says exactly what the report holds.

use crate::investigation::{
    pending_text, explain_node_state, explanation_is, node_state_text, InvestigationError,
    InvestigationEvidence, InvestigationExplanation, InvestigationItem, InvestigationReport,
    InvestigationTarget, ReasonTable,
};
use crate::slurm::exec::{log_after, same_outcomes, CommandSource};
use crate::slurm::model::{Job, Node};
use crate::slurm::parse::{
    display, display_spec, duration_value, first_capture, gpu_capture, gpu_count_spec,
    gpus_alloc_fold, is_present, job_from_fields, kv_fold, kv_entries_match, requested_gpu_pattern, node_from_fields, node_state_token_spec, normalize_node_state_token,
    parse_gpus_alloc, parse_node_row, parse_scontrol_kv, parse_squeue_row, present_spec,
    SINFO_PARTITION_FMT, SQUEUE_FMT,
};
use crate::strmap::{lookup_entry, StrMap};
use crate::text::{
    concat, decimal_seq, first_index, lines, lines_seq, parse_u64_spec, push_decimal, push_str,
    split_char, split_once_seq, split_seq, str_eq, to_string, trim_seq, uppercase, words_seq,
};
use std::time::SystemTime;
use vstd::prelude::*;

verus! {

/// The current wall-clock time, from `std::time::SystemTime::now`. Nothing is
/// stated of the value: it is whatever the clock reads.
#[verifier::external_body]
fn now() -> SystemTime {
    SystemTime::now()
}

// ── State sets ──────────────────────────────────────────────────────────────

/// Job states that mean "pending".
pub open spec fn pending_state_names() -> Seq<Seq<char>> {
    seq!["PENDING"@, "PD"@]
}

/// Job states that mean "running".
pub open spec fn running_state_names() -> Seq<Seq<char>> {
    seq!["RUNNING"@, "R"@]
}

/// Job states that mean "finished", in long and short form.
pub open spec fn terminal_state_names() -> Seq<Seq<char>> {
    seq![
        "COMPLETED"@,
        "CD"@,
        "FAILED"@,
        "F"@,
        "CANCELLED"@,
        "CA"@,
        "TIMEOUT"@,
        "TO"@,
        "NODE_FAIL"@,
        "NF"@,
        "PREEMPTED"@,
        "PR"@,
        "OUT_OF_MEMORY"@,
        "OOM"@,
    ]
}

/// Node states in which jobs run.
pub open spec fn node_active_state_names() -> Seq<Seq<char>> {
    seq!["ALLOCATED"@, "MIXED"@]
}

/// Node states that take the node out of scheduling.
pub open spec fn node_unavailable_state_names() -> Seq<Seq<char>> {
    seq!["DOWN"@, "DRAIN"@, "DRAINED"@]
}

/// The characters of each name.
pub open spec fn names_view(v: Seq<&str>) -> Seq<Seq<char>> {
    v.map_values(|s: &str| s@)
}

/// Job states that mean "pending".
pub fn pending_states() -> (r: Vec<&'static str>)
    ensures
        names_view(r@) == pending_state_names(),
{
    let mut r: Vec<&'static str> = Vec::new();
    r.push("PENDING");
    r.push("PD");
    assert(names_view(r@) =~= pending_state_names());
    r
}

/// Job states that mean "running".
pub fn running_states() -> (r: Vec<&'static str>)
    ensures
        names_view(r@) == running_state_names(),
{
    let mut r: Vec<&'static str> = Vec::new();
    r.push("RUNNING");
    r.push("R");
    assert(names_view(r@) =~= running_state_names());
    r
}

/// Job states that mean "finished".
pub fn terminal_states() -> (r: Vec<&'static str>)
    ensures
        names_view(r@) == terminal_state_names(),
{
    let mut r: Vec<&'static str> = Vec::new();
    r.push("COMPLETED");
    r.push("CD");
    r.push("FAILED");
    r.push("F");
    r.push("CANCELLED");
    r.push("CA");
    r.push("TIMEOUT");
    r.push("TO");
    r.push("NODE_FAIL");
    r.push("NF");
    r.push("PREEMPTED");
    r.push("PR");
    r.push("OUT_OF_MEMORY");
    r.push("OOM");
    assert(names_view(r@) =~= terminal_state_names());
    r
}

/// Node states in which jobs run.
pub fn node_active_states() -> (r: Vec<&'static str>)
    ensures
        names_view(r@) == node_active_state_names(),
{
    let mut r: Vec<&'static str> = Vec::new();
    r.push("ALLOCATED");
    r.push("MIXED");
    assert(names_view(r@) =~= node_active_state_names());
    r
}

/// Node states that take the node out of scheduling.
pub fn node_unavailable_states() -> (r: Vec<&'static str>)
    ensures
        names_view(r@) == node_unavailable_state_names(),
{
    let mut r: Vec<&'static str> = Vec::new();
    r.push("DOWN");
    r.push("DRAIN");
    r.push("DRAINED");
    assert(names_view(r@) =~= node_unavailable_state_names());
    r
}

/// Whether `s` is one of `names`.
fn one_of(names: &Vec<&'static str>, s: &str) -> (r: bool)
    ensures
        r == names_view(names@).contains(s@),
{
    let mut i: usize = 0;
    while i < names.len()
        invariant
            i <= names@.len(),
            forall|k: int| 0 <= k < i ==> names_view(names@)[k] != s@,
        decreases names@.len() - i,
    {
        if str_eq(names[i], s) {
            assert(names_view(names@)[i as int] == s@);
            return true;
        }
        i = i + 1;
    }
    false
}

// ── Command outputs ─────────────────────────────────────────────────────────

/// Whether running `cmd` through `source` may have printed `out`.
pub open spec fn printed<S: CommandSource>(source: S, cmd: Seq<char>, out: Seq<char>) -> bool {
    exists|ok: bool, err: Seq<char>| source.ran(cmd, out, ok, err)
}

/// The `key=value` pairs of `scontrol show` output, or none when it failed.
pub open spec fn detail_of(out: Seq<char>, ok: bool) -> Seq<(Seq<char>, Seq<char>)> {
    if ok {
        kv_fold(words_seq(out))
    } else {
        Seq::empty()
    }
}

/// The value of `key` in `detail`, or empty.
pub open spec fn detail_value(detail: Seq<(Seq<char>, Seq<char>)>, key: Seq<char>) -> Seq<char> {
    match lookup_entry(detail, key) {
        Some(v) => v,
        None => Seq::empty(),
    }
}

/// Looking up a key in the parsed entries gives the string whose characters
/// the character entries hold.
proof fn lemma_kv_lookup(es: Seq<(Seq<char>, String)>, kv: Seq<(Seq<char>, Seq<char>)>, k: Seq<char>)
    requires
        kv_entries_match(es, kv),
    ensures
        lookup_entry(es, k) is None <==> lookup_entry(kv, k) is None,
        lookup_entry(es, k) matches Some(s) ==> lookup_entry(kv, k) == Some(s@),
    decreases es.len(),
{
    if es.len() > 0 {
        assert(es[0].0 == kv[0].0);
        if es[0].0 != k {
            assert(kv_entries_match(es.drop_first(), kv.drop_first())) by {
                assert forall|i: int| 0 <= i < es.drop_first().len() implies (#[trigger] es.drop_first()[i]).0
                    == kv.drop_first()[i].0 && es.drop_first()[i].1@ == kv.drop_first()[i].1 by {
                    assert(es.drop_first()[i] == es[i + 1]);
                }
            }
            lemma_kv_lookup(es.drop_first(), kv.drop_first(), k);
        }
    }
}

/// The value of `key` in the parsed detail, or empty.
fn detail_get(detail: &StrMap<String>, key: &str, Ghost(kv): Ghost<Seq<(Seq<char>, Seq<char>)>>) -> (r: String)
    requires
        kv_entries_match(detail.entries(), kv),
    ensures
        r@ == detail_value(kv, key@),
{
    proof {
        lemma_kv_lookup(detail.entries(), kv, key@);
    }
    match detail.get(key) {
        Some(v) => v.clone(),
        None => String::new(),
    }
}

/// The value of `key` in the parsed detail, if any.
fn detail_find<'a>(detail: &'a StrMap<String>, key: &str, Ghost(kv): Ghost<Seq<(Seq<char>, Seq<char>)>>) -> (r: Option<&'a String>)
    requires
        kv_entries_match(detail.entries(), kv),
    ensures
        match r {
            Some(v) => lookup_entry(kv, key@) == Some(v@),
            None => lookup_entry(kv, key@) is None,
        },
{
    proof {
        lemma_kv_lookup(detail.entries(), kv, key@);
    }
    detail.get(key)
}

/// The fields of the first `sinfo` row about node `name`, if any.
pub open spec fn first_node_row(rows: Seq<Seq<char>>, name: Seq<char>) -> Option<Seq<Seq<char>>>
    decreases rows.len(),
{
    if rows.len() == 0 {
        None
    } else {
        let parts = split_seq(rows[0], '|');
        if parts.len() >= 9 && parts[0] == name {
            Some(parts)
        } else {
            first_node_row(rows.drop_first(), name)
        }
    }
}

/// The live row of node `name` in `sinfo` output, parsed.
fn find_live_node(sinfo_out: &str, alloc: &StrMap<u32>, name: &str) -> (r: Option<Node>)
    ensures
        r is None <==> first_node_row(lines_seq(sinfo_out@), name@) is None,
        r matches Some(n) ==> node_from_fields(
            n,
            first_node_row(lines_seq(sinfo_out@), name@).unwrap(),
            alloc.entries(),
        ),
{
    let rows = lines(sinfo_out);
    let ghost all = rows.deep_view();
    assert(all.skip(0) =~= all);
    let mut i: usize = 0;
    while i < rows.len()
        invariant
            i <= rows@.len(),
            all == rows.deep_view(),
            all == lines_seq(sinfo_out@),
            first_node_row(all, name@) == first_node_row(all.skip(i as int), name@),
        decreases rows@.len() - i,
    {
        assert(all.skip(i as int).drop_first() =~= all.skip(i + 1));
        assert(all.skip(i as int)[0] == rows@[i as int]@);
        match parse_node_row(rows[i].as_str(), alloc) {
            Some(n) => {
                if str_eq(n.name.as_str(), name) {
                    return Some(n);
                }
            },
            None => {},
        }
        i = i + 1;
    }
    assert(all.skip(i as int) =~= Seq::<Seq<char>>::empty());
    None
}

// ── Node report model ───────────────────────────────────────────────────────

/// A field of the live row, or the value of `key` in the detail when the
/// node has no live row.
pub open spec fn live_or(
    live: Option<Seq<Seq<char>>>,
    idx: int,
    detail: Seq<(Seq<char>, Seq<char>)>,
    key: Seq<char>,
) -> Seq<char> {
    match live {
        Some(p) => p[idx],
        None => detail_value(detail, key),
    }
}

/// The allocated CPUs of a live row (the first of `A/I/O/T`), or the
/// `CPUAlloc` detail.
pub open spec fn live_cpus_alloc(live: Option<Seq<Seq<char>>>, detail: Seq<(Seq<char>, Seq<char>)>) -> Seq<char> {
    match live {
        Some(p) => split_seq(p[4], '/')[0],
        None => detail_value(detail, "CPUAlloc"@),
    }
}

/// `a/b`, or `(unavailable)` when both are empty.
pub open spec fn pair_or_unavailable(a: Seq<char>, b: Seq<char>) -> Seq<char> {
    if a.len() > 0 || b.len() > 0 {
        a + "/"@ + b
    } else {
        "(unavailable)"@
    }
}

/// The GPUs of a live row; zero without one.
pub open spec fn node_gpu_total(live: Option<Seq<Seq<char>>>) -> u32 {
    match live {
        Some(p) => gpu_count_spec(p[8]),
        None => 0,
    }
}

/// The allocated GPUs of a live row's node; zero without one.
pub open spec fn node_gpu_alloc(live: Option<Seq<Seq<char>>>, alloc: Seq<(Seq<char>, u32)>) -> u32 {
    match live {
        Some(p) => match lookup_entry(alloc, p[0]) {
            Some(g) => g,
            None => 0,
        },
        None => 0,
    }
}

/// `seq![x]` when `c` holds, else nothing.
pub open spec fn when<T>(c: bool, x: T) -> Seq<T> {
    if c {
        seq![x]
    } else {
        Seq::empty()
    }
}

/// The summary of a node report, as (label, value) pairs.
pub open spec fn node_summary(
    live: Option<Seq<Seq<char>>>,
    alloc: Seq<(Seq<char>, u32)>,
    detail: Seq<(Seq<char>, Seq<char>)>,
) -> Seq<(Seq<char>, Seq<char>)> {
    let gt = node_gpu_total(live);
    let ga = node_gpu_alloc(live, alloc);
    seq![
        ("State"@, display_spec(Some(live_or(live, 1, detail, "State"@)))),
        ("Partition"@, display_spec(Some(live_or(live, 2, detail, "Partitions"@)))),
        (
            "CPUs allocated/total"@,
            pair_or_unavailable(live_cpus_alloc(live, detail), live_or(live, 3, detail, "CPUTot"@)),
        ),
    ] + when(
        gt > 0,
        ("GPUs allocated/total"@, decimal_seq(ga as nat) + "/"@ + decimal_seq(gt as nat)),
    ) + seq![
        (
            "Memory free/total"@,
            pair_or_unavailable(
                live_or(live, 6, detail, "FreeMem"@),
                live_or(live, 5, detail, "RealMemory"@),
            ),
        ),
        ("Load"@, display_spec(Some(live_or(live, 7, detail, "CPULoad"@)))),
        ("Reason"@, display_spec(Some(detail_value(detail, "Reason"@)))),
    ]
}

/// The node summary shows memory as the free memory (the `%e` field of the
/// live row, else `FreeMem`), a slash, then the total memory (the `%m`
/// field, else `RealMemory`): free first, total second; `(unavailable)`
/// when both are empty. It is the one item with that label.
pub proof fn lemma_node_summary_memory(
    live: Option<Seq<Seq<char>>>,
    alloc: Seq<(Seq<char>, u32)>,
    detail: Seq<(Seq<char>, Seq<char>)>,
)
    ensures
        ({
            let s = node_summary(live, alloc, detail);
            let free = match live {
                Some(p) => p[6],
                None => detail_value(detail, "FreeMem"@),
            };
            let total = match live {
                Some(p) => p[5],
                None => detail_value(detail, "RealMemory"@),
            };
            let shown = if free.len() > 0 || total.len() > 0 {
                free + seq!['/'] + total
            } else {
                "(unavailable)"@
            };
            &&& exists|i: int| 0 <= i < s.len() && s[i] == ("Memory free/total"@, shown)
            &&& forall|i: int| 0 <= i < s.len() && #[trigger] s[i].0 == "Memory free/total"@ ==> s[i].1 == shown
        }),
{
    reveal_strlit("/");
    reveal_strlit("State");
    reveal_strlit("Partition");
    reveal_strlit("CPUs allocated/total");
    reveal_strlit("GPUs allocated/total");
    reveal_strlit("Memory free/total");
    reveal_strlit("Load");
    reveal_strlit("Reason");
    let s = node_summary(live, alloc, detail);
    let m = "Memory free/total"@;
    assert(m.len() == 17);
    assert("State"@ != m && "Partition"@ != m && "Load"@ != m && "Reason"@ != m) by {
        assert("State"@.len() != m.len());
        assert("Partition"@.len() != m.len());
        assert("Load"@.len() != m.len());
        assert("Reason"@.len() != m.len());
    }
    assert("CPUs allocated/total"@ != m) by {
        assert("CPUs allocated/total"@.len() != m.len());
    }
    assert("GPUs allocated/total"@ != m) by {
        assert("GPUs allocated/total"@.len() != m.len());
    }
    let k: int = if node_gpu_total(live) > 0 { 4 } else { 3 };
    assert(s[k].0 == m);
}

/// With a live `sinfo` row, the node summary opens with the row's state
/// (`%T`) and partition (`%P`), shows its CPU count (`%c`) after the
/// allocated CPUs, and its load (`%O`) under "Load".
pub proof fn lemma_node_summary_live_fields(
    p: Seq<Seq<char>>,
    alloc: Seq<(Seq<char>, u32)>,
    detail: Seq<(Seq<char>, Seq<char>)>,
)
    ensures
        ({
            let s = node_summary(Some(p), alloc, detail);
            &&& s[0] == ("State"@, display_spec(Some(p[1])))
            &&& s[1] == ("Partition"@, display_spec(Some(p[2])))
            &&& s[2].0 == "CPUs allocated/total"@
            &&& exists|a: Seq<char>| s[2].1 == pair_or_unavailable(a, p[3])
            &&& exists|i: int| 0 <= i < s.len() && s[i] == ("Load"@, display_spec(Some(p[7])))
        }),
{
    let s = node_summary(Some(p), alloc, detail);
    let k: int = if node_gpu_total(Some(p)) > 0 { 5 } else { 4 };
    assert(s[k] == ("Load"@, display_spec(Some(p[7]))));
    assert(s[2].1 == pair_or_unavailable(live_cpus_alloc(Some(p), detail), p[3]));
}

/// An evidence record: id, label, value, source, confidence.
pub type EvidenceView = (Seq<char>, Seq<char>, Seq<char>, Seq<char>, Seq<char>);

/// `sinfo` evidence of a live row.
pub open spec fn sinfo_evidence(id: Seq<char>, label: Seq<char>, value: Seq<char>) -> EvidenceView {
    (id, label, value, "sinfo"@, "high"@)
}

/// The evidence a live `sinfo` row gives.
pub open spec fn node_live_evidence(
    live: Option<Seq<Seq<char>>>,
    alloc: Seq<(Seq<char>, u32)>,
) -> Seq<EvidenceView> {
    match live {
        None => Seq::empty(),
        Some(p) => {
            let ca = split_seq(p[4], '/')[0];
            let gt = gpu_count_spec(p[8]);
            let ga = node_gpu_alloc(live, alloc);
            seq![sinfo_evidence("sinfo.state"@, "State"@, p[1])] + when(
                p[3].len() > 0,
                sinfo_evidence("sinfo.cpus_total"@, "CPUs (total)"@, p[3]),
            ) + when(ca.len() > 0, sinfo_evidence("sinfo.cpus_alloc"@, "CPUs (allocated)"@, ca))
                + if gt > 0 {
                seq![
                    sinfo_evidence("sinfo.gpu_total"@, "GPUs (total)"@, decimal_seq(gt as nat)),
                    sinfo_evidence("sinfo.gpu_alloc"@, "GPUs (allocated)"@, decimal_seq(ga as nat)),
                ]
            } else {
                Seq::empty()
            } + when(
                p[5].len() > 0,
                sinfo_evidence("sinfo.memory_total"@, "Memory (total)"@, p[5]),
            ) + when(p[6].len() > 0, sinfo_evidence("sinfo.memory_free"@, "Memory (free)"@, p[6]))
        },
    }
}

/// `scontrol` evidence of `key`, when it is present in the detail.
#[verifier::opaque]
pub open spec fn scontrol_evidence(
    detail: Seq<(Seq<char>, Seq<char>)>,
    id: Seq<char>,
    key: Seq<char>,
    confidence: Seq<char>,
) -> Seq<EvidenceView> {
    match lookup_entry(detail, key) {
        Some(v) => when(present_spec(Some(v)), (id, key, v, "scontrol"@, confidence)),
        None => Seq::empty(),
    }
}

/// The evidence of a node report.
pub open spec fn node_evidence(
    live: Option<Seq<Seq<char>>>,
    alloc: Seq<(Seq<char>, u32)>,
    detail: Seq<(Seq<char>, Seq<char>)>,
) -> Seq<EvidenceView> {
    node_live_evidence(live, alloc) + scontrol_evidence(detail, "scontrol.Gres"@, "Gres"@, "high"@)
        + scontrol_evidence(detail, "scontrol.Reason"@, "Reason"@, "high"@) + scontrol_evidence(
        detail,
        "scontrol.CPULoad"@,
        "CPULoad"@,
        "medium"@,
    )
}

/// An explanation: title, detail, confidence, evidence references.
pub type ExplanationView = (Seq<char>, Seq<char>, Seq<char>, Seq<Seq<char>>);

/// The explanation of a busy node on which no job is visible.
pub open spec fn hidden_jobs_text() -> (Seq<char>, Seq<char>, Seq<char>) {
    (
        "No jobs visible on node"@,
        "squeue -w shows no jobs, but the node is marked ALLOCATED or MIXED. This can occur when jobs belong to other users and are hidden by Slurm ACLs."@,
        "medium"@,
    )
}

/// The explanation of an idle-looking node without jobs.
pub open spec fn no_jobs_text() -> (Seq<char>, Seq<char>, Seq<char>) {
    ("No jobs on node"@, "The node appears available for new work."@, "high"@)
}

/// The explanations of a node report: the state, then, when no job runs on
/// the node, why.
pub open spec fn node_explanations(token: Seq<char>, no_jobs: bool) -> Seq<ExplanationView> {
    let t = node_state_text(token);
    let h = hidden_jobs_text();
    let n = no_jobs_text();
    seq![(t.0, t.1, t.2, Seq::<Seq<char>>::empty())] + if !no_jobs {
        Seq::empty()
    } else if node_active_state_names().contains(token) {
        seq![(h.0, h.1, h.2, seq!["sinfo.state"@])]
    } else if !node_unavailable_state_names().contains(token) {
        seq![(n.0, n.1, n.2, seq!["sinfo.state"@])]
    } else {
        Seq::empty()
    }
}

/// The fields of each well-formed `squeue` row, in order.
pub open spec fn squeue_rows(rows: Seq<Seq<char>>) -> Seq<Seq<Seq<char>>>
    decreases rows.len(),
{
    if rows.len() == 0 {
        Seq::empty()
    } else {
        let prev = squeue_rows(rows.drop_last());
        let parts = split_seq(rows.last(), '|');
        if parts.len() >= 12 {
            prev.push(parts)
        } else {
            prev
        }
    }
}

/// An error record: source, category, message, stderr.
pub type ErrorView = (Seq<char>, Seq<char>, Seq<char>, Option<Seq<char>>);

/// The errors of a node report: a failed `scontrol` that said why, then a
/// node missing from `sinfo`.
pub open spec fn node_errors(
    name: Seq<char>,
    sc_ok: bool,
    sc_err: Seq<char>,
    missing: bool,
) -> Seq<ErrorView> {
    when(
        !sc_ok && sc_err.len() > 0,
        (
            "scontrol"@,
            "slurm_command_failed"@,
            "scontrol show node "@ + name + " failed"@,
            Some(sc_err),
        ),
    ) + when(
        missing,
        (
            "sinfo"@,
            "node_not_found"@,
            "Node not in current sinfo snapshot"@,
            None::<Seq<char>>,
        ),
    )
}

/// `available` or `unavailable`.
pub open spec fn availability(ok: bool) -> Seq<char> {
    if ok {
        "available"@
    } else {
        "unavailable"@
    }
}

/// Whether `r` is the report on node `name` built from the outputs of
/// `scontrol show node` (`sc_out`, `sc_ok`, `sc_err`), the `sinfo` rows, the
/// allocated-GPU listing and the `squeue -w` rows, with at most `max` related
/// jobs.
pub open spec fn node_report_spec(
    r: InvestigationReport,
    name: Seq<char>,
    max: int,
    sc_out: Seq<char>,
    sc_ok: bool,
    sc_err: Seq<char>,
    sinfo: Seq<char>,
    gres: Seq<char>,
    jobs: Seq<char>,
) -> bool {
    let detail = detail_of(sc_out, sc_ok);
    let alloc = gpus_alloc_fold(words_seq(gres)).1;
    let live = first_node_row(lines_seq(sinfo), name);
    let token = node_state_token_spec(live_or(live, 1, detail, "State"@));
    let rows = squeue_rows(lines_seq(jobs));
    &&& r.target@ == ("node"@, name, "typed"@)
    &&& r.summary@.map_values(|i: InvestigationItem| i@) == node_summary(live, alloc, detail)
    &&& r.evidence@.map_values(|e: InvestigationEvidence| e@) == node_evidence(live, alloc, detail)
    &&& r.explanations@.map_values(|e: InvestigationExplanation| e@) == node_explanations(
        token,
        rows.len() == 0,
    )
    &&& r.related_jobs@.len() == if max < rows.len() {
        max
    } else {
        rows.len() as int
    }
    &&& forall|k: int| 0 <= k < r.related_jobs@.len() ==> job_from_fields(#[trigger] r.related_jobs@[k], rows[k])
    &&& r.related_nodes@.len() == 0
    &&& r.suggested_actions@.len() == 0
    &&& r.raw_sections.entries().len() == 1
    &&& r.raw_sections.entries()[0].0 == "scontrol show node"@
    &&& r.raw_sections.entries()[0].1@ == availability(sc_ok)
    &&& r.errors@.map_values(|e: InvestigationError| e@) == node_errors(name, sc_ok, sc_err, live is None)
}

// ── Report builders ─────────────────────────────────────────────────────────

fn item(label: &str, value: String) -> (r: InvestigationItem)
    ensures
        r@ == (label@, value@),
{
    InvestigationItem { label: to_string(label), value }
}

fn push_item(v: &mut Vec<InvestigationItem>, it: InvestigationItem)
    ensures
        final(v)@.map_values(|i: InvestigationItem| i@) == old(v)@.map_values(
            |i: InvestigationItem| i@,
        ).push(it@),
{
    let ghost before = v@;
    let ghost iv = it@;
    v.push(it);
    assert(v@.map_values(|i: InvestigationItem| i@) =~= before.map_values(
        |i: InvestigationItem| i@,
    ).push(iv));
}

fn evidence(id: &str, label: &str, value: String, source: &str, confidence: &str) -> (r:
    InvestigationEvidence)
    ensures
        r@ == (id@, label@, value@, source@, confidence@),
{
    InvestigationEvidence {
        id: to_string(id),
        label: to_string(label),
        value,
        source: to_string(source),
        confidence: to_string(confidence),
    }
}

fn push_evidence(v: &mut Vec<InvestigationEvidence>, e: InvestigationEvidence)
    ensures
        final(v)@.map_values(|x: InvestigationEvidence| x@) == old(v)@.map_values(
            |x: InvestigationEvidence| x@,
        ).push(e@),
{
    let ghost before = v@;
    let ghost ev = e@;
    v.push(e);
    assert(v@.map_values(|x: InvestigationEvidence| x@) =~= before.map_values(
        |x: InvestigationEvidence| x@,
    ).push(ev));
}

fn push_explanation(v: &mut Vec<InvestigationExplanation>, e: InvestigationExplanation)
    ensures
        final(v)@.map_values(|x: InvestigationExplanation| x@) == old(v)@.map_values(
            |x: InvestigationExplanation| x@,
        ).push(e@),
{
    let ghost before = v@;
    let ghost ev = e@;
    v.push(e);
    assert(v@.map_values(|x: InvestigationExplanation| x@) =~= before.map_values(
        |x: InvestigationExplanation| x@,
    ).push(ev));
}

fn push_error(v: &mut Vec<InvestigationError>, e: InvestigationError)
    ensures
        final(v)@.map_values(|x: InvestigationError| x@) == old(v)@.map_values(
            |x: InvestigationError| x@,
        ).push(e@),
{
    let ghost before = v@;
    let ghost ev = e@;
    v.push(e);
    assert(v@.map_values(|x: InvestigationError| x@) =~= before.map_values(
        |x: InvestigationError| x@,
    ).push(ev));
}

/// An explanation citing `refs`.
fn explanation_with_refs(title: &str, detail: &str, confidence: &str, refs: Vec<String>) -> (r:
    InvestigationExplanation)
    ensures
        r@ == (title@, detail@, confidence@, refs.deep_view()),
{
    InvestigationExplanation {
        title: to_string(title),
        detail: to_string(detail),
        confidence: to_string(confidence),
        evidence_refs: refs,
    }
}

/// The one-element reference list `[id]`.
fn refs_of(id: &str) -> (r: Vec<String>)
    ensures
        r.deep_view() == seq![id@],
{
    let mut r: Vec<String> = Vec::new();
    r.push(to_string(id));
    assert(r.deep_view() =~= seq![id@]);
    r
}

/// `a/b`, or `(unavailable)` when both are empty.
fn pair_text(a: &str, b: &str) -> (r: String)
    ensures
        r@ == pair_or_unavailable(a@, b@),
{
    if a.as_bytes().len() > 0 || b.as_bytes().len() > 0 {
        proof {
            if a@.len() == 0 {
                assert(a@ =~= ""@) by { reveal_strlit(""); }
            }
            if b@.len() == 0 {
                assert(b@ =~= ""@) by { reveal_strlit(""); }
            }
        }
        let mut r = to_string(a);
        push_str(&mut r, "/");
        push_str(&mut r, b);
        r
    } else {
        to_string("(unavailable)")
    }
}

/// The decimal form of `n`.
fn decimal(n: u32) -> (r: String)
    ensures
        r@ == decimal_seq(n as nat),
{
    let mut r = String::new();
    push_decimal(&mut r, n as u64);
    assert(r@ =~= decimal_seq(n as nat));
    r
}

/// Whether `live` is the parsed form of the row fields `lp`.
pub open spec fn live_matches(live: Option<Node>, lp: Option<Seq<Seq<char>>>, alloc: Seq<(Seq<char>, u32)>) -> bool {
    &&& (live is None <==> lp is None)
    &&& (live matches Some(n) ==> node_from_fields(n, lp.unwrap(), alloc))
}

/// A field of the live node, or the detail value of `key` without one.
fn live_field(live_value: Option<&String>, detail: &StrMap<String>, key: &str, Ghost(kv): Ghost<Seq<(Seq<char>, Seq<char>)>>) -> (r: String)
    requires
        kv_entries_match(detail.entries(), kv),
    ensures
        r@ == match live_value {
            Some(v) => v@,
            None => detail_value(kv, key@),
        },
{
    match live_value {
        Some(v) => v.clone(),
        None => detail_get(detail, key, Ghost(kv)),
    }
}

/// The summary items of a node report.
fn node_summary_items(
    live: &Option<Node>,
    Ghost(lp): Ghost<Option<Seq<Seq<char>>>>,
    alloc: &StrMap<u32>,
    detail: &StrMap<String>,
    Ghost(kv): Ghost<Seq<(Seq<char>, Seq<char>)>>,
) -> (r: Vec<InvestigationItem>)
    requires
        live_matches(*live, lp, alloc.entries()),
        kv_entries_match(detail.entries(), kv),
    ensures
        r@.map_values(|i: InvestigationItem| i@) == node_summary(lp, alloc.entries(), kv),
{
    let state = live_field(match live { Some(n) => Some(&n.state), None => None }, detail, "State", Ghost(kv));
    let partition = live_field(match live { Some(n) => Some(&n.partition), None => None }, detail, "Partitions", Ghost(kv));
    let cpus_total = live_field(match live { Some(n) => Some(&n.cpus_total), None => None }, detail, "CPUTot", Ghost(kv));
    let cpus_alloc = live_field(match live { Some(n) => Some(&n.cpus_alloc), None => None }, detail, "CPUAlloc", Ghost(kv));
    let memory_total = live_field(match live { Some(n) => Some(&n.memory_total), None => None }, detail, "RealMemory", Ghost(kv));
    let memory_free = live_field(match live { Some(n) => Some(&n.memory_free), None => None }, detail, "FreeMem", Ghost(kv));
    let load = live_field(match live { Some(n) => Some(&n.load), None => None }, detail, "CPULoad", Ghost(kv));
    let (gpu_total, gpu_alloc) = match live {
        Some(n) => (n.gpu_total, n.gpu_alloc),
        None => (0u32, 0u32),
    };
    let reason = detail_get(detail, "Reason", Ghost(kv));
    assert(gpu_total == node_gpu_total(lp) && gpu_alloc == node_gpu_alloc(lp, alloc.entries()));
    let mut r: Vec<InvestigationItem> = Vec::new();
    push_item(&mut r, item("State", display(Some(state.as_str()))));
    push_item(&mut r, item("Partition", display(Some(partition.as_str()))));
    push_item(&mut r, item("CPUs allocated/total", pair_text(cpus_alloc.as_str(), cpus_total.as_str())));
    let ghost head = r@.map_values(|i: InvestigationItem| i@);
    if gpu_total > 0 {
        let mut g = decimal(gpu_alloc);
        push_str(&mut g, "/");
        let t = decimal(gpu_total);
        push_str(&mut g, t.as_str());
        push_item(&mut r, item("GPUs allocated/total", g));
    }
    push_item(&mut r, item("Memory free/total", pair_text(memory_free.as_str(), memory_total.as_str())));
    push_item(&mut r, item("Load", display(Some(load.as_str()))));
    push_item(&mut r, item("Reason", display(Some(reason.as_str()))));
    assert(r@.map_values(|i: InvestigationItem| i@) =~= node_summary(lp, alloc.entries(), kv));
    r
}

/// Appends the `scontrol` evidence of `key` when it is present.
fn push_scontrol_evidence(
    v: &mut Vec<InvestigationEvidence>,
    detail: &StrMap<String>,
    Ghost(kv): Ghost<Seq<(Seq<char>, Seq<char>)>>,
    id: &str,
    key: &str,
    confidence: &str,
)
    requires
        kv_entries_match(detail.entries(), kv),
    ensures
        final(v)@.map_values(|x: InvestigationEvidence| x@) == old(v)@.map_values(
            |x: InvestigationEvidence| x@,
        ) + scontrol_evidence(kv, id@, key@, confidence@),
{
    let ghost before = v@.map_values(|x: InvestigationEvidence| x@);
    reveal(scontrol_evidence);
    match detail_find(detail, key, Ghost(kv)) {
        Some(val) => {
            if is_present(Some(val.as_str())) {
                push_evidence(v, evidence(id, key, val.clone(), "scontrol", confidence));
                assert(v@.map_values(|x: InvestigationEvidence| x@) =~= before + scontrol_evidence(kv, id@, key@, confidence@));
            } else {
                assert(v@.map_values(|x: InvestigationEvidence| x@) =~= before + scontrol_evidence(kv, id@, key@, confidence@));
            }
        },
        None => {
            assert(v@.map_values(|x: InvestigationEvidence| x@) =~= before + scontrol_evidence(kv, id@, key@, confidence@));
        },
    }
}

/// The evidence of a node report.
#[verifier::spinoff_prover]
#[verifier::rlimit(60)]
fn node_evidence_items(
    live: &Option<Node>,
    Ghost(lp): Ghost<Option<Seq<Seq<char>>>>,
    alloc: &StrMap<u32>,
    detail: &StrMap<String>,
    Ghost(kv): Ghost<Seq<(Seq<char>, Seq<char>)>>,
) -> (r: Vec<InvestigationEvidence>)
    requires
        live_matches(*live, lp, alloc.entries()),
        kv_entries_match(detail.entries(), kv),
    ensures
        r@.map_values(|x: InvestigationEvidence| x@) == node_evidence(lp, alloc.entries(), kv),
{
    let mut r: Vec<InvestigationEvidence> = Vec::new();
    assert(r@.map_values(|x: InvestigationEvidence| x@) =~= Seq::<EvidenceView>::empty());
    if let Some(n) = live {
        let ghost p = lp.unwrap();
        push_evidence(&mut r, evidence("sinfo.state", "State", n.state.clone(), "sinfo", "high"));
        let ghost s1 = r@.map_values(|x: InvestigationEvidence| x@);
        if n.cpus_total.as_str().as_bytes().len() > 0 {
            push_evidence(&mut r, evidence("sinfo.cpus_total", "CPUs (total)", n.cpus_total.clone(), "sinfo", "high"));
        }
        let ghost s2 = r@.map_values(|x: InvestigationEvidence| x@);
        assert(s2 =~= s1 + when(p[3].len() > 0, sinfo_evidence("sinfo.cpus_total"@, "CPUs (total)"@, p[3])));
        if n.cpus_alloc.as_str().as_bytes().len() > 0 {
            push_evidence(&mut r, evidence("sinfo.cpus_alloc", "CPUs (allocated)", n.cpus_alloc.clone(), "sinfo", "high"));
        }
        let ghost s3 = r@.map_values(|x: InvestigationEvidence| x@);
        assert(s3 =~= s2 + when(split_seq(p[4], '/')[0].len() > 0, sinfo_evidence("sinfo.cpus_alloc"@, "CPUs (allocated)"@, split_seq(p[4], '/')[0])));
        if n.gpu_total > 0 {
            push_evidence(&mut r, evidence("sinfo.gpu_total", "GPUs (total)", decimal(n.gpu_total), "sinfo", "high"));
            push_evidence(&mut r, evidence("sinfo.gpu_alloc", "GPUs (allocated)", decimal(n.gpu_alloc), "sinfo", "high"));
        }
        let ghost s4 = r@.map_values(|x: InvestigationEvidence| x@);
        if n.memory_total.as_str().as_bytes().len() > 0 {
            push_evidence(&mut r, evidence("sinfo.memory_total", "Memory (total)", n.memory_total.clone(), "sinfo", "high"));
        }
        let ghost s5 = r@.map_values(|x: InvestigationEvidence| x@);
        assert(s5 =~= s4 + when(p[5].len() > 0, sinfo_evidence("sinfo.memory_total"@, "Memory (total)"@, p[5])));
        if n.memory_free.as_str().as_bytes().len() > 0 {
            push_evidence(&mut r, evidence("sinfo.memory_free", "Memory (free)", n.memory_free.clone(), "sinfo", "high"));
        }
        let ghost s6 = r@.map_values(|x: InvestigationEvidence| x@);
        assert(s6 =~= s5 + when(p[6].len() > 0, sinfo_evidence("sinfo.memory_free"@, "Memory (free)"@, p[6])));
        assert(s6 =~= node_live_evidence(lp, alloc.entries()));
    }
    let ghost live_part = r@.map_values(|x: InvestigationEvidence| x@);
    assert(live_part =~= node_live_evidence(lp, alloc.entries()));
    push_scontrol_evidence(&mut r, detail, Ghost(kv), "scontrol.Gres", "Gres", "high");
    push_scontrol_evidence(&mut r, detail, Ghost(kv), "scontrol.Reason", "Reason", "high");
    push_scontrol_evidence(&mut r, detail, Ghost(kv), "scontrol.CPULoad", "CPULoad", "medium");
    r
}

/// The explanations of a node report.
fn node_explanation_items(token: &str, no_jobs: bool) -> (r: Vec<InvestigationExplanation>)
    ensures
        r@.map_values(|x: InvestigationExplanation| x@) == node_explanations(token@, no_jobs),
{
    let mut r: Vec<InvestigationExplanation> = Vec::new();
    let first = explain_node_state(token);
    push_explanation(&mut r, first);
    let ghost head = r@.map_values(|x: InvestigationExplanation| x@);
    assert(head =~= seq![(node_state_text(token@).0, node_state_text(token@).1, node_state_text(token@).2, Seq::<Seq<char>>::empty())]);
    if no_jobs {
        if one_of(&node_active_states(), token) {
            push_explanation(&mut r, explanation_with_refs(
                "No jobs visible on node",
                "squeue -w shows no jobs, but the node is marked ALLOCATED or MIXED. This can occur when jobs belong to other users and are hidden by Slurm ACLs.",
                "medium",
                refs_of("sinfo.state"),
            ));
        } else if !one_of(&node_unavailable_states(), token) {
            push_explanation(&mut r, explanation_with_refs(
                "No jobs on node",
                "The node appears available for new work.",
                "high",
                refs_of("sinfo.state"),
            ));
        }
    }
    assert(r@.map_values(|x: InvestigationExplanation| x@) =~= node_explanations(token@, no_jobs));
    r
}

/// The jobs of `squeue` output, at most `max` of them, and whether it had any.
fn jobs_up_to(jobs_out: &str, max: usize) -> (r: (Vec<Job>, bool))
    ensures
        r.0@.len() == if max < squeue_rows(lines_seq(jobs_out@)).len() {
            max as int
        } else {
            squeue_rows(lines_seq(jobs_out@)).len() as int
        },
        forall|k: int| 0 <= k < r.0@.len() ==> job_from_fields(#[trigger] r.0@[k], squeue_rows(lines_seq(jobs_out@))[k]),
        r.1 == (squeue_rows(lines_seq(jobs_out@)).len() > 0),
{
    let rows = lines(jobs_out);
    let ghost all = rows.deep_view();
    let mut out: Vec<Job> = Vec::new();
    let mut any = false;
    let mut i: usize = 0;
    while i < rows.len()
        invariant
            i <= rows@.len(),
            all == rows.deep_view(),
            all == lines_seq(jobs_out@),
            out@.len() == if max < squeue_rows(all.take(i as int)).len() {
                max as int
            } else {
                squeue_rows(all.take(i as int)).len() as int
            },
            forall|k: int| 0 <= k < out@.len() ==> job_from_fields(#[trigger] out@[k], squeue_rows(all.take(i as int))[k]),
            any == (squeue_rows(all.take(i as int)).len() > 0),
        decreases rows@.len() - i,
    {
        let ghost prev = squeue_rows(all.take(i as int));
        assert(all.take(i + 1).drop_last() =~= all.take(i as int));
        assert(all.take(i + 1).last() == rows@[i as int]@);
        match parse_squeue_row(rows[i].as_str()) {
            Some(j) => {
                assert(squeue_rows(all.take(i + 1)) == prev.push(split_seq(rows@[i as int]@, '|')));
                any = true;
                if out.len() < max {
                    out.push(j);
                }
                assert forall|k: int| 0 <= k < out@.len() implies job_from_fields(#[trigger] out@[k], squeue_rows(all.take(i + 1))[k]) by {
                    if k < prev.len() {
                        assert(squeue_rows(all.take(i + 1))[k] == prev[k]);
                    }
                }
            },
            None => {
                assert(squeue_rows(all.take(i + 1)) == prev);
            },
        }
        i = i + 1;
    }
    assert(all.take(rows@.len() as int) =~= all);
    (out, any)
}

/// Build the report on node `node_name` from the outputs of the commands
/// that `investigate_node` runs: `scontrol show node` (stdout, ok, stderr),
/// the `sinfo` node rows, the GRES listing and the `squeue -w` rows.
pub fn node_report(
    node_name: &str,
    max_related_jobs: usize,
    scontrol: (String, bool, String),
    sinfo_out: &str,
    gres_out: &str,
    jobs_out: &str,
    generated_at: SystemTime,
) -> (r: InvestigationReport)
    ensures
        node_report_spec(
            r,
            node_name@,
            max_related_jobs as int,
            scontrol.0@,
            scontrol.1,
            scontrol.2@,
            sinfo_out@,
            gres_out@,
            jobs_out@,
        ),
        r.generated_at == generated_at,
{
    let (scontrol_out, scontrol_ok, scontrol_err) = scontrol;
    let target = InvestigationTarget {
        kind: to_string("node"),
        identifier: to_string(node_name),
        source: to_string("typed"),
    };
    let mut report = InvestigationReport::new(target, generated_at);
    let ghost kv = detail_of(scontrol_out@, scontrol_ok);

    // scontrol show node
    let detail = if scontrol_ok {
        parse_scontrol_kv(scontrol_out.as_str())
    } else {
        StrMap::new()
    };
    let ghost err0 = report.errors@.map_values(|x: InvestigationError| x@);
    assert(err0 =~= Seq::<ErrorView>::empty());
    if scontrol_ok {
        report.raw_sections.insert(to_string("scontrol show node"), to_string("available"));
    } else {
        report.raw_sections.insert(to_string("scontrol show node"), to_string("unavailable"));
        if scontrol_err.as_str().as_bytes().len() > 0 {
            let message = concat(concat("scontrol show node ", node_name).as_str(), " failed");
            push_error(&mut report.errors, InvestigationError {
                source: to_string("scontrol"),
                category: to_string("slurm_command_failed"),
                message,
                stderr: Some(scontrol_err),
            });
        }
    }

    // live sinfo snapshot
    let gpus_alloc = parse_gpus_alloc(gres_out);
    let live = find_live_node(sinfo_out, &gpus_alloc, node_name);
    let ghost lp = first_node_row(lines_seq(sinfo_out@), node_name@);
    if live.is_none() {
        push_error(&mut report.errors, InvestigationError {
            source: to_string("sinfo"),
            category: to_string("node_not_found"),
            message: to_string("Node not in current sinfo snapshot"),
            stderr: None,
        });
    }
    assert(report.errors@.map_values(|x: InvestigationError| x@) =~= node_errors(
        node_name@,
        scontrol_ok,
        scontrol_err@,
        lp is None,
    ));

    // state
    let state_raw = live_field(match &live { Some(n) => Some(&n.state), None => None }, &detail, "State", Ghost(kv));
    let state_token = normalize_node_state_token(state_raw.as_str());

    report.summary = node_summary_items(&live, Ghost(lp), &gpus_alloc, &detail, Ghost(kv));
    report.evidence = node_evidence_items(&live, Ghost(lp), &gpus_alloc, &detail, Ghost(kv));

    // related jobs
    let (jobs_on_node, any_jobs) = jobs_up_to(jobs_out, max_related_jobs);
    report.explanations = node_explanation_items(state_token.as_str(), !any_jobs);
    report.related_jobs = jobs_on_node;
    report
}

/// The `squeue -w` command for the jobs on a node.
pub open spec fn jobs_on_node_cmd(name: Seq<char>) -> Seq<char> {
    "squeue --noheader -w "@ + name + " -o '"@ + SQUEUE_FMT@ + "'"@
}

/// The `sinfo` command for the node rows.
pub open spec fn sinfo_nodes_cmd() -> Seq<char> {
    "sinfo --noheader -N -o '"@ + SINFO_PARTITION_FMT@ + "'"@
}

/// Build an InvestigationReport for a single node.
///
/// Runs `scontrol show node`, the `sinfo` node listing, the GRES listing and
/// `squeue -w` through `source`. Tolerant of partial failure: scontrol
/// unavailable, node missing from the live sinfo snapshot, or no jobs on the
/// node never abort the report; a report with errors is always preferable to
/// no report.
pub fn investigate_node<S: CommandSource>(source: &mut S, node_name: &str, max_related_jobs: usize) -> (r:
    InvestigationReport)
    ensures
        exists|sc_out: Seq<char>, sc_ok: bool, sc_err: Seq<char>, sinfo: Seq<char>, gres: Seq<char>, jobs: Seq<char>|
            {
                &&& old(source).ran("scontrol show node "@ + node_name@, sc_out, sc_ok, sc_err)
                &&& printed(*old(source), sinfo_nodes_cmd(), sinfo)
                &&& printed(*old(source), "sinfo --noheader -N -o '%N %G'"@, gres)
                &&& printed(*old(source), jobs_on_node_cmd(node_name@), jobs)
                &&& node_report_spec(
                    r,
                    node_name@,
                    max_related_jobs as int,
                    sc_out,
                    sc_ok,
                    sc_err,
                    sinfo,
                    gres,
                    jobs,
                )
            },
        same_outcomes(*old(source), *final(source)),
        final(source).log() == log_after(
            log_after(
                log_after(log_after(old(source).log(), "scontrol show node "@ + node_name@), sinfo_nodes_cmd()),
                "sinfo --noheader -N -o '%N %G'"@,
            ),
            jobs_on_node_cmd(node_name@),
        ),
{
    let ghost s0 = *source;
    let scontrol_cmd = concat("scontrol show node ", node_name);
    let scontrol = source.run_result(scontrol_cmd.as_str());
    let ghost sc = (scontrol.0@, scontrol.1, scontrol.2@);
    let sinfo_cmd = concat(concat("sinfo --noheader -N -o '", SINFO_PARTITION_FMT).as_str(), "'");
    let sinfo_out = source.run(sinfo_cmd.as_str());
    let gres_out = source.run("sinfo --noheader -N -o '%N %G'");
    let mut jobs_cmd = concat("squeue --noheader -w ", node_name);
    push_str(&mut jobs_cmd, " -o '");
    push_str(&mut jobs_cmd, SQUEUE_FMT);
    push_str(&mut jobs_cmd, "'");
    let jobs_out = source.run(jobs_cmd.as_str());
    let r = node_report(
        node_name,
        max_related_jobs,
        scontrol,
        sinfo_out.as_str(),
        gres_out.as_str(),
        jobs_out.as_str(),
        now(),
    );
    assert(printed(s0, sinfo_nodes_cmd(), sinfo_out@));
    assert(printed(s0, jobs_on_node_cmd(node_name@), jobs_out@));
    r
}

// ── Job report model ────────────────────────────────────────────────────────

/// The fields of the first well-formed `squeue` row of job `id`, if any.
pub open spec fn first_job_row(rows: Seq<Seq<char>>, id: Seq<char>) -> Option<Seq<Seq<char>>>
    decreases rows.len(),
{
    if rows.len() == 0 {
        None
    } else {
        let parts = split_seq(rows[0], '|');
        if parts.len() >= 12 && parts[0] == id {
            Some(parts)
        } else {
            first_job_row(rows.drop_first(), id)
        }
    }
}

/// `u` up to its first `(`: `alice(1001)` is `alice`.
pub open spec fn before_paren(u: Seq<char>) -> Seq<char> {
    let i = first_index(u, '(');
    if i < 0 {
        u
    } else {
        u.take(i)
    }
}

/// The pending reason of a job and the evidence it comes from: the live
/// row's reason when present, else the `scontrol` reason when present, else
/// nothing.
pub open spec fn job_reason(live: Option<Seq<Seq<char>>>, detail: Seq<(Seq<char>, Seq<char>)>) -> (
    Seq<char>,
    Seq<char>,
) {
    if live matches Some(p) && present_spec(Some(p[9])) {
        (live.unwrap()[9], "squeue.reason"@)
    } else if lookup_entry(detail, "Reason"@) matches Some(r) && present_spec(Some(r)) {
        (lookup_entry(detail, "Reason"@).unwrap(), "scontrol.Reason"@)
    } else {
        (Seq::empty(), Seq::empty())
    }
}

/// The trackable resources of a job: `TRES`, else `ReqTRES`, else empty.
pub open spec fn job_tres(detail: Seq<(Seq<char>, Seq<char>)>) -> Seq<char> {
    match lookup_entry(detail, "TRES"@) {
        Some(t) => t,
        None => detail_value(detail, "ReqTRES"@),
    }
}

/// The GPUs a job requests, read from its trackable resources.
pub open spec fn gpu_request(tres: Seq<char>) -> Seq<char> {
    if tres.len() > 0 {
        match first_capture(requested_gpu_pattern(), tres) {
            Some(c) => c,
            None => Seq::empty(),
        }
    } else {
        Seq::empty()
    }
}

/// The summary of a job report, as (label, value) pairs.
pub open spec fn job_summary(live: Option<Seq<Seq<char>>>, detail: Seq<(Seq<char>, Seq<char>)>) -> Seq<
    (Seq<char>, Seq<char>),
> {
    seq![
        ("State"@, display_spec(Some(live_or(live, 3, detail, "JobState"@)))),
        ("Reason"@, display_spec(Some(job_reason(live, detail).0))),
        ("User"@, display_spec(Some(before_paren(live_or(live, 2, detail, "UserId"@))))),
        ("Partition"@, display_spec(Some(live_or(live, 4, detail, "Partition"@)))),
        ("Requested nodes"@, display_spec(Some(live_or(live, 5, detail, "NumNodes"@)))),
        ("Requested CPUs"@, display_spec(Some(live_or(live, 6, detail, "NumCPUs"@)))),
        ("Requested GPUs"@, display_spec(Some(gpu_request(job_tres(detail))))),
        ("Time used"@, display_spec(Some(live_or(live, 7, detail, "RunTime"@)))),
        ("Time limit"@, display_spec(Some(live_or(live, 8, detail, "TimeLimit"@)))),
        ("Submit time"@, display_spec(Some(detail_value(detail, "SubmitTime"@)))),
        ("Start time"@, display_spec(Some(detail_value(detail, "StartTime"@)))),
    ]
}

/// The evidence a live `squeue` row gives.
pub open spec fn job_live_evidence(live: Option<Seq<Seq<char>>>) -> Seq<EvidenceView> {
    match live {
        None => Seq::empty(),
        Some(p) => seq![
            ("squeue.state"@, "State"@, p[3], "squeue"@, "high"@),
            (
                "squeue.reason"@,
                "Reason"@,
                if p[9].len() == 0 {
                    "(none)"@
                } else {
                    p[9]
                },
                "squeue"@,
                "high"@,
            ),
        ],
    }
}

/// The evidence `scontrol show job` gives; the node list only for a
/// running job.
pub open spec fn job_detail_evidence(detail: Seq<(Seq<char>, Seq<char>)>, running: bool) -> Seq<
    EvidenceView,
> {
    scontrol_evidence(detail, "scontrol.NumNodes"@, "NumNodes"@, "high"@) + scontrol_evidence(
        detail,
        "scontrol.NumCPUs"@,
        "NumCPUs"@,
        "high"@,
    ) + scontrol_evidence(detail, "scontrol.TRES"@, "TRES"@, "high"@) + scontrol_evidence(
        detail,
        "scontrol.Partition"@,
        "Partition"@,
        "high"@,
    ) + scontrol_evidence(detail, "scontrol.QOS"@, "QOS"@, "medium"@) + scontrol_evidence(
        detail,
        "scontrol.TimeLimit"@,
        "TimeLimit"@,
        "high"@,
    ) + scontrol_evidence(detail, "scontrol.Dependency"@, "Dependency"@, "high"@) + if running {
        scontrol_evidence(detail, "scontrol.NodeList"@, "NodeList"@, "high"@)
    } else {
        Seq::empty()
    }
}

/// The `type:id` pairs of the comma-separated parts of a dependency list;
/// parts without `:` are skipped.
pub open spec fn dep_pairs_of(parts: Seq<Seq<char>>) -> Seq<(Seq<char>, Seq<char>)>
    decreases parts.len(),
{
    if parts.len() == 0 {
        Seq::empty()
    } else {
        let prev = dep_pairs_of(parts.drop_last());
        match split_once_seq(parts.last(), ':') {
            Some(pr) => prev.push(pr),
            None => prev,
        }
    }
}

/// The dependencies of a job, from its `Dependency` detail.
pub open spec fn job_dependencies(detail: Seq<(Seq<char>, Seq<char>)>) -> Seq<(Seq<char>, Seq<char>)> {
    match lookup_entry(detail, "Dependency"@) {
        Some(d) => if present_spec(Some(d)) && d != "(null)"@ {
            dep_pairs_of(split_seq(d, ','))
        } else {
            Seq::empty()
        },
        None => Seq::empty(),
    }
}

/// The state of a dependency from its `squeue -j` output: the trimmed
/// output, or `COMPLETED` when the job has left the queue.
pub open spec fn dep_state(out: Seq<char>) -> Seq<char> {
    if trim_seq(out).len() == 0 {
        "COMPLETED"@
    } else {
        trim_seq(out)
    }
}

/// Each dependency with its state: type, id, state. Dependencies without
/// an output are read as having left the queue.
pub open spec fn dep_records(deps: Seq<(Seq<char>, Seq<char>)>, outs: Seq<Seq<char>>) -> Seq<
    (Seq<char>, Seq<char>, Seq<char>),
> {
    Seq::new(
        deps.len(),
        |i: int|
            (
                deps[i].0,
                deps[i].1,
                dep_state(
                    if i < outs.len() {
                        outs[i]
                    } else {
                        Seq::empty()
                    },
                ),
            ),
    )
}

/// The evidence of one dependency.
pub open spec fn dep_evidence(d: (Seq<char>, Seq<char>, Seq<char>)) -> EvidenceView {
    (
        "dep."@ + d.1,
        "Dependency "@ + d.0 + ":"@ + d.1,
        if d.2.len() == 0 {
            "(unknown)"@
        } else {
            d.2
        },
        "squeue"@,
        "high"@,
    )
}

/// The explanations of the dependencies a pending job still waits on: those
/// whose state, uppercased, is neither `COMPLETED` nor `CD`.
pub open spec fn dep_waits(recs: Seq<(Seq<char>, Seq<char>, Seq<char>)>) -> Seq<ExplanationView>
    decreases recs.len(),
{
    if recs.len() == 0 {
        Seq::empty()
    } else {
        let prev = dep_waits(recs.drop_last());
        let d = recs.last();
        let up = uppercase(d.2);
        if up != "COMPLETED"@ && up != "CD"@ {
            prev.push(
                (
                    "Dependency"@,
                    "Job is waiting on dependency "@ + d.0 + ":"@ + d.1 + " (state: "@ + if d.2.len()
                        == 0 {
                        "unknown"@
                    } else {
                        d.2
                    } + ")."@,
                    "high"@,
                    seq!["scontrol.Dependency"@],
                ),
            )
        } else {
            prev
        }
    }
}

/// The node-list expression whose hosts are related to a job: the running
/// job's node list, or the pending job's requested nodes.
pub open spec fn job_nodelist(
    live: Option<Seq<Seq<char>>>,
    detail: Seq<(Seq<char>, Seq<char>)>,
    running: bool,
    pending: bool,
) -> Seq<char> {
    if running {
        live_or(live, 10, detail, "NodeList"@)
    } else if pending {
        detail_value(detail, "ReqNodeList"@)
    } else {
        Seq::empty()
    }
}

/// The trimmed non-empty lines of `scontrol show hostnames` output.
pub open spec fn host_names(rows: Seq<Seq<char>>) -> Seq<Seq<char>>
    decreases rows.len(),
{
    if rows.len() == 0 {
        Seq::empty()
    } else {
        let prev = host_names(rows.drop_last());
        let t = trim_seq(rows.last());
        if t.len() > 0 {
            prev.push(t)
        } else {
            prev
        }
    }
}

/// The fields of the `sinfo` rows about the nodes `names`, in order.
pub open spec fn named_node_rows(rows: Seq<Seq<char>>, names: Seq<Seq<char>>) -> Seq<Seq<Seq<char>>>
    decreases rows.len(),
{
    if rows.len() == 0 {
        Seq::empty()
    } else {
        let prev = named_node_rows(rows.drop_last(), names);
        let parts = split_seq(rows.last(), '|');
        if parts.len() >= 9 && names.contains(parts[0]) {
            prev.push(parts)
        } else {
            prev
        }
    }
}

/// The fields of the first `sacct` row of job `id`, if any.
pub open spec fn sacct_row(rows: Seq<Seq<char>>, id: Seq<char>) -> Option<Seq<Seq<char>>>
    decreases rows.len(),
{
    if rows.len() == 0 {
        None
    } else {
        let parts = split_seq(rows[0], '|');
        if parts.len() >= 5 && parts[0] == id {
            Some(parts)
        } else {
            sacct_row(rows.drop_first(), id)
        }
    }
}

/// The number before a one-letter unit suffix `unit`, if `s` is one.
pub open spec fn with_unit(s: Seq<char>, unit: char) -> Option<u64> {
    if s.len() > 0 && s.last() == unit {
        parse_u64_spec(s.drop_last())
    } else {
        None
    }
}

/// `100 * used / total` rounded half away from zero, capped at `i32::MAX`.
pub open spec fn percent(used: nat, total: nat) -> nat
    recommends
        total > 0,
{
    let p = (200 * used + total) / (2 * total);
    if p > i32::MAX {
        i32::MAX as nat
    } else {
        p
    }
}

/// The CPU accounting of a row: used text, allocated text and percentage,
/// when its raw CPU time is positive and its total CPU time parses.
pub open spec fn sacct_cpu(p: Seq<Seq<char>>) -> Option<(Seq<char>, Seq<char>, nat)> {
    match (parse_u64_spec(p[1]), duration_value(p[2])) {
        (Some(raw), Some(total)) => if raw > 0 && total <= u64::MAX {
            Some((p[2], decimal_seq(raw as nat) + "s"@, percent(total as nat, raw as nat)))
        } else {
            None
        },
        _ => None,
    }
}

/// The memory a row requested, in MB (`ReqMem` with an `M` suffix), or zero.
pub open spec fn sacct_mem_alloc(p: Seq<Seq<char>>) -> nat {
    match with_unit(p[3], 'M') {
        Some(m) => m as nat,
        None => 0,
    }
}

/// The peak memory of a row in MB (`MaxRSS` in K or M), or zero.
pub open spec fn sacct_mem_peak(p: Seq<Seq<char>>) -> nat {
    match with_unit(p[4], 'K') {
        Some(k) => (k / 1024) as nat,
        None => match with_unit(p[4], 'M') {
            Some(m) => m as nat,
            None => 0,
        },
    }
}

/// A number followed by a unit letter reads back as that number.
proof fn lemma_with_unit_decimal(n: nat, unit: char)
    requires
        n <= u64::MAX,
    ensures
        with_unit(decimal_seq(n).push(unit), unit) matches Some(k) && k == n,
{
    crate::text::lemma_decimal_value(n);
    crate::text::lemma_parse_digits(decimal_seq(n));
    assert(decimal_seq(n).push(unit).drop_last() =~= decimal_seq(n));
}

/// Accounting reads the peak memory `MaxRSS` in KiB as MB by dividing by
/// 1024 (`8192000K` is a peak of 8000 MB) and in MB as given, and the
/// requested memory `ReqMem` in MB. Memory efficiency is the peak over the
/// request as a percentage rounded to the nearest whole number, so it is at
/// most 100 when the peak fits in the request.
pub proof fn lemma_sacct_memory_efficiency(p: Seq<Seq<char>>, req: nat, rss: nat, kib: bool)
    requires
        p.len() >= 5,
        0 < req <= u64::MAX,
        rss <= u64::MAX,
        p[3] == decimal_seq(req).push('M'),
        p[4] == decimal_seq(rss).push(if kib { 'K' } else { 'M' }),
    ensures
        ({
            let peak = if kib { rss / 1024 } else { rss };
            let e = percent(peak, req);
            &&& sacct_evidence(p)[1].1 == "Memory efficiency"@
            &&& sacct_evidence(p)[1].2 == decimal_seq(e) + "% (peak "@ + decimal_seq(peak) + " MB of "@
                + decimal_seq(req) + " MB allocated)"@
            &&& peak <= req ==> e <= 100
            &&& e < i32::MAX ==> 2 * req * e <= 200 * peak + req < 2 * req * (e + 1)
        }),
{
    lemma_with_unit_decimal(req, 'M');
    lemma_with_unit_decimal(rss, 'K');
    lemma_with_unit_decimal(rss, 'M');
    let peak = if kib { rss / 1024 } else { rss };
    assert(sacct_mem_alloc(p) == req);
    assert(sacct_mem_peak(p) == peak);
    let q = (200 * peak + req) / (2 * req);
    assert(2 * req * q <= 200 * peak + req < 2 * req * (q + 1)) by (nonlinear_arith)
        requires
            req > 0,
            q == (200 * peak + req) / (2 * req),
    ;
    if peak <= req {
        assert(q <= 100) by (nonlinear_arith)
            requires
                req > 0,
                peak <= req,
                2 * req * q <= 200 * peak + req,
        ;
    }
}

/// Accounting reads CPU efficiency as the used CPU time (`TotalCPU`, a
/// duration) over the allocated CPU seconds (`CPUTimeRAW`), as a percentage
/// rounded to the nearest whole number, and shows the used time as given
/// and the allocation in seconds.
pub proof fn lemma_sacct_cpu_efficiency(p: Seq<Seq<char>>, raw: nat, total: int)
    requires
        p.len() >= 5,
        0 < raw <= u64::MAX,
        p[1] == decimal_seq(raw),
        duration_value(p[2]) == Some(total),
        0 <= total <= u64::MAX,
    ensures
        ({
            let e = percent(total as nat, raw);
            &&& sacct_evidence(p)[0].1 == "CPU efficiency"@
            &&& sacct_evidence(p)[0].2 == decimal_seq(e) + "% (used "@ + p[2] + " of "@ + decimal_seq(raw)
                + "s"@ + ")"@
            &&& total <= raw ==> e <= 100
            &&& e < i32::MAX ==> 2 * raw * e <= 200 * total + raw < 2 * raw * (e + 1)
        }),
{
    crate::text::lemma_decimal_value(raw);
    crate::text::lemma_parse_digits(decimal_seq(raw));
    let used = total as nat;
    assert(sacct_cpu(p) == Some((p[2], decimal_seq(raw) + "s"@, percent(used, raw))));
    let q = (200 * used + raw) / (2 * raw);
    assert(2 * raw * q <= 200 * used + raw < 2 * raw * (q + 1)) by (nonlinear_arith)
        requires
            raw > 0,
            q == (200 * used + raw) / (2 * raw),
    ;
    if used <= raw {
        assert(q <= 100) by (nonlinear_arith)
            requires
                raw > 0,
                used <= raw,
                2 * raw * q <= 200 * used + raw,
        ;
    }
    let ev = sacct_evidence(p);
    assert(ev[0].2 =~= decimal_seq(percent(used, raw)) + "% (used "@ + p[2] + " of "@ + decimal_seq(raw)
        + "s"@ + ")"@);
}

/// The accounting evidence of a finished job's `sacct` row.
pub open spec fn sacct_evidence(p: Seq<Seq<char>>) -> Seq<EvidenceView> {
    let cpu = sacct_cpu(p);
    let (used, alloc, cpu_pct) = match cpu {
        Some(c) => c,
        None => (Seq::empty(), Seq::empty(), 0nat),
    };
    let mem_alloc = sacct_mem_alloc(p);
    let peak = sacct_mem_peak(p);
    let mem_pct = if mem_alloc > 0 {
        percent(peak, mem_alloc)
    } else {
        0
    };
    seq![
        (
            "sacct.cpu_eff"@,
            "CPU efficiency"@,
            decimal_seq(cpu_pct) + "% (used "@ + used + " of "@ + alloc + ")"@,
            "sacct"@,
            "high"@,
        ),
        (
            "sacct.mem_eff"@,
            "Memory efficiency"@,
            decimal_seq(mem_pct) + "% (peak "@ + decimal_seq(peak) + " MB of "@ + decimal_seq(
                mem_alloc,
            ) + " MB allocated)"@,
            "sacct"@,
            "high"@,
        ),
    ]
}

/// The facts of a job investigation that the report is built from.
pub struct JobFacts {
    pub detail: Seq<(Seq<char>, Seq<char>)>,
    pub live: Option<Seq<Seq<char>>>,
    pub state: Seq<char>,
    pub pending: bool,
    pub running: bool,
    pub terminal: bool,
}

/// The facts of job `id` from `scontrol show job` and the `squeue` rows.
pub open spec fn job_facts(id: Seq<char>, sc_out: Seq<char>, sc_ok: bool, squeue: Seq<char>) -> JobFacts {
    let detail = detail_of(sc_out, sc_ok);
    let live = first_job_row(lines_seq(squeue), id);
    let state = uppercase(live_or(live, 3, detail, "JobState"@));
    JobFacts {
        detail,
        live,
        state,
        pending: pending_state_names().contains(state),
        running: running_state_names().contains(state),
        terminal: terminal_state_names().contains(state),
    }
}

/// Whether `r` is the report on job `id` built from the outputs of
/// `scontrol show job`, `squeue`, the `squeue -j` of each dependency, and —
/// where the job's state calls for them — `scontrol show hostnames`, the
/// `sinfo` node rows, the GRES listing and `sacct`, with pending reasons
/// explained by `user` over the built-in table.
pub open spec fn job_report_spec(
    r: InvestigationReport,
    user: Seq<(Seq<char>, InvestigationExplanation)>,
    id: Seq<char>,
    sc_out: Seq<char>,
    sc_ok: bool,
    sc_err: Seq<char>,
    squeue: Seq<char>,
    dep_outs: Seq<Seq<char>>,
    hosts: Seq<char>,
    sinfo: Seq<char>,
    gres: Seq<char>,
    sacct: Seq<char>,
) -> bool {
    let f = job_facts(id, sc_out, sc_ok, squeue);
    let reason = job_reason(f.live, f.detail);
    let recs = dep_records(job_dependencies(f.detail), dep_outs);
    let text = pending_text(user, if present_spec(Some(reason.0)) { Some(reason.0) } else { None });
    let names = host_names(lines_seq(hosts));
    let nodes = if present_spec(Some(job_nodelist(f.live, f.detail, f.running, f.pending)))
        && names.len() > 0 {
        named_node_rows(lines_seq(sinfo), names)
    } else {
        Seq::empty()
    };
    let alloc = gpus_alloc_fold(words_seq(gres)).1;
    let acct = sacct_row(lines_seq(sacct), id);
    &&& r.target@ == ("job"@, id, "typed"@)
    &&& r.summary@.map_values(|i: InvestigationItem| i@) == job_summary(f.live, f.detail)
    &&& r.evidence@.map_values(|e: InvestigationEvidence| e@) == job_live_evidence(f.live)
        + job_detail_evidence(f.detail, f.running) + recs.map_values(
        |d: (Seq<char>, Seq<char>, Seq<char>)| dep_evidence(d),
    ) + if f.terminal && acct is Some {
        sacct_evidence(acct.unwrap())
    } else {
        Seq::empty()
    }
    &&& r.explanations@.map_values(|e: InvestigationExplanation| e@) == when(
        f.pending,
        (
            text.0,
            text.1,
            text.2,
            if reason.1.len() > 0 {
                seq![reason.1]
            } else {
                Seq::empty()
            },
        ),
    ) + if f.pending && recs.len() > 0 {
        dep_waits(recs)
    } else {
        Seq::empty()
    }
    &&& r.related_jobs@.len() == 0
    &&& r.related_nodes@.len() == nodes.len()
    &&& forall|k: int| 0 <= k < nodes.len() ==> node_from_fields(#[trigger] r.related_nodes@[k], nodes[k], alloc)
    &&& r.suggested_actions@.len() == 0
    &&& r.raw_sections.entries().map_values(|e: (Seq<char>, String)| (e.0, e.1@)) == seq![
        ("scontrol show job"@, availability(sc_ok)),
    ] + when(f.terminal, ("sacct"@, availability(acct is Some)))
    &&& r.errors@.map_values(|e: InvestigationError| e@) == when(
        !sc_ok && sc_err.len() > 0,
        (
            "scontrol"@,
            "slurm_command_failed"@,
            "scontrol show job "@ + id + " failed"@,
            Some(sc_err),
        ),
    ) + when(
        f.live is None,
        ("squeue"@, "job_not_found"@, "Job not in current squeue snapshot"@, None::<Seq<char>>),
    ) + when(
        f.terminal && acct is None,
        (
            "sacct"@,
            "slurm_field_unavailable"@,
            "sacct accounting not available for this job"@,
            None::<Seq<char>>,
        ),
    )
}

// ── Job report builders ─────────────────────────────────────────────────────

/// Whether `live` is the parsed form of the row fields `lp`.
pub open spec fn job_matches(live: Option<Job>, lp: Option<Seq<Seq<char>>>) -> bool {
    &&& (live is None <==> lp is None)
    &&& (live matches Some(j) ==> job_from_fields(j, lp.unwrap()))
}

/// The live `squeue` row of job `id`, parsed.
fn find_live_job(squeue_out: &str, id: &str) -> (r: Option<Job>)
    ensures
        job_matches(r, first_job_row(lines_seq(squeue_out@), id@)),
{
    let rows = lines(squeue_out);
    let ghost all = rows.deep_view();
    assert(all.skip(0) =~= all);
    let mut i: usize = 0;
    while i < rows.len()
        invariant
            i <= rows@.len(),
            all == rows.deep_view(),
            all == lines_seq(squeue_out@),
            first_job_row(all, id@) == first_job_row(all.skip(i as int), id@),
        decreases rows@.len() - i,
    {
        assert(all.skip(i as int).drop_first() =~= all.skip(i + 1));
        assert(all.skip(i as int)[0] == rows@[i as int]@);
        match parse_squeue_row(rows[i].as_str()) {
            Some(j) => {
                if str_eq(j.job_id.as_str(), id) {
                    return Some(j);
                }
            },
            None => {},
        }
        i = i + 1;
    }
    assert(all.skip(i as int) =~= Seq::<Seq<char>>::empty());
    None
}

/// `u` up to its first `(`.
fn user_name(u: &str) -> (r: String)
    ensures
        r@ == before_paren(u@),
{
    let v = crate::text::chars_of(u);
    let i = crate::text::find_char_from(&v, 0, '(');
    proof {
        crate::text::lemma_first_index(v@, '(', i as int);
    }
    let r = crate::text::string_from_range(&v, 0, i);
    assert(i == v@.len() ==> v@.take(i as int) =~= v@);
    assert(r@ =~= before_paren(u@));
    r
}

/// The pending reason of a job and where it comes from.
fn reason_of(
    live: &Option<Job>,
    Ghost(lp): Ghost<Option<Seq<Seq<char>>>>,
    detail: &StrMap<String>,
    Ghost(kv): Ghost<Seq<(Seq<char>, Seq<char>)>>,
) -> (r: (String, &'static str))
    requires
        job_matches(*live, lp),
        kv_entries_match(detail.entries(), kv),
    ensures
        (r.0@, r.1@) == job_reason(lp, kv),
{
    if let Some(j) = live {
        if is_present(Some(j.reason.as_str())) {
            return (j.reason.clone(), "squeue.reason");
        }
    }
    match detail_find(detail, "Reason", Ghost(kv)) {
        Some(r) => {
            if is_present(Some(r.as_str())) {
                return (r.clone(), "scontrol.Reason");
            }
        },
        None => {},
    }
    proof {
        reveal_strlit("");
    }
    (String::new(), "")
}

/// The trackable resources of a job.
fn tres_of(detail: &StrMap<String>, Ghost(kv): Ghost<Seq<(Seq<char>, Seq<char>)>>) -> (r: String)
    requires
        kv_entries_match(detail.entries(), kv),
    ensures
        r@ == job_tres(kv),
{
    match detail_find(detail, "TRES", Ghost(kv)) {
        Some(t) => t.clone(),
        None => detail_get(detail, "ReqTRES", Ghost(kv)),
    }
}

/// The summary items of a job report.
fn job_summary_items(
    live: &Option<Job>,
    Ghost(lp): Ghost<Option<Seq<Seq<char>>>>,
    detail: &StrMap<String>,
    Ghost(kv): Ghost<Seq<(Seq<char>, Seq<char>)>>,
) -> (r: Vec<InvestigationItem>)
    requires
        job_matches(*live, lp),
        kv_entries_match(detail.entries(), kv),
    ensures
        r@.map_values(|i: InvestigationItem| i@) == job_summary(lp, kv),
{
    let state = live_field(match live { Some(j) => Some(&j.state), None => None }, detail, "JobState", Ghost(kv));
    let (reason, _) = reason_of(live, Ghost(lp), detail, Ghost(kv));
    let user = live_field(match live { Some(j) => Some(&j.user), None => None }, detail, "UserId", Ghost(kv));
    let user = user_name(user.as_str());
    let partition = live_field(match live { Some(j) => Some(&j.partition), None => None }, detail, "Partition", Ghost(kv));
    let num_nodes = live_field(match live { Some(j) => Some(&j.num_nodes), None => None }, detail, "NumNodes", Ghost(kv));
    let num_cpus = live_field(match live { Some(j) => Some(&j.num_cpus), None => None }, detail, "NumCPUs", Ghost(kv));
    let time_used = live_field(match live { Some(j) => Some(&j.time_used), None => None }, detail, "RunTime", Ghost(kv));
    let time_limit = live_field(match live { Some(j) => Some(&j.time_limit), None => None }, detail, "TimeLimit", Ghost(kv));
    let submit_time = detail_get(detail, "SubmitTime", Ghost(kv));
    let start_time = detail_get(detail, "StartTime", Ghost(kv));
    let tres = tres_of(detail, Ghost(kv));
    let gpu = if tres.as_str().as_bytes().len() > 0 {
        match gpu_capture("gres/gpu(?::[^=]+)?=(\\d+)", tres.as_str()) {
            Some(c) => c,
            None => String::new(),
        }
    } else {
        String::new()
    };
    assert(gpu@ == gpu_request(job_tres(kv)));
    let mut r: Vec<InvestigationItem> = Vec::new();
    push_item(&mut r, item("State", display(Some(state.as_str()))));
    push_item(&mut r, item("Reason", display(Some(reason.as_str()))));
    push_item(&mut r, item("User", display(Some(user.as_str()))));
    push_item(&mut r, item("Partition", display(Some(partition.as_str()))));
    push_item(&mut r, item("Requested nodes", display(Some(num_nodes.as_str()))));
    push_item(&mut r, item("Requested CPUs", display(Some(num_cpus.as_str()))));
    push_item(&mut r, item("Requested GPUs", display(Some(gpu.as_str()))));
    push_item(&mut r, item("Time used", display(Some(time_used.as_str()))));
    push_item(&mut r, item("Time limit", display(Some(time_limit.as_str()))));
    push_item(&mut r, item("Submit time", display(Some(submit_time.as_str()))));
    push_item(&mut r, item("Start time", display(Some(start_time.as_str()))));
    assert(r@.map_values(|i: InvestigationItem| i@) =~= job_summary(lp, kv));
    r
}

/// The evidence of the live row.
fn job_live_evidence_items(live: &Option<Job>, Ghost(lp): Ghost<Option<Seq<Seq<char>>>>) -> (r: Vec<
    InvestigationEvidence,
>)
    requires
        job_matches(*live, lp),
    ensures
        r@.map_values(|x: InvestigationEvidence| x@) == job_live_evidence(lp),
{
    let mut r: Vec<InvestigationEvidence> = Vec::new();
    assert(r@.map_values(|x: InvestigationEvidence| x@) =~= Seq::<EvidenceView>::empty());
    if let Some(j) = live {
        push_evidence(&mut r, evidence("squeue.state", "State", j.state.clone(), "squeue", "high"));
        let value = if j.reason.as_str().as_bytes().len() == 0 {
            to_string("(none)")
        } else {
            j.reason.clone()
        };
        push_evidence(&mut r, evidence("squeue.reason", "Reason", value, "squeue", "high"));
    }
    assert(r@.map_values(|x: InvestigationEvidence| x@) =~= job_live_evidence(lp));
    r
}

/// Appends the evidence of `scontrol show job`.
fn push_job_detail_evidence(
    r: &mut Vec<InvestigationEvidence>,
    detail: &StrMap<String>,
    Ghost(kv): Ghost<Seq<(Seq<char>, Seq<char>)>>,
    running: bool,
)
    requires
        kv_entries_match(detail.entries(), kv),
    ensures
        final(r)@.map_values(|x: InvestigationEvidence| x@) == old(r)@.map_values(
            |x: InvestigationEvidence| x@,
        ) + job_detail_evidence(kv, running),
{
    let ghost g0 = r@.map_values(|x: InvestigationEvidence| x@);
    push_scontrol_evidence(r, detail, Ghost(kv), "scontrol.NumNodes", "NumNodes", "high");
    let ghost g1 = r@.map_values(|x: InvestigationEvidence| x@);
    push_scontrol_evidence(r, detail, Ghost(kv), "scontrol.NumCPUs", "NumCPUs", "high");
    let ghost g2 = r@.map_values(|x: InvestigationEvidence| x@);
    push_scontrol_evidence(r, detail, Ghost(kv), "scontrol.TRES", "TRES", "high");
    let ghost g3 = r@.map_values(|x: InvestigationEvidence| x@);
    push_scontrol_evidence(r, detail, Ghost(kv), "scontrol.Partition", "Partition", "high");
    let ghost g4 = r@.map_values(|x: InvestigationEvidence| x@);
    push_scontrol_evidence(r, detail, Ghost(kv), "scontrol.QOS", "QOS", "medium");
    let ghost g5 = r@.map_values(|x: InvestigationEvidence| x@);
    push_scontrol_evidence(r, detail, Ghost(kv), "scontrol.TimeLimit", "TimeLimit", "high");
    let ghost g6 = r@.map_values(|x: InvestigationEvidence| x@);
    push_scontrol_evidence(r, detail, Ghost(kv), "scontrol.Dependency", "Dependency", "high");
    let ghost g7 = r@.map_values(|x: InvestigationEvidence| x@);
    if running {
        push_scontrol_evidence(r, detail, Ghost(kv), "scontrol.NodeList", "NodeList", "high");
    }
    let ghost g8 = r@.map_values(|x: InvestigationEvidence| x@);
    let ghost a = scontrol_evidence(kv, "scontrol.NumNodes"@, "NumNodes"@, "high"@);
    let ghost b = scontrol_evidence(kv, "scontrol.NumCPUs"@, "NumCPUs"@, "high"@);
    let ghost c = scontrol_evidence(kv, "scontrol.TRES"@, "TRES"@, "high"@);
    let ghost d = scontrol_evidence(kv, "scontrol.Partition"@, "Partition"@, "high"@);
    let ghost e = scontrol_evidence(kv, "scontrol.QOS"@, "QOS"@, "medium"@);
    let ghost f = scontrol_evidence(kv, "scontrol.TimeLimit"@, "TimeLimit"@, "high"@);
    let ghost g = scontrol_evidence(kv, "scontrol.Dependency"@, "Dependency"@, "high"@);
    let ghost h = if running {
        scontrol_evidence(kv, "scontrol.NodeList"@, "NodeList"@, "high"@)
    } else {
        Seq::<EvidenceView>::empty()
    };
    assert(g8 =~= g7 + h);
    assert(g0 + (a + b + c + d + e + f + g + h) =~= g8);
}

/// The dependencies of a job, from its `Dependency` detail.
fn job_dependency_pairs(detail: &StrMap<String>, Ghost(kv): Ghost<Seq<(Seq<char>, Seq<char>)>>) -> (r:
    Vec<(String, String)>)
    requires
        kv_entries_match(detail.entries(), kv),
    ensures
        r@.map_values(|p: (String, String)| (p.0@, p.1@)) == job_dependencies(kv),
{
    let mut r: Vec<(String, String)> = Vec::new();
    assert(r@.map_values(|p: (String, String)| (p.0@, p.1@)) =~= Seq::<(Seq<char>, Seq<char>)>::empty());
    match detail_find(detail, "Dependency", Ghost(kv)) {
        Some(d) => {
            if is_present(Some(d.as_str())) && !str_eq(d.as_str(), "(null)") {
                let parts = split_char(d.as_str(), ',');
                let ghost all = parts.deep_view();
                let mut i: usize = 0;
                while i < parts.len()
                    invariant
                        i <= parts@.len(),
                        all == parts.deep_view(),
                        r@.map_values(|p: (String, String)| (p.0@, p.1@)) == dep_pairs_of(all.take(i as int)),
                    decreases parts@.len() - i,
                {
                    assert(all.take(i + 1).drop_last() =~= all.take(i as int));
                    assert(all.take(i + 1).last() == parts@[i as int]@);
                    match crate::text::split_once_char(parts[i].as_str(), ':') {
                        Some((t, id)) => {
                            let ghost before = r@;
                            r.push((t, id));
                            assert(r@.map_values(|p: (String, String)| (p.0@, p.1@)) =~= before.map_values(
                                |p: (String, String)| (p.0@, p.1@),
                            ).push((r@.last().0@, r@.last().1@)));
                        },
                        None => {},
                    }
                    i = i + 1;
                }
                assert(all.take(parts@.len() as int) =~= all);
            }
        },
        None => {},
    }
    r
}

/// The state of dependency `i`: its trimmed `squeue -j` output, or
/// `COMPLETED`.
fn dep_state_of(outs: &Vec<String>, i: usize) -> (r: String)
    ensures
        r@ == dep_state(
            if i < outs@.len() {
                outs.deep_view()[i as int]
            } else {
                Seq::<char>::empty()
            },
        ),
{
    let t = if i < outs.len() {
        crate::text::trim(outs[i].as_str())
    } else {
        String::new()
    };
    proof {
        if i >= outs@.len() {
            assert(trim_seq(Seq::<char>::empty()) =~= Seq::<char>::empty()) by {
                reveal_with_fuel(crate::text::trim_start_seq, 2);
                reveal_with_fuel(crate::text::trim_end_seq, 2);
            }
        }
    }
    if t.as_str().as_bytes().len() == 0 {
        to_string("COMPLETED")
    } else {
        t
    }
}

/// The evidence and the waiting explanations of a job's dependencies.
fn dependency_items(pairs: &Vec<(String, String)>, outs: &Vec<String>) -> (r: (
    Vec<InvestigationEvidence>,
    Vec<InvestigationExplanation>,
))
    ensures
        r.0@.map_values(|x: InvestigationEvidence| x@) == dep_records(
            pairs@.map_values(|p: (String, String)| (p.0@, p.1@)),
            outs.deep_view(),
        ).map_values(|d: (Seq<char>, Seq<char>, Seq<char>)| dep_evidence(d)),
        r.1@.map_values(|x: InvestigationExplanation| x@) == dep_waits(
            dep_records(pairs@.map_values(|p: (String, String)| (p.0@, p.1@)), outs.deep_view()),
        ),
{
    let ghost recs = dep_records(pairs@.map_values(|p: (String, String)| (p.0@, p.1@)), outs.deep_view());
    let mut evs: Vec<InvestigationEvidence> = Vec::new();
    let mut exps: Vec<InvestigationExplanation> = Vec::new();
    let mut i: usize = 0;
    while i < pairs.len()
        invariant
            i <= pairs@.len(),
            recs == dep_records(pairs@.map_values(|p: (String, String)| (p.0@, p.1@)), outs.deep_view()),
            recs.len() == pairs@.len(),
            evs@.map_values(|x: InvestigationEvidence| x@) == recs.take(i as int).map_values(
                |d: (Seq<char>, Seq<char>, Seq<char>)| dep_evidence(d),
            ),
            exps@.map_values(|x: InvestigationExplanation| x@) == dep_waits(recs.take(i as int)),
        decreases pairs@.len() - i,
    {
        let (t, id) = (&pairs[i].0, &pairs[i].1);
        let state = dep_state_of(outs, i);
        assert(recs[i as int] == (t@, id@, state@));
        let mut eid = to_string("dep.");
        push_str(&mut eid, id.as_str());
        let mut label = to_string("Dependency ");
        push_str(&mut label, t.as_str());
        push_str(&mut label, ":");
        push_str(&mut label, id.as_str());
        let value = if state.as_str().as_bytes().len() == 0 {
            to_string("(unknown)")
        } else {
            state.clone()
        };
        push_evidence(&mut evs, InvestigationEvidence {
            id: eid,
            label,
            value,
            source: to_string("squeue"),
            confidence: to_string("high"),
        });
        proof {
            crate::investigation::lemma_map_take_push(
                recs,
                |d: (Seq<char>, Seq<char>, Seq<char>)| dep_evidence(d),
                i as int,
            );
        }
        assert(recs.take(i + 1).drop_last() =~= recs.take(i as int));
        let up = crate::text::to_upper(state.as_str());
        if !str_eq(up.as_str(), "COMPLETED") && !str_eq(up.as_str(), "CD") {
            let mut detail = to_string("Job is waiting on dependency ");
            push_str(&mut detail, t.as_str());
            push_str(&mut detail, ":");
            push_str(&mut detail, id.as_str());
            push_str(&mut detail, " (state: ");
            if state.as_str().as_bytes().len() == 0 {
                push_str(&mut detail, "unknown");
            } else {
                push_str(&mut detail, state.as_str());
            }
            push_str(&mut detail, ").");
            push_explanation(&mut exps, explanation_with_refs(
                "Dependency",
                detail.as_str(),
                "high",
                refs_of("scontrol.Dependency"),
            ));
        }
        i = i + 1;
    }
    assert(recs.take(pairs@.len() as int) =~= recs);
    (evs, exps)
}

/// The host names of `scontrol show hostnames` output.
fn host_name_list(hosts_out: &str) -> (r: Vec<String>)
    ensures
        r.deep_view() == host_names(lines_seq(hosts_out@)),
{
    let rows = lines(hosts_out);
    let ghost all = rows.deep_view();
    let mut r: Vec<String> = Vec::new();
    let mut i: usize = 0;
    while i < rows.len()
        invariant
            i <= rows@.len(),
            all == rows.deep_view(),
            r.deep_view() == host_names(all.take(i as int)),
        decreases rows@.len() - i,
    {
        assert(all.take(i + 1).drop_last() =~= all.take(i as int));
        assert(all.take(i + 1).last() == rows@[i as int]@);
        let t = crate::text::trim(rows[i].as_str());
        if t.as_str().as_bytes().len() > 0 {
            let ghost before = r.deep_view();
            r.push(t);
            assert(r.deep_view() =~= before.push(r@.last()@));
        }
        i = i + 1;
    }
    assert(all.take(rows@.len() as int) =~= all);
    r
}

/// Whether `name` is one of `names`.
fn has_name(names: &Vec<String>, name: &str) -> (r: bool)
    ensures
        r == names.deep_view().contains(name@),
{
    let mut i: usize = 0;
    while i < names.len()
        invariant
            i <= names@.len(),
            forall|k: int| 0 <= k < i ==> names.deep_view()[k] != name@,
        decreases names@.len() - i,
    {
        if str_eq(names[i].as_str(), name) {
            assert(names.deep_view()[i as int] == name@);
            return true;
        }
        i = i + 1;
    }
    false
}

/// The parsed `sinfo` rows of the nodes `names`, in order.
fn nodes_named(sinfo_out: &str, names: &Vec<String>, alloc: &StrMap<u32>) -> (r: Vec<Node>)
    ensures
        r@.len() == named_node_rows(lines_seq(sinfo_out@), names.deep_view()).len(),
        forall|k: int| 0 <= k < r@.len() ==> node_from_fields(#[trigger] r@[k], named_node_rows(lines_seq(sinfo_out@), names.deep_view())[k], alloc.entries()),
{
    let rows = lines(sinfo_out);
    let ghost all = rows.deep_view();
    let ghost nv = names.deep_view();
    let mut r: Vec<Node> = Vec::new();
    let mut i: usize = 0;
    while i < rows.len()
        invariant
            i <= rows@.len(),
            all == rows.deep_view(),
            nv == names.deep_view(),
            r@.len() == named_node_rows(all.take(i as int), nv).len(),
            forall|k: int| 0 <= k < r@.len() ==> node_from_fields(#[trigger] r@[k], named_node_rows(all.take(i as int), nv)[k], alloc.entries()),
        decreases rows@.len() - i,
    {
        let ghost prev = named_node_rows(all.take(i as int), nv);
        assert(all.take(i + 1).drop_last() =~= all.take(i as int));
        assert(all.take(i + 1).last() == rows@[i as int]@);
        match parse_node_row(rows[i].as_str(), alloc) {
            Some(n) => {
                if has_name(names, n.name.as_str()) {
                    r.push(n);
                    assert forall|k: int| 0 <= k < r@.len() implies node_from_fields(#[trigger] r@[k], named_node_rows(all.take(i + 1), nv)[k], alloc.entries()) by {
                        if k < prev.len() {
                            assert(named_node_rows(all.take(i + 1), nv)[k] == prev[k]);
                        }
                    }
                } else {
                    assert(named_node_rows(all.take(i + 1), nv) == prev);
                }
            },
            None => {
                assert(named_node_rows(all.take(i + 1), nv) == prev);
            },
        }
        i = i + 1;
    }
    assert(all.take(rows@.len() as int) =~= all);
    r
}

/// The fields of the first `sacct` row of job `id`.
fn find_sacct_row(sacct_out: &str, id: &str) -> (r: Option<Vec<String>>)
    ensures
        match r {
            Some(p) => sacct_row(lines_seq(sacct_out@), id@) == Some(p.deep_view()),
            None => sacct_row(lines_seq(sacct_out@), id@) is None,
        },
        r matches Some(p) ==> p@.len() >= 5,
{
    let rows = lines(sacct_out);
    let ghost all = rows.deep_view();
    assert(all.skip(0) =~= all);
    let mut i: usize = 0;
    while i < rows.len()
        invariant
            i <= rows@.len(),
            all == rows.deep_view(),
            sacct_row(lines_seq(sacct_out@), id@) == sacct_row(all.skip(i as int), id@),
            all == lines_seq(sacct_out@),
        decreases rows@.len() - i,
    {
        assert(all.skip(i as int).drop_first() =~= all.skip(i + 1));
        assert(all.skip(i as int)[0] == rows@[i as int]@);
        let parts = split_char(rows[i].as_str(), '|');
        if parts.len() >= 5 && str_eq(parts[0].as_str(), id) {
            return Some(parts);
        }
        i = i + 1;
    }
    assert(all.skip(i as int) =~= Seq::<Seq<char>>::empty());
    None
}

/// `percent(used, total)`.
fn percent_of(used: u64, total: u64) -> (r: u64)
    requires
        total > 0,
    ensures
        r == percent(used as nat, total as nat),
{
    let p: u128 = (200 * (used as u128) + (total as u128)) / (2 * (total as u128));
    if p > 0x7fff_ffff {
        0x7fff_ffff
    } else {
        p as u64
    }
}

/// The number before the unit suffix `unit`, if `s` is one.
fn number_with_unit(s: &str, unit: char) -> (r: Option<u64>)
    ensures
        r == with_unit(s@, unit),
{
    match crate::text::strip_suffix_char(s, unit) {
        Some(rest) => {
            assert(s@.drop_last() =~= rest@);
            crate::text::parse_u64(rest.as_str())
        },
        None => None,
    }
}

/// The accounting evidence of a finished job's `sacct` row.
fn sacct_evidence_items(p: &Vec<String>) -> (r: Vec<InvestigationEvidence>)
    requires
        p@.len() >= 5,
    ensures
        r@.map_values(|x: InvestigationEvidence| x@) == sacct_evidence(p.deep_view()),
{
    let ghost pv = p.deep_view();
    assert(pv[1] == p@[1]@ && pv[2] == p@[2]@ && pv[3] == p@[3]@ && pv[4] == p@[4]@);
    let mut cpu_used = String::new();
    let mut cpu_alloc = String::new();
    let mut cpu_pct: u64 = 0;
    if let Some(raw) = crate::text::parse_u64(p[1].as_str()) {
        if crate::slurm::parse::slurm_duration_fits(p[2].as_str()) {
            if let Some(total) = crate::slurm::parse::parse_slurm_duration(p[2].as_str()) {
                if raw > 0 {
                    cpu_pct = percent_of(total, raw);
                    cpu_used = p[2].clone();
                    cpu_alloc = decimal64(raw);
                    push_str(&mut cpu_alloc, "s");
                }
            }
        }
    }
    assert(match sacct_cpu(pv) {
        Some(c) => (cpu_used@, cpu_alloc@, cpu_pct as nat) == c,
        None => cpu_used@ == Seq::<char>::empty() && cpu_alloc@ == Seq::<char>::empty() && cpu_pct == 0,
    });
    let mem_alloc: u64 = match number_with_unit(p[3].as_str(), 'M') {
        Some(m) => m,
        None => 0,
    };
    let peak: u64 = match number_with_unit(p[4].as_str(), 'K') {
        Some(k) => k / 1024,
        None => match number_with_unit(p[4].as_str(), 'M') {
            Some(m) => m,
            None => 0,
        },
    };
    let mem_pct: u64 = if mem_alloc > 0 {
        percent_of(peak, mem_alloc)
    } else {
        0
    };
    let mut cpu_text = decimal64(cpu_pct);
    push_str(&mut cpu_text, "% (used ");
    push_str(&mut cpu_text, cpu_used.as_str());
    push_str(&mut cpu_text, " of ");
    push_str(&mut cpu_text, cpu_alloc.as_str());
    push_str(&mut cpu_text, ")");
    let mut mem_text = decimal64(mem_pct);
    push_str(&mut mem_text, "% (peak ");
    push_decimal(&mut mem_text, peak);
    push_str(&mut mem_text, " MB of ");
    push_decimal(&mut mem_text, mem_alloc);
    push_str(&mut mem_text, " MB allocated)");
    let mut r: Vec<InvestigationEvidence> = Vec::new();
    push_evidence(&mut r, evidence("sacct.cpu_eff", "CPU efficiency", cpu_text, "sacct", "high"));
    push_evidence(&mut r, evidence("sacct.mem_eff", "Memory efficiency", mem_text, "sacct", "high"));
    assert(r@.map_values(|x: InvestigationEvidence| x@) =~= sacct_evidence(pv));
    r
}

/// The decimal form of `n`.
fn decimal64(n: u64) -> (r: String)
    ensures
        r@ == decimal_seq(n as nat),
{
    let mut r = String::new();
    push_decimal(&mut r, n);
    assert(r@ =~= decimal_seq(n as nat));
    r
}

/// The state facts of a job computed by both `investigate_job` and
/// `job_report`: the parsed detail, the live row, the uppercased state and
/// whether it is pending, running or finished.
fn job_state_facts(job_id: &str, sc_out: &str, sc_ok: bool, squeue_out: &str) -> (r: (
    StrMap<String>,
    Option<Job>,
    bool,
    bool,
    bool,
))
    ensures
        kv_entries_match(r.0.entries(), job_facts(job_id@, sc_out@, sc_ok, squeue_out@).detail),
        job_matches(r.1, job_facts(job_id@, sc_out@, sc_ok, squeue_out@).live),
        r.2 == job_facts(job_id@, sc_out@, sc_ok, squeue_out@).pending,
        r.3 == job_facts(job_id@, sc_out@, sc_ok, squeue_out@).running,
        r.4 == job_facts(job_id@, sc_out@, sc_ok, squeue_out@).terminal,
{
    let ghost f = job_facts(job_id@, sc_out@, sc_ok, squeue_out@);
    let detail = if sc_ok {
        parse_scontrol_kv(sc_out)
    } else {
        let d = StrMap::new();
        assert(kv_entries_match(d.entries(), f.detail));
        d
    };
    let live = find_live_job(squeue_out, job_id);
    let state_raw = live_field(match &live { Some(j) => Some(&j.state), None => None }, &detail, "JobState", Ghost(f.detail));
    let state = crate::text::to_upper(state_raw.as_str());
    let pending = one_of(&pending_states(), state.as_str());
    let running = one_of(&running_states(), state.as_str());
    let terminal = one_of(&terminal_states(), state.as_str());
    (detail, live, pending, running, terminal)
}

/// The node-list expression whose hosts are related to the job.
fn nodelist_of(
    live: &Option<Job>,
    Ghost(lp): Ghost<Option<Seq<Seq<char>>>>,
    detail: &StrMap<String>,
    Ghost(kv): Ghost<Seq<(Seq<char>, Seq<char>)>>,
    running: bool,
    pending: bool,
) -> (r: String)
    requires
        job_matches(*live, lp),
        kv_entries_match(detail.entries(), kv),
    ensures
        r@ == job_nodelist(lp, kv, running, pending),
{
    if running {
        live_field(match live { Some(j) => Some(&j.nodelist), None => None }, detail, "NodeList", Ghost(kv))
    } else if pending {
        detail_get(detail, "ReqNodeList", Ghost(kv))
    } else {
        String::new()
    }
}

fn append_evidence(v: &mut Vec<InvestigationEvidence>, mut more: Vec<InvestigationEvidence>)
    ensures
        final(v)@.map_values(|x: InvestigationEvidence| x@) == old(v)@.map_values(
            |x: InvestigationEvidence| x@,
        ) + more@.map_values(|x: InvestigationEvidence| x@),
{
    let ghost a = v@;
    let ghost b = more@;
    v.append(&mut more);
    assert(v@.map_values(|x: InvestigationEvidence| x@) =~= a.map_values(|x: InvestigationEvidence| x@) + b.map_values(|x: InvestigationEvidence| x@));
}

fn append_explanations(v: &mut Vec<InvestigationExplanation>, mut more: Vec<InvestigationExplanation>)
    ensures
        final(v)@.map_values(|x: InvestigationExplanation| x@) == old(v)@.map_values(
            |x: InvestigationExplanation| x@,
        ) + more@.map_values(|x: InvestigationExplanation| x@),
{
    let ghost a = v@;
    let ghost b = more@;
    v.append(&mut more);
    assert(v@.map_values(|x: InvestigationExplanation| x@) =~= a.map_values(|x: InvestigationExplanation| x@) + b.map_values(|x: InvestigationExplanation| x@));
}

/// The raw-section markers of a job report.
fn job_raw_sections(sc_ok: bool, sacct: Option<bool>) -> (m: StrMap<String>)
    ensures
        m.entries().map_values(|e: (Seq<char>, String)| (e.0, e.1@)) == seq![
            ("scontrol show job"@, availability(sc_ok)),
        ] + match sacct {
            Some(a) => seq![("sacct"@, availability(a))],
            None => Seq::empty(),
        },
{
    let mut m: StrMap<String> = StrMap::new();
    let v = if sc_ok {
        to_string("available")
    } else {
        to_string("unavailable")
    };
    m.insert(to_string("scontrol show job"), v);
    let ghost e1 = m.entries();
    if let Some(a) = sacct {
        proof {
            reveal_strlit("sacct");
            reveal_strlit("scontrol show job");
            assert("sacct"@.len() != "scontrol show job"@.len());
        }
        let v2 = if a {
            to_string("available")
        } else {
            to_string("unavailable")
        };
        let ghost v2v = v2;
        m.insert(to_string("sacct"), v2);
        proof {
            crate::strmap::lemma_insert_absent(e1, "sacct"@, v2v);
        }
    }
    assert(m.entries().map_values(|e: (Seq<char>, String)| (e.0, e.1@)) =~= seq![
        ("scontrol show job"@, availability(sc_ok)),
    ] + match sacct {
        Some(a) => seq![("sacct"@, availability(a))],
        None => Seq::<(Seq<char>, Seq<char>)>::empty(),
    });
    m
}

/// The errors of a job report.
fn job_errors(job_id: &str, sc_ok: bool, sc_err: String, missing: bool, no_accounting: bool) -> (r:
    Vec<InvestigationError>)
    ensures
        r@.map_values(|e: InvestigationError| e@) == when(
            !sc_ok && sc_err@.len() > 0,
            (
                "scontrol"@,
                "slurm_command_failed"@,
                "scontrol show job "@ + job_id@ + " failed"@,
                Some(sc_err@),
            ),
        ) + when(
            missing,
            ("squeue"@, "job_not_found"@, "Job not in current squeue snapshot"@, None::<Seq<char>>),
        ) + when(
            no_accounting,
            (
                "sacct"@,
                "slurm_field_unavailable"@,
                "sacct accounting not available for this job"@,
                None::<Seq<char>>,
            ),
        ),
{
    let ghost err = sc_err@;
    let mut r: Vec<InvestigationError> = Vec::new();
    assert(r@.map_values(|e: InvestigationError| e@) =~= Seq::<ErrorView>::empty());
    if !sc_ok && sc_err.as_str().as_bytes().len() > 0 {
        let message = concat(concat("scontrol show job ", job_id).as_str(), " failed");
        push_error(&mut r, InvestigationError {
            source: to_string("scontrol"),
            category: to_string("slurm_command_failed"),
            message,
            stderr: Some(sc_err),
        });
    }
    let ghost a = r@.map_values(|e: InvestigationError| e@);
    if missing {
        push_error(&mut r, InvestigationError {
            source: to_string("squeue"),
            category: to_string("job_not_found"),
            message: to_string("Job not in current squeue snapshot"),
            stderr: None,
        });
    }
    let ghost b = r@.map_values(|e: InvestigationError| e@);
    if no_accounting {
        push_error(&mut r, InvestigationError {
            source: to_string("sacct"),
            category: to_string("slurm_field_unavailable"),
            message: to_string("sacct accounting not available for this job"),
            stderr: None,
        });
    }
    assert(r@.map_values(|e: InvestigationError| e@) =~= when(
        !sc_ok && err.len() > 0,
        (
            "scontrol"@,
            "slurm_command_failed"@,
            "scontrol show job "@ + job_id@ + " failed"@,
            Some(err),
        ),
    ) + when(
        missing,
        ("squeue"@, "job_not_found"@, "Job not in current squeue snapshot"@, None::<Seq<char>>),
    ) + when(
        no_accounting,
        (
            "sacct"@,
            "slurm_field_unavailable"@,
            "sacct accounting not available for this job"@,
            None::<Seq<char>>,
        ),
    ));
    r
}

/// The explanation of a pending job's reason, citing where the reason came from.
fn pending_reason_item(reasons: &ReasonTable, reason_raw: &str, reason_src: &str) -> (r: InvestigationExplanation)
    ensures
        r@ == (
            pending_text(reasons.user_entries(), if present_spec(Some(reason_raw@)) { Some(reason_raw@) } else { None }).0,
            pending_text(reasons.user_entries(), if present_spec(Some(reason_raw@)) { Some(reason_raw@) } else { None }).1,
            pending_text(reasons.user_entries(), if present_spec(Some(reason_raw@)) { Some(reason_raw@) } else { None }).2,
            if reason_src@.len() > 0 {
                seq![reason_src@]
            } else {
                Seq::<Seq<char>>::empty()
            },
        ),
{
    let present = is_present(Some(reason_raw));
    let e = reasons.explain_pending_reason(if present { Some(reason_raw) } else { None });
    proof {
        crate::investigation::lemma_pending_text(
            reasons.user_entries(),
            if present { Some(reason_raw@) } else { None },
            e,
        );
    }
    let refs = if reason_src.as_bytes().len() > 0 {
        refs_of(reason_src)
    } else {
        let v: Vec<String> = Vec::new();
        assert(v.deep_view() =~= Seq::<Seq<char>>::empty());
        v
    };
    InvestigationExplanation {
        title: e.title,
        detail: e.detail,
        confidence: e.confidence,
        evidence_refs: refs,
    }
}

/// Build the report on job `job_id` from the outputs of the commands that
/// `investigate_job` runs: `scontrol show job` (stdout, ok, stderr), the
/// `squeue` rows, the `squeue -j` output of each dependency in order, and
/// the outputs of `scontrol show hostnames`, the `sinfo` node rows, the GRES
/// listing and `sacct` (each read only where the job's state calls for it).
pub fn job_report(
    job_id: &str,
    reasons: &ReasonTable,
    scontrol: (String, bool, String),
    squeue_out: &str,
    dep_outs: &Vec<String>,
    hosts_out: &str,
    sinfo_out: &str,
    gres_out: &str,
    sacct_out: &str,
    generated_at: SystemTime,
) -> (r: InvestigationReport)
    ensures
        job_report_spec(
            r,
            reasons.user_entries(),
            job_id@,
            scontrol.0@,
            scontrol.1,
            scontrol.2@,
            squeue_out@,
            dep_outs.deep_view(),
            hosts_out@,
            sinfo_out@,
            gres_out@,
            sacct_out@,
        ),
        r.generated_at == generated_at,
{
    let (sc_out, sc_ok, sc_err) = scontrol;
    let ghost f = job_facts(job_id@, sc_out@, sc_ok, squeue_out@);
    let ghost kv = f.detail;
    let ghost lp = f.live;
    let (detail, live, pending, running, terminal) = job_state_facts(job_id, sc_out.as_str(), sc_ok, squeue_out);

    let summary = job_summary_items(&live, Ghost(lp), &detail, Ghost(kv));
    let mut evidence = job_live_evidence_items(&live, Ghost(lp));
    push_job_detail_evidence(&mut evidence, &detail, Ghost(kv), running);

    let mut explanations: Vec<InvestigationExplanation> = Vec::new();
    assert(explanations@.map_values(|e: InvestigationExplanation| e@) =~= Seq::<ExplanationView>::empty());
    if pending {
        let (reason_raw, reason_src) = reason_of(&live, Ghost(lp), &detail, Ghost(kv));
        push_explanation(&mut explanations, pending_reason_item(reasons, reason_raw.as_str(), reason_src));
    }

    // dependencies
    let pairs = job_dependency_pairs(&detail, Ghost(kv));
    let (dep_ev, dep_exp) = dependency_items(&pairs, dep_outs);
    append_evidence(&mut evidence, dep_ev);
    let ghost before_waits = explanations@.map_values(|e: InvestigationExplanation| e@);
    if pending && pairs.len() > 0 {
        append_explanations(&mut explanations, dep_exp);
    }

    // related nodes
    let expr = nodelist_of(&live, Ghost(lp), &detail, Ghost(kv), running, pending);
    let mut related_nodes: Vec<Node> = Vec::new();
    if is_present(Some(expr.as_str())) {
        let names = host_name_list(hosts_out);
        if names.len() > 0 {
            let gpus_alloc = parse_gpus_alloc(gres_out);
            related_nodes = nodes_named(sinfo_out, &names, &gpus_alloc);
        }
    }

    // sacct accounting (finished jobs only)
    let mut sacct_state: Option<bool> = None;
    if terminal {
        match find_sacct_row(sacct_out, job_id) {
            Some(p) => {
                append_evidence(&mut evidence, sacct_evidence_items(&p));
                sacct_state = Some(true);
            },
            None => {
                sacct_state = Some(false);
            },
        }
    }
    let ghost no_row = sacct_row(lines_seq(sacct_out@), job_id@) is None;
    let raw_sections = job_raw_sections(sc_ok, sacct_state);
    let errors = job_errors(job_id, sc_ok, sc_err, live.is_none(), terminal && sacct_state == Some(false));
    let target = InvestigationTarget {
        kind: to_string("job"),
        identifier: to_string(job_id),
        source: to_string("typed"),
    };
    InvestigationReport {
        target,
        generated_at,
        summary,
        evidence,
        explanations,
        related_jobs: Vec::new(),
        related_nodes,
        suggested_actions: Vec::new(),
        raw_sections,
        errors,
    }
}

/// The `squeue` command for the live queue.
pub open spec fn squeue_all_cmd() -> Seq<char> {
    "squeue --noheader -o '"@ + SQUEUE_FMT@ + "' 2>/dev/null"@
}

/// The `squeue -j` command for the state of a dependency.
pub open spec fn dep_state_cmd(id: Seq<char>) -> Seq<char> {
    "squeue --noheader -j "@ + id + " -o '%T'"@
}

/// The `sacct` command for a job's accounting.
pub open spec fn sacct_cmd(id: Seq<char>) -> Seq<char> {
    "sacct -j "@ + id + " --noheader -P -o JobID,CPUTimeRAW,TotalCPU,ReqMem,MaxRSS"@
}

/// Whether the command outputs were what `source` printed for the commands
/// that investigating job `id` runs: `scontrol show job`, `squeue`, the
/// `squeue -j` of each dependency, and where the job's state calls for them
/// `scontrol show hostnames`, the `sinfo` node rows, the GRES listing and
/// `sacct`.
pub open spec fn job_commands_ran<S: CommandSource>(
    source: S,
    id: Seq<char>,
    sc_out: Seq<char>,
    sc_ok: bool,
    sc_err: Seq<char>,
    squeue: Seq<char>,
    dep_outs: Seq<Seq<char>>,
    hosts: Seq<char>,
    sinfo: Seq<char>,
    gres: Seq<char>,
    sacct: Seq<char>,
) -> bool {
    let f = job_facts(id, sc_out, sc_ok, squeue);
    let deps = job_dependencies(f.detail);
    let expr = job_nodelist(f.live, f.detail, f.running, f.pending);
    &&& source.ran("scontrol show job "@ + id, sc_out, sc_ok, sc_err)
    &&& printed(source, squeue_all_cmd(), squeue)
    &&& dep_outs.len() == deps.len()
    &&& forall|i: int| 0 <= i < deps.len() ==> printed(source, dep_state_cmd(deps[i].1), #[trigger] dep_outs[i])
    &&& present_spec(Some(expr)) ==> printed(source, "scontrol show hostnames "@ + expr, hosts)
    &&& present_spec(Some(expr)) && host_names(lines_seq(hosts)).len() > 0 ==> printed(
        source,
        sinfo_nodes_cmd(),
        sinfo,
    ) && printed(source, "sinfo --noheader -N -o '%N %G'"@, gres)
    &&& f.terminal ==> printed(source, sacct_cmd(id), sacct)
}

/// Build an InvestigationReport for a single job.
///
/// Runs `scontrol show job`, `squeue`, one `squeue -j` per dependency, and
/// where the job's state calls for them `scontrol show hostnames`, the
/// `sinfo` node listing, the GRES listing and `sacct`, through `source`.
/// Tolerant of partial failure: scontrol unavailable, the job absent from
/// the live squeue snapshot, or missing accounting never abort the report;
/// a report with errors is always preferable to no report.
pub fn investigate_job<S: CommandSource>(source: &mut S, reasons: &ReasonTable, job_id: &str) -> (r:
    InvestigationReport)
    ensures
        exists|
            sc_out: Seq<char>,
            sc_ok: bool,
            sc_err: Seq<char>,
            squeue: Seq<char>,
            dep_outs: Seq<Seq<char>>,
            hosts: Seq<char>,
            sinfo: Seq<char>,
            gres: Seq<char>,
            sacct: Seq<char>,
        |
            {
                &&& job_commands_ran(
                    *old(source),
                    job_id@,
                    sc_out,
                    sc_ok,
                    sc_err,
                    squeue,
                    dep_outs,
                    hosts,
                    sinfo,
                    gres,
                    sacct,
                )
                &&& job_report_spec(
                    r,
                    reasons.user_entries(),
                    job_id@,
                    sc_out,
                    sc_ok,
                    sc_err,
                    squeue,
                    dep_outs,
                    hosts,
                    sinfo,
                    gres,
                    sacct,
                )
            },
        same_outcomes(*old(source), *final(source)),
{
    let ghost s0 = *source;
    let scontrol_cmd = concat("scontrol show job ", job_id);
    let scontrol = source.run_result(scontrol_cmd.as_str());
    let mut squeue_cmd = to_string("squeue --noheader -o '");
    push_str(&mut squeue_cmd, SQUEUE_FMT);
    push_str(&mut squeue_cmd, "' 2>/dev/null");
    let squeue_out = source.run(squeue_cmd.as_str());
    let ghost f = job_facts(job_id@, scontrol.0@, scontrol.1, squeue_out@);
    let (detail, live, pending, running, terminal) = job_state_facts(
        job_id,
        scontrol.0.as_str(),
        scontrol.1,
        squeue_out.as_str(),
    );

    // dependency states
    let pairs = job_dependency_pairs(&detail, Ghost(f.detail));
    let ghost deps = job_dependencies(f.detail);
    let mut dep_outs: Vec<String> = Vec::new();
    let mut i: usize = 0;
    while i < pairs.len()
        invariant
            i <= pairs@.len(),
            deps == pairs@.map_values(|p: (String, String)| (p.0@, p.1@)),
            dep_outs@.len() == i,
            forall|k: int| 0 <= k < i ==> printed(s0, dep_state_cmd(deps[k].1), #[trigger] dep_outs.deep_view()[k]),
            same_outcomes(s0, *source),
        decreases pairs@.len() - i,
    {
        let mut cmd = concat("squeue --noheader -j ", pairs[i].1.as_str());
        push_str(&mut cmd, " -o '%T'");
        assert(deps[i as int].1 == pairs@[i as int].1@);
        let out = source.run(cmd.as_str());
        let ghost before = dep_outs.deep_view();
        dep_outs.push(out);
        assert(dep_outs.deep_view() =~= before.push(dep_outs@[i as int]@));
        i = i + 1;
    }

    // related-node listings
    let expr = nodelist_of(&live, Ghost(f.live), &detail, Ghost(f.detail), running, pending);
    let mut hosts_out = String::new();
    let mut sinfo_out = String::new();
    let mut gres_out = String::new();
    if is_present(Some(expr.as_str())) {
        let hosts_cmd = concat("scontrol show hostnames ", expr.as_str());
        hosts_out = source.run(hosts_cmd.as_str());
        let names = host_name_list(hosts_out.as_str());
        if names.len() > 0 {
            let sinfo_cmd = concat(concat("sinfo --noheader -N -o '", SINFO_PARTITION_FMT).as_str(), "'");
            sinfo_out = source.run(sinfo_cmd.as_str());
            gres_out = source.run("sinfo --noheader -N -o '%N %G'");
        }
    }

    // accounting
    let mut sacct_out = String::new();
    if terminal {
        let mut cmd = concat("sacct -j ", job_id);
        push_str(&mut cmd, " --noheader -P -o JobID,CPUTimeRAW,TotalCPU,ReqMem,MaxRSS");
        sacct_out = source.run(cmd.as_str());
    }

    let ghost sc = (scontrol.0@, scontrol.1, scontrol.2@);
    let r = job_report(
        job_id,
        reasons,
        scontrol,
        squeue_out.as_str(),
        &dep_outs,
        hosts_out.as_str(),
        sinfo_out.as_str(),
        gres_out.as_str(),
        sacct_out.as_str(),
        now(),
    );
    assert(job_commands_ran(
        s0,
        job_id@,
        sc.0,
        sc.1,
        sc.2,
        squeue_out@,
        dep_outs.deep_view(),
        hosts_out@,
        sinfo_out@,
        gres_out@,
        sacct_out@,
    ));
    r
}
} // verus!
