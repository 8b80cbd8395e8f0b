//! Job info screen: a job's identity, reason, timing, resources, paths and
//! dependencies, as rows the application draws, plus a plain-text copy.

use crate::slurm::fetch::JobDependency;
use crate::slurm::model::Job;
use crate::strmap::StrMap;
use crate::text::{join, join_seq, push_str, str_eq, to_string, to_upper, uppercase};
use crate::views::detail::node_detail::node_key_offset;
use crate::views::detail::scroll::Outcome;
use crate::views::keys::{Key, KeyPress};
use crate::views::tint::Tint;
use vstd::prelude::*;

verus! {

/// One row of the job info screen.
#[derive(Debug, Clone, PartialEq, Eq)]
pub enum InfoRow {
    /// A section heading.
    Heading(String),
    /// A labelled value.
    Field(String, String),
    /// The job state, coloured.
    State(String, Tint),
    /// An indented note, coloured.
    Note(String, Tint),
    /// An empty row.
    Blank,
    /// A dimmed hint.
    Hint(String),
}

/// A row with its texts as character sequences.
pub enum RowView {
    Heading(Seq<char>),
    Field(Seq<char>, Seq<char>),
    State(Seq<char>, Tint),
    Note(Seq<char>, Tint),
    Blank,
    Hint(Seq<char>),
}

/// The view of a row.
pub open spec fn row_view(r: InfoRow) -> RowView {
    match r {
        InfoRow::Heading(t) => RowView::Heading(t@),
        InfoRow::Field(l, v) => RowView::Field(l@, v@),
        InfoRow::State(s, c) => RowView::State(s@, c),
        InfoRow::Note(t, c) => RowView::Note(t@, c),
        InfoRow::Blank => RowView::Blank,
        InfoRow::Hint(t) => RowView::Hint(t@),
    }
}

/// The views of rows.
pub open spec fn rows_view(v: Seq<InfoRow>) -> Seq<RowView> {
    v.map_values(|r: InfoRow| row_view(r))
}

pub open spec fn identity_head() -> Seq<char> {
    "── Identity ──────────────────────────────"@
}

pub open spec fn reason_head() -> Seq<char> {
    "── Reason ────────────────────────────────"@
}

pub open spec fn timing_head() -> Seq<char> {
    "── Timing ────────────────────────────────"@
}

pub open spec fn resources_head() -> Seq<char> {
    "── Resources ─────────────────────────────"@
}

pub open spec fn paths_head() -> Seq<char> {
    "── Paths ──────────────────────────────────"@
}

pub open spec fn deps_head() -> Seq<char> {
    "── Dependencies ──────────────────────────"@
}

/// The colour of an uppercased job state: `RUNNING` green, `PENDING` and
/// `PREEMPTED` yellow, `FAILED`, `CANCELLED` and `NODE_FAIL` red,
/// `COMPLETED` dark gray, `TIMEOUT` magenta, `COMPLETING` cyan, else white.
pub open spec fn job_state_tint(upper: Seq<char>) -> Tint {
    if upper == "RUNNING"@ {
        Tint::Green
    } else if upper == "PENDING"@ {
        Tint::Yellow
    } else if upper == "FAILED"@ || upper == "CANCELLED"@ || upper == "NODE_FAIL"@ {
        Tint::Red
    } else if upper == "COMPLETED"@ {
        Tint::DarkGray
    } else if upper == "TIMEOUT"@ {
        Tint::Magenta
    } else if upper == "PREEMPTED"@ {
        Tint::Yellow
    } else if upper == "COMPLETING"@ {
        Tint::Cyan
    } else {
        Tint::White
    }
}

/// The colour of a job state, compared in upper case.
pub fn state_color(state: &str) -> (r: Tint)
    ensures
        r == job_state_tint(uppercase(state@)),
{
    let u = to_upper(state);
    let s = u.as_str();
    if str_eq(s, "RUNNING") {
        Tint::Green
    } else if str_eq(s, "PENDING") {
        Tint::Yellow
    } else if str_eq(s, "FAILED") || str_eq(s, "CANCELLED") || str_eq(s, "NODE_FAIL") {
        Tint::Red
    } else if str_eq(s, "COMPLETED") {
        Tint::DarkGray
    } else if str_eq(s, "TIMEOUT") {
        Tint::Magenta
    } else if str_eq(s, "PREEMPTED") {
        Tint::Yellow
    } else if str_eq(s, "COMPLETING") {
        Tint::Cyan
    } else {
        Tint::White
    }
}

/// The value under `k`, or `default`.
pub open spec fn get_or(d: StrMap<String>, k: Seq<char>, default: Seq<char>) -> Seq<char> {
    match d.lookup(k) {
        Some(v) => v@,
        None => default,
    }
}

/// A field row when `v` is not empty.
pub open spec fn field_if_set(label: Seq<char>, v: Seq<char>) -> Seq<RowView> {
    if v.len() > 0 {
        seq![RowView::Field(label, v)]
    } else {
        Seq::empty()
    }
}

/// The identity rows.
pub open spec fn identity_rows(job: Job) -> Seq<RowView> {
    seq![
        RowView::Heading(identity_head()),
        RowView::Field("Job ID:"@, job.job_id@),
        RowView::Field(
            "Name:"@,
            if job.name@.len() == 0 {
                "(none)"@
            } else {
                job.name@
            },
        ),
        RowView::Field("User:"@, job.user@),
        RowView::Field("Partition:"@, job.partition@),
        RowView::State(job.state@, job_state_tint(uppercase(job.state@))),
        RowView::Blank,
    ]
}

/// The reason shown: the detail's, else the job's; `(none)` when empty or
/// `None`.
pub open spec fn reason_text(job: Job, d: StrMap<String>) -> Seq<char> {
    let r = get_or(d, "Reason"@, job.reason@);
    if r.len() == 0 || r == "None"@ {
        "(none)"@
    } else {
        r
    }
}

/// The reason rows: dark gray without a reason, yellow with one.
pub open spec fn reason_rows(job: Job, d: StrMap<String>) -> Seq<RowView> {
    let r = reason_text(job, d);
    seq![
        RowView::Heading(reason_head()),
        RowView::Note(
            r,
            if r == "(none)"@ {
                Tint::DarkGray
            } else {
                Tint::Yellow
            },
        ),
        RowView::Blank,
    ]
}

/// A time field when the detail holds a real time under `k` (not empty,
/// `N/A` or `Unknown`).
pub open spec fn time_field(d: StrMap<String>, k: Seq<char>, label: Seq<char>) -> Seq<RowView> {
    match d.lookup(k) {
        Some(v) => if v@.len() > 0 && v@ != "N/A"@ && v@ != "Unknown"@ {
            seq![RowView::Field(label, v@)]
        } else {
            Seq::empty()
        },
        None => Seq::empty(),
    }
}

/// The timing rows, shown when the detail has a submit time.
pub open spec fn timing_rows(job: Job, d: StrMap<String>) -> Seq<RowView> {
    match d.lookup("SubmitTime"@) {
        Some(st) => if st@.len() > 0 {
            seq![RowView::Heading(timing_head()), RowView::Field("Submitted:"@, st@)]
                + time_field(d, "StartTime"@, "Started:"@) + time_field(d, "EndTime"@, "End:"@)
                + field_if_set("Time used:"@, get_or(d, "RunTime"@, job.time_used@))
                + field_if_set("Time limit:"@, get_or(d, "TimeLimit"@, job.time_limit@))
                + seq![RowView::Blank]
        } else {
            Seq::empty()
        },
        None => Seq::empty(),
    }
}

/// The memory value: `MinMemoryNode`, else `mem`.
pub open spec fn memory_value(d: StrMap<String>) -> Option<String> {
    match d.lookup("MinMemoryNode"@) {
        Some(v) => Some(v),
        None => d.lookup("mem"@),
    }
}

/// The resources rows.
pub open spec fn resources_rows(job: Job, d: StrMap<String>) -> Seq<RowView> {
    let nl = get_or(d, "NodeList"@, job.nodelist@);
    seq![
        RowView::Heading(resources_head()),
        RowView::Field("Nodes:"@, get_or(d, "NumNodes"@, job.num_nodes@)),
        RowView::Field("CPUs:"@, get_or(d, "NumCPUs"@, job.num_cpus@)),
    ] + match memory_value(d) {
        Some(m) => field_if_set("Memory:"@, m@),
        None => Seq::empty(),
    } + if nl.len() > 0 && nl != "(null)"@ && nl != "N/A"@ {
        seq![RowView::Field("Nodelist:"@, nl)]
    } else {
        Seq::empty()
    } + match d.lookup("TRES"@) {
        Some(t) => field_if_set("TRES:"@, t@),
        None => Seq::empty(),
    } + seq![RowView::Blank]
}

/// The paths rows, shown when any path is known.
pub open spec fn paths_rows(d: StrMap<String>) -> Seq<RowView> {
    let wd = get_or(d, "WorkDir"@, Seq::empty());
    let cmd = get_or(d, "Command"@, Seq::empty());
    let so = get_or(d, "StdOut"@, Seq::empty());
    let se = get_or(d, "StdErr"@, Seq::empty());
    if wd.len() > 0 || cmd.len() > 0 || so.len() > 0 || se.len() > 0 {
        seq![RowView::Heading(paths_head())] + field_if_set("WorkDir:"@, wd) + field_if_set(
            "Script:"@,
            cmd,
        ) + field_if_set("StdOut:"@, so) + field_if_set("StdErr:"@, se) + seq![RowView::Blank]
    } else {
        Seq::empty()
    }
}

/// A dependency note: `type:id  [state]`, green when completed, else yellow.
pub open spec fn dep_row(dep: JobDependency) -> RowView {
    RowView::Note(
        dep.dep_type@ + ":"@ + dep.job_id@ + "  ["@ + dep.state@ + "]"@,
        if dep.state@ == "COMPLETED"@ {
            Tint::Green
        } else {
            Tint::Yellow
        },
    )
}

/// The dependency rows: the resolved dependencies when there are any, else
/// the raw `Dependency` value when it names one.
pub open spec fn deps_rows(d: StrMap<String>, deps: Seq<JobDependency>) -> Seq<RowView> {
    if deps.len() > 0 {
        seq![RowView::Heading(deps_head())] + deps.map_values(|dp: JobDependency| dep_row(dp))
            + seq![RowView::Blank]
    } else {
        match d.lookup("Dependency"@) {
            Some(v) => if v@.len() > 0 && v@ != "None"@ && v@ != "(null)"@ {
                seq![
                    RowView::Heading(deps_head()),
                    RowView::Note(v@, Tint::DarkGray),
                    RowView::Blank,
                ]
            } else {
                Seq::empty()
            },
            None => Seq::empty(),
        }
    }
}

/// The closing hint.
pub open spec fn hint_text() -> Seq<char> {
    "  Press q or Esc to close"@
}

/// All rows of the job info screen.
pub open spec fn info_rows(job: Job, d: StrMap<String>, deps: Seq<JobDependency>) -> Seq<RowView> {
    identity_rows(job) + reason_rows(job, d) + timing_rows(job, d) + resources_rows(job, d)
        + paths_rows(d) + deps_rows(d, deps) + seq![RowView::Hint(hint_text())]
}

/// The job info screen shows the job's CPU count under "CPUs:" (the
/// `NumCPUs` detail value, else the job's own `num_cpus`) and its node count
/// under "Nodes:" (`NumNodes`, else `num_nodes`); no other resources row
/// carries either label.
pub proof fn lemma_info_resources_counts(job: Job, d: StrMap<String>, deps: Seq<JobDependency>)
    ensures
        ({
            let cpus = match d.lookup("NumCPUs"@) {
                Some(v) => v@,
                None => job.num_cpus@,
            };
            let nodes = match d.lookup("NumNodes"@) {
                Some(v) => v@,
                None => job.num_nodes@,
            };
            let rows = info_rows(job, d, deps);
            let res = resources_rows(job, d);
            &&& exists|i: int| 0 <= i < rows.len() && rows[i] == RowView::Field("CPUs:"@, cpus)
            &&& exists|i: int| 0 <= i < rows.len() && rows[i] == RowView::Field("Nodes:"@, nodes)
            &&& forall|i: int|
                0 <= i < res.len() ==> (#[trigger] res[i] matches RowView::Field(l, v) ==> (l == "CPUs:"@
                    ==> v == cpus))
            &&& forall|i: int|
                0 <= i < res.len() ==> (#[trigger] res[i] matches RowView::Field(l, v) ==> (l == "Nodes:"@
                    ==> v == nodes))
        }),
{
    reveal_strlit("CPUs:");
    reveal_strlit("Nodes:");
    reveal_strlit("Memory:");
    reveal_strlit("Nodelist:");
    reveal_strlit("TRES:");
    let res = resources_rows(job, d);
    let pre = identity_rows(job) + reason_rows(job, d) + timing_rows(job, d);
    let rows = info_rows(job, d, deps);
    assert(rows == pre + res + paths_rows(d) + deps_rows(d, deps) + seq![RowView::Hint(hint_text())]);
    assert(rows[pre.len() as int + 1] == res[1]);
    assert(rows[pre.len() as int + 2] == res[2]);
    assert("Memory:"@ != "CPUs:"@ && "Memory:"@ != "Nodes:"@) by {
        assert("Memory:"@.len() != "CPUs:"@.len());
        assert("Memory:"@[0] != "Nodes:"@[0]);
    }
    assert("Nodelist:"@ != "CPUs:"@ && "Nodelist:"@ != "Nodes:"@) by {
        assert("Nodelist:"@.len() != "CPUs:"@.len());
        assert("Nodelist:"@.len() != "Nodes:"@.len());
    }
    assert("TRES:"@ != "CPUs:"@ && "TRES:"@ != "Nodes:"@) by {
        assert("TRES:"@[0] != "CPUs:"@[0]);
        assert("TRES:"@[0] != "Nodes:"@[0]);
    }
    assert("CPUs:"@ != "Nodes:"@) by {
        assert("CPUs:"@[0] != "Nodes:"@[0]);
    }
}

/// `n` spaces.
pub open spec fn spaces(n: nat) -> Seq<char> {
    Seq::new(n, |i: int| ' ')
}

/// `s` padded with spaces to 14 characters.
pub open spec fn pad14(s: Seq<char>) -> Seq<char> {
    if s.len() < 14 {
        s + spaces((14 - s.len()) as nat)
    } else {
        s
    }
}

/// The plain text of a row.
pub open spec fn row_plain(r: RowView) -> Seq<char> {
    match r {
        RowView::Heading(t) => t,
        RowView::Field(l, v) => "  "@ + pad14(l) + " "@ + v,
        RowView::State(s, _) => "  State:      "@ + s,
        RowView::Note(t, _) => "  "@ + t,
        RowView::Blank => Seq::empty(),
        RowView::Hint(t) => t,
    }
}

/// The plain text of rows, joined by newlines.
pub open spec fn plain_of(rows: Seq<RowView>) -> Seq<char> {
    join_seq(rows.map_values(|r: RowView| row_plain(r)), "\n"@)
}


fn push_row(v: &mut Vec<InfoRow>, r: InfoRow)
    ensures
        rows_view(final(v)@) == rows_view(old(v)@).push(row_view(r)),
{
    let ghost before = v@;
    v.push(r);
    assert(rows_view(v@) =~= rows_view(before).push(row_view(r)));
}

fn append_rows(v: &mut Vec<InfoRow>, w: Vec<InfoRow>)
    ensures
        rows_view(final(v)@) == rows_view(old(v)@) + rows_view(w@),
{
    let ghost before = v@;
    let mut w = w;
    let ghost wv = w@;
    v.append(&mut w);
    assert(rows_view(v@) =~= rows_view(before) + rows_view(wv));
}

fn field(label: &str, value: &str) -> (r: InfoRow)
    ensures
        row_view(r) == RowView::Field(label@, value@),
{
    InfoRow::Field(to_string(label), to_string(value))
}

fn get_or_exec(d: &StrMap<String>, k: &str, default: &str) -> (r: String)
    ensures
        r@ == get_or(*d, k@, default@),
{
    match d.get(k) {
        Some(v) => v.clone(),
        None => to_string(default),
    }
}

fn field_if_set_exec(v: &mut Vec<InfoRow>, label: &str, value: &str)
    ensures
        rows_view(final(v)@) == rows_view(old(v)@) + field_if_set(label@, value@),
{
    if !value.is_empty() {
        push_row(v, field(label, value));
    } else {
        assert(rows_view(v@) =~= rows_view(v@) + field_if_set(label@, value@));
    }
}

fn identity_exec(job: &Job) -> (r: Vec<InfoRow>)
    ensures
        rows_view(r@) == identity_rows(*job),
{
    proof {
        reveal_strlit("(none)");
    }
    let mut v: Vec<InfoRow> = Vec::new();
    push_row(&mut v, InfoRow::Heading(to_string("── Identity ──────────────────────────────")));
    push_row(&mut v, field("Job ID:", job.job_id.as_str()));
    if job.name.as_str().is_empty() {
        push_row(&mut v, field("Name:", "(none)"));
    } else {
        push_row(&mut v, field("Name:", job.name.as_str()));
    }
    push_row(&mut v, field("User:", job.user.as_str()));
    push_row(&mut v, field("Partition:", job.partition.as_str()));
    push_row(&mut v, InfoRow::State(job.state.clone(), state_color(job.state.as_str())));
    push_row(&mut v, InfoRow::Blank);
    assert(rows_view(v@) =~= identity_rows(*job));
    v
}

fn reason_exec(job: &Job, d: &StrMap<String>) -> (r: Vec<InfoRow>)
    ensures
        rows_view(r@) == reason_rows(*job, *d),
{
    let raw = get_or_exec(d, "Reason", job.reason.as_str());
    let reason = if raw.as_str().is_empty() || str_eq(raw.as_str(), "None") {
        to_string("(none)")
    } else {
        raw
    };
    let tint = if str_eq(reason.as_str(), "(none)") {
        Tint::DarkGray
    } else {
        Tint::Yellow
    };
    let mut v: Vec<InfoRow> = Vec::new();
    push_row(&mut v, InfoRow::Heading(to_string("── Reason ────────────────────────────────")));
    push_row(&mut v, InfoRow::Note(reason, tint));
    push_row(&mut v, InfoRow::Blank);
    assert(rows_view(v@) =~= reason_rows(*job, *d));
    v
}

fn time_field_exec(v: &mut Vec<InfoRow>, d: &StrMap<String>, k: &str, label: &str)
    ensures
        rows_view(final(v)@) == rows_view(old(v)@) + time_field(*d, k@, label@),
{
    match d.get(k) {
        Some(t) => {
            let ts = t.as_str();
            if !ts.is_empty() && !str_eq(ts, "N/A") && !str_eq(ts, "Unknown") {
                push_row(v, field(label, ts));
                return;
            }
        },
        None => {},
    }
    assert(rows_view(v@) =~= rows_view(v@) + time_field(*d, k@, label@));
}

fn timing_exec(job: &Job, d: &StrMap<String>) -> (r: Vec<InfoRow>)
    ensures
        rows_view(r@) == timing_rows(*job, *d),
{
    let mut v: Vec<InfoRow> = Vec::new();
    match d.get("SubmitTime") {
        Some(st) => {
            if !st.as_str().is_empty() {
                push_row(&mut v, InfoRow::Heading(to_string("── Timing ────────────────────────────────")));
                push_row(&mut v, field("Submitted:", st.as_str()));
                time_field_exec(&mut v, d, "StartTime", "Started:");
                time_field_exec(&mut v, d, "EndTime", "End:");
                let used = get_or_exec(d, "RunTime", job.time_used.as_str());
                field_if_set_exec(&mut v, "Time used:", used.as_str());
                let limit = get_or_exec(d, "TimeLimit", job.time_limit.as_str());
                field_if_set_exec(&mut v, "Time limit:", limit.as_str());
                push_row(&mut v, InfoRow::Blank);
            }
        },
        None => {},
    }
    assert(rows_view(v@) =~= timing_rows(*job, *d));
    v
}

fn resources_exec(job: &Job, d: &StrMap<String>) -> (r: Vec<InfoRow>)
    ensures
        rows_view(r@) == resources_rows(*job, *d),
{
    let mut v: Vec<InfoRow> = Vec::new();
    push_row(&mut v, InfoRow::Heading(to_string("── Resources ─────────────────────────────")));
    let nodes = get_or_exec(d, "NumNodes", job.num_nodes.as_str());
    push_row(&mut v, field("Nodes:", nodes.as_str()));
    let cpus = get_or_exec(d, "NumCPUs", job.num_cpus.as_str());
    push_row(&mut v, field("CPUs:", cpus.as_str()));
    match d.get("MinMemoryNode") {
        Some(m) => field_if_set_exec(&mut v, "Memory:", m.as_str()),
        None => match d.get("mem") {
            Some(m) => field_if_set_exec(&mut v, "Memory:", m.as_str()),
            None => {},
        },
    }
    let nl = get_or_exec(d, "NodeList", job.nodelist.as_str());
    let nls = nl.as_str();
    if !nls.is_empty() && !str_eq(nls, "(null)") && !str_eq(nls, "N/A") {
        push_row(&mut v, field("Nodelist:", nls));
    }
    match d.get("TRES") {
        Some(t) => field_if_set_exec(&mut v, "TRES:", t.as_str()),
        None => {},
    }
    push_row(&mut v, InfoRow::Blank);
    assert(rows_view(v@) =~= resources_rows(*job, *d));
    v
}

fn paths_exec(d: &StrMap<String>) -> (r: Vec<InfoRow>)
    ensures
        rows_view(r@) == paths_rows(*d),
{
    let wd = get_or_exec(d, "WorkDir", "");
    let cmd = get_or_exec(d, "Command", "");
    let so = get_or_exec(d, "StdOut", "");
    let se = get_or_exec(d, "StdErr", "");
    proof {
        reveal_strlit("");
        assert(""@ =~= Seq::<char>::empty());
    }
    let mut v: Vec<InfoRow> = Vec::new();
    if !wd.as_str().is_empty() || !cmd.as_str().is_empty() || !so.as_str().is_empty()
        || !se.as_str().is_empty() {
        push_row(&mut v, InfoRow::Heading(to_string("── Paths ──────────────────────────────────")));
        field_if_set_exec(&mut v, "WorkDir:", wd.as_str());
        field_if_set_exec(&mut v, "Script:", cmd.as_str());
        field_if_set_exec(&mut v, "StdOut:", so.as_str());
        field_if_set_exec(&mut v, "StdErr:", se.as_str());
        push_row(&mut v, InfoRow::Blank);
    }
    assert(rows_view(v@) =~= paths_rows(*d));
    v
}

fn dep_row_exec(dep: &JobDependency) -> (r: InfoRow)
    ensures
        row_view(r) == dep_row(*dep),
{
    let mut t = dep.dep_type.clone();
    push_str(&mut t, ":");
    push_str(&mut t, dep.job_id.as_str());
    push_str(&mut t, "  [");
    push_str(&mut t, dep.state.as_str());
    push_str(&mut t, "]");
    let tint = if str_eq(dep.state.as_str(), "COMPLETED") {
        Tint::Green
    } else {
        Tint::Yellow
    };
    InfoRow::Note(t, tint)
}

fn deps_exec(d: &StrMap<String>, deps: &Vec<JobDependency>) -> (r: Vec<InfoRow>)
    ensures
        rows_view(r@) == deps_rows(*d, deps@),
{
    let mut v: Vec<InfoRow> = Vec::new();
    if deps.len() > 0 {
        push_row(&mut v, InfoRow::Heading(to_string("── Dependencies ──────────────────────────")));
        let mut i: usize = 0;
        while i < deps.len()
            invariant
                i <= deps@.len(),
                rows_view(v@) == seq![RowView::Heading(deps_head())] + deps@.take(i as int).map_values(
                    |dp: JobDependency| dep_row(dp),
                ),
            decreases deps@.len() - i,
        {
            push_row(&mut v, dep_row_exec(&deps[i]));
            assert(deps@.take(i + 1).map_values(|dp: JobDependency| dep_row(dp)) =~= deps@.take(
                i as int,
            ).map_values(|dp: JobDependency| dep_row(dp)).push(dep_row(deps@[i as int])));
            i = i + 1;
        }
        assert(deps@.take(deps@.len() as int) =~= deps@);
        push_row(&mut v, InfoRow::Blank);
    } else {
        match d.get("Dependency") {
            Some(ds) => {
                let t = ds.as_str();
                if !t.is_empty() && !str_eq(t, "None") && !str_eq(t, "(null)") {
                    push_row(&mut v, InfoRow::Heading(to_string("── Dependencies ──────────────────────────")));
                    push_row(&mut v, InfoRow::Note(ds.clone(), Tint::DarkGray));
                    push_row(&mut v, InfoRow::Blank);
                }
            },
            None => {},
        }
    }
    assert(rows_view(v@) =~= deps_rows(*d, deps@));
    v
}

/// `s` padded with spaces to 14 characters.
fn pad14_exec(s: &str) -> (r: String)
    ensures
        r@ == pad14(s@),
{
    let n = crate::text::chars_of(s).len();
    let mut r = to_string(s);
    if n < 14 {
        let mut k: usize = n;
        while k < 14
            invariant
                n <= k <= 14,
                n == s@.len(),
                r@ == s@ + spaces((k - n) as nat),
            decreases 14 - k,
        {
            r.push(' ');
            assert(r@ =~= s@ + spaces((k + 1 - n) as nat));
            k = k + 1;
        }
    }
    r
}

/// The plain text of a row.
fn row_plain_exec(r: &InfoRow) -> (t: String)
    ensures
        t@ == row_plain(row_view(*r)),
{
    match r {
        InfoRow::Heading(h) => h.clone(),
        InfoRow::Field(l, v) => {
            let mut t = to_string("  ");
            let p = pad14_exec(l.as_str());
            push_str(&mut t, p.as_str());
            push_str(&mut t, " ");
            push_str(&mut t, v.as_str());
            t
        },
        InfoRow::State(st, _) => {
            let mut t = to_string("  State:      ");
            push_str(&mut t, st.as_str());
            t
        },
        InfoRow::Note(n, _) => {
            let mut t = to_string("  ");
            push_str(&mut t, n.as_str());
            t
        },
        InfoRow::Blank => String::new(),
        InfoRow::Hint(h) => h.clone(),
    }
}

/// The plain text of rows, joined by newlines.
pub fn plain_text_of(rows: &Vec<InfoRow>) -> (r: String)
    ensures
        r@ == plain_of(rows_view(rows@)),
{
    let mut lines: Vec<String> = Vec::new();
    let mut i: usize = 0;
    while i < rows.len()
        invariant
            i <= rows@.len(),
            lines.deep_view() == rows_view(rows@).take(i as int).map_values(|r: RowView| row_plain(r)),
        decreases rows@.len() - i,
    {
        let ghost before = lines.deep_view();
        lines.push(row_plain_exec(&rows[i]));
        assert(lines.deep_view() =~= before.push(row_plain(row_view(rows@[i as int]))));
        assert(rows_view(rows@).take(i + 1).map_values(|r: RowView| row_plain(r)) =~= rows_view(
            rows@,
        ).take(i as int).map_values(|r: RowView| row_plain(r)).push(row_plain(row_view(rows@[i as int]))));
        i = i + 1;
    }
    assert(rows_view(rows@).take(rows@.len() as int) =~= rows_view(rows@));
    join(&lines, "\n")
}

/// The rows of the job info screen and their plain text.
pub fn build_info_content(job: &Job, detail: &StrMap<String>, deps: &Vec<JobDependency>) -> (r: (
    Vec<InfoRow>,
    String,
))
    ensures
        rows_view(r.0@) == info_rows(*job, *detail, deps@),
        r.1@ == plain_of(info_rows(*job, *detail, deps@)),
{
    let mut rows = identity_exec(job);
    append_rows(&mut rows, reason_exec(job, detail));
    append_rows(&mut rows, timing_exec(job, detail));
    append_rows(&mut rows, resources_exec(job, detail));
    append_rows(&mut rows, paths_exec(detail));
    append_rows(&mut rows, deps_exec(detail, deps));
    push_row(&mut rows, InfoRow::Hint(to_string("  Press q or Esc to close")));
    assert(rows_view(rows@) =~= info_rows(*job, *detail, deps@));
    let plain = plain_text_of(&rows);
    (rows, plain)
}

/// Rich job information viewer.
pub struct JobInfoScreen {
    job: Job,
    scroll_offset: usize,
    lines: Vec<InfoRow>,
    plain_text: String,
}

impl JobInfoScreen {
    /// The rows shown.
    pub closed spec fn shown_rows(&self) -> Seq<RowView> {
        rows_view(self.lines@)
    }

    /// The first row shown.
    pub closed spec fn offset(&self) -> usize {
        self.scroll_offset
    }

    /// The job shown.
    pub closed spec fn shown_job(&self) -> Job {
        self.job
    }

    /// The copy text.
    pub closed spec fn copy_text(&self) -> Seq<char> {
        self.plain_text@
    }

    /// A job info screen at the top.
    pub fn new(job: Job, detail: StrMap<String>, deps: Vec<JobDependency>) -> (s: Self)
        ensures
            s.shown_rows() == info_rows(job, detail, deps@),
            s.copy_text() == plain_of(info_rows(job, detail, deps@)),
            s.offset() == 0,
            s.shown_job() == job,
    {
        let (lines, plain_text) = build_info_content(&job, &detail, &deps);
        JobInfoScreen { job, scroll_offset: 0, lines, plain_text }
    }

    /// The number of rows.
    pub fn row_count(&self) -> (r: usize)
        ensures
            r == self.shown_rows().len(),
    {
        self.lines.len()
    }

    /// The row at `i`.
    pub fn row(&self, i: usize) -> (r: &InfoRow)
        requires
            i < self.shown_rows().len(),
        ensures
            row_view(*r) == self.shown_rows()[i as int],
    {
        &self.lines[i]
    }

    /// The first row shown.
    pub fn scroll_offset(&self) -> (r: usize)
        ensures
            r == self.offset(),
    {
        self.scroll_offset
    }

    /// The dialog title: `Job <id>`, with ` — <name>` when the job has one.
    pub fn title(&self) -> (r: String)
        ensures
            r@ == "Job "@ + self.shown_job().job_id@ + if self.shown_job().name@.len() == 0 {
                Seq::<char>::empty()
            } else {
                " — "@ + self.shown_job().name@
            },
    {
        let mut t = to_string("Job ");
        push_str(&mut t, self.job.job_id.as_str());
        if !self.job.name.as_str().is_empty() {
            push_str(&mut t, " — ");
            push_str(&mut t, self.job.name.as_str());
        } else {
            assert(t@ =~= t@ + Seq::<char>::empty());
        }
        t
    }

    /// Handle a key: `Esc`/`q` close; arrows and `j`/`k` scroll one row,
    /// page keys ten, never past the last row.
    pub fn handle_key(&mut self, key: KeyPress) -> (r: Outcome)
        ensures
            final(self).shown_rows() == old(self).shown_rows(),
            final(self).shown_job() == old(self).shown_job(),
            final(self).copy_text() == old(self).copy_text(),
            r == (if key.key == Key::Esc || key.key == Key::Char('q') {
                Outcome::Close
            } else {
                Outcome::Nothing
            }),
            final(self).offset() == node_key_offset(
                old(self).offset() as int,
                old(self).shown_rows().len() as int,
                key.key,
            ),
    {
        let max_scroll = self.lines.len().saturating_sub(1);
        match key.key {
            Key::Esc | Key::Char('q') => Outcome::Close,
            Key::Up | Key::Char('k') => {
                self.scroll_offset = self.scroll_offset.saturating_sub(1);
                Outcome::Nothing
            },
            Key::Down | Key::Char('j') => {
                if self.scroll_offset < max_scroll {
                    self.scroll_offset = self.scroll_offset + 1;
                }
                Outcome::Nothing
            },
            Key::PageUp => {
                self.scroll_offset = self.scroll_offset.saturating_sub(10);
                Outcome::Nothing
            },
            Key::PageDown => {
                let next = self.scroll_offset.saturating_add(10);
                self.scroll_offset = if next < max_scroll {
                    next
                } else {
                    max_scroll
                };
                Outcome::Nothing
            },
            _ => Outcome::Nothing,
        }
    }

    /// The text for clipboard copy.
    pub fn plain_text(&self) -> (r: &str)
        ensures
            r@ == self.copy_text(),
    {
        self.plain_text.as_str()
    }

    /// The label for clipboard copy: `Job <id> Info`.
    pub fn label(&self) -> (r: String)
        ensures
            r@ == "Job "@ + self.shown_job().job_id@ + " Info"@,
    {
        let mut r = to_string("Job ");
        push_str(&mut r, self.job.job_id.as_str());
        push_str(&mut r, " Info");
        r
    }
}

} // verus!
