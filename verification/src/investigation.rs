//! Pending-reason classification and investigation report assembly.
//!
//! The domain types of an investigation, the explanation tables for Slurm
//! pending reasons and node states, and the plain-text report renderer.
//! Nothing here runs a command: the builders take already-fetched Slurm data.

use crate::slurm::model::{Job, Node};
use crate::slurm::parse::{node_state_token_spec, normalize_node_state_token};
use crate::strmap::{
    insert_entry, key_lt, lemma_insert_by_key_at, lemma_key_sorted_unique, lemma_same_entries,
    lemma_sort_by_key, lookup_entry, sort_by_key, StrMap,
};
use crate::text::{
    chars_of, contains, contains_seq, join, join_seq, push_str, split_char, split_seq, str_eq, to_string,
    to_upper, trim, trim_seq, uppercase, is_blank,
};
use std::time::SystemTime;
use vstd::prelude::*;

verus! {

/// A point in wall-clock time; opaque to proofs.
#[verifier::external_type_specification]
#[verifier::external_body]
pub struct ExSystemTime(SystemTime);

/// `"job"` or `"node"`.
pub type InvestigationKind = String;

/// `"cursor"`, `"typed"`, `"related_link"` or `"watch"`.
pub type InvestigationSource = String;

/// `"squeue"`, `"sinfo"`, `"scontrol"`, `"sacct"`, `"derived"` or `"cache"`.
pub type EvidenceSource = String;

/// `"high"`, `"medium"` or `"low"`.
pub type Confidence = String;

/// Investigation target.
#[derive(Debug, Clone, PartialEq, Eq)]
pub struct InvestigationTarget {
    pub kind: InvestigationKind,
    pub identifier: String,
    pub source: InvestigationSource,
}

impl View for InvestigationTarget {
    type V = (Seq<char>, Seq<char>, Seq<char>);

    open spec fn view(&self) -> Self::V {
        (self.kind@, self.identifier@, self.source@)
    }
}

/// Investigation evidence item.
#[derive(Debug, Clone, PartialEq, Eq)]
pub struct InvestigationEvidence {
    pub id: String,
    pub label: String,
    pub value: String,
    pub source: EvidenceSource,
    pub confidence: Confidence,
}

impl View for InvestigationEvidence {
    type V = (Seq<char>, Seq<char>, Seq<char>, Seq<char>, Seq<char>);

    open spec fn view(&self) -> Self::V {
        (self.id@, self.label@, self.value@, self.source@, self.confidence@)
    }
}

/// Investigation explanation.
#[derive(Debug, Clone, PartialEq, Eq)]
pub struct InvestigationExplanation {
    pub title: String,
    pub detail: String,
    pub confidence: Confidence,
    pub evidence_refs: Vec<String>,
}

impl View for InvestigationExplanation {
    type V = (Seq<char>, Seq<char>, Seq<char>, Seq<Seq<char>>);

    open spec fn view(&self) -> Self::V {
        (self.title@, self.detail@, self.confidence@, self.evidence_refs.deep_view())
    }
}

/// Whether `e` says `text` (title, detail, confidence) and cites no evidence.
pub open spec fn explanation_is(
    e: InvestigationExplanation,
    text: (Seq<char>, Seq<char>, Seq<char>),
) -> bool {
    e@ == (text.0, text.1, text.2, Seq::<Seq<char>>::empty())
}

impl InvestigationExplanation {
    /// Create a new explanation with empty evidence_refs.
    pub fn new(title: String, detail: String, confidence: String) -> (e: Self)
        ensures
            explanation_is(e, (title@, detail@, confidence@)),
    {
        let e = InvestigationExplanation { title, detail, confidence, evidence_refs: Vec::new() };
        assert(e.evidence_refs.deep_view() =~= Seq::<Seq<char>>::empty());
        e
    }
}

/// A copy of `e`.
fn copy_explanation(e: &InvestigationExplanation) -> (r: InvestigationExplanation)
    ensures
        r@ == e@,
{
    let refs = e.evidence_refs.clone();
    let r = InvestigationExplanation {
        title: e.title.clone(),
        detail: e.detail.clone(),
        confidence: e.confidence.clone(),
        evidence_refs: refs,
    };
    assert(r.evidence_refs.deep_view() =~= e.evidence_refs.deep_view()) by {
        assert forall|i: int| 0 <= i < r.evidence_refs@.len() implies r.evidence_refs@[i]
            == e.evidence_refs@[i] by {
            assert(cloned::<String>(e.evidence_refs@[i], r.evidence_refs@[i]));
        }
    }
    r
}

/// Explanation text from static tables: title, detail, confidence.
fn text_explanation(text: (&str, &str, &str)) -> (e: InvestigationExplanation)
    ensures
        explanation_is(e, (text.0@, text.1@, text.2@)),
{
    InvestigationExplanation::new(to_string(text.0), to_string(text.1), to_string(text.2))
}

/// Investigation error.
#[derive(Debug, Clone, PartialEq, Eq)]
pub struct InvestigationError {
    pub source: String,
    pub category: String,
    pub message: String,
    pub stderr: Option<String>,
}

impl View for InvestigationError {
    type V = (Seq<char>, Seq<char>, Seq<char>, Option<Seq<char>>);

    open spec fn view(&self) -> Self::V {
        (
            self.source@,
            self.category@,
            self.message@,
            match self.stderr {
                Some(e) => Some(e@),
                None => None,
            },
        )
    }
}

/// Investigation action.
#[derive(Debug, Clone, PartialEq, Eq)]
pub struct InvestigationAction {
    pub label: String,
    pub detail: String,
    pub safe_for_user: bool,
}

/// Investigation item (key-value pair).
#[derive(Debug, Clone, PartialEq, Eq)]
pub struct InvestigationItem {
    pub label: String,
    pub value: String,
}

impl View for InvestigationItem {
    type V = (Seq<char>, Seq<char>);

    open spec fn view(&self) -> Self::V {
        (self.label@, self.value@)
    }
}

/// Investigation report container.
#[derive(Debug)]
pub struct InvestigationReport {
    pub target: InvestigationTarget,
    pub generated_at: SystemTime,
    pub summary: Vec<InvestigationItem>,
    pub evidence: Vec<InvestigationEvidence>,
    pub explanations: Vec<InvestigationExplanation>,
    pub related_jobs: Vec<Job>,
    pub related_nodes: Vec<Node>,
    pub suggested_actions: Vec<InvestigationAction>,
    pub raw_sections: StrMap<String>,
    pub errors: Vec<InvestigationError>,
}

/// Whether every list and map of `r` is empty.
pub open spec fn report_is_empty(r: InvestigationReport) -> bool {
    &&& r.summary@.len() == 0
    &&& r.evidence@.len() == 0
    &&& r.explanations@.len() == 0
    &&& r.related_jobs@.len() == 0
    &&& r.related_nodes@.len() == 0
    &&& r.suggested_actions@.len() == 0
    &&& r.raw_sections.entries().len() == 0
    &&& r.errors@.len() == 0
}

impl InvestigationReport {
    /// Create a new empty report.
    pub fn new(target: InvestigationTarget, generated_at: SystemTime) -> (r: Self)
        ensures
            r.target == target,
            r.generated_at == generated_at,
            report_is_empty(r),
    {
        InvestigationReport {
            target,
            generated_at,
            summary: Vec::new(),
            evidence: Vec::new(),
            explanations: Vec::new(),
            related_jobs: Vec::new(),
            related_nodes: Vec::new(),
            suggested_actions: Vec::new(),
            raw_sections: StrMap::new(),
            errors: Vec::new(),
        }
    }
}

// ── Pending reasons ─────────────────────────────────────────────────────────

/// The built-in explanation of a Slurm pending reason, if there is one.
/// The lookup is case-sensitive.
pub open spec fn builtin_pending_reason(reason: Seq<char>) -> Option<
    (Seq<char>, Seq<char>, Seq<char>),
> {
    if reason == "Resources"@ {
        Some(
            (
                "Matching resources are not currently available"@,
                "Slurm cannot currently find enough matching resources. Check requested CPUs/GPUs/memory, partition, and node availability."@,
                "medium"@,
            ),
        )
    } else if reason == "Priority"@ {
        Some(
            (
                "Lower priority than other queued jobs"@,
                "Job is eligible but lower priority than other queued jobs."@,
                "high"@,
            ),
        )
    } else if reason == "Dependency"@ {
        Some(
            (
                "Waiting on a dependency"@,
                "Job is waiting for another job or condition."@,
                "high"@,
            ),
        )
    } else if reason == "ReqNodeNotAvail"@ {
        Some(
            (
                "Requested node is unavailable"@,
                "Requested node is unavailable, drained, down, reserved, or otherwise not schedulable."@,
                "high"@,
            ),
        )
    } else if reason == "PartitionTimeLimit"@ {
        Some(
            (
                "Time limit exceeds partition limit"@,
                "Requested time exceeds partition limit."@,
                "high"@,
            ),
        )
    } else if reason == "JobHeldUser"@ {
        Some(("Held by the user"@, "Job is held by the user."@, "high"@))
    } else if reason == "JobHeldAdmin"@ {
        Some(
            (
                "Held by an administrator"@,
                "Job is held by an administrator or policy."@,
                "high"@,
            ),
        )
    } else if reason == "BeginTime"@ {
        Some(("Future begin time"@, "Job has a future begin time."@, "high"@))
    } else if reason == "Reservation"@ {
        Some(
            (
                "Waiting for reservation constraints"@,
                "Job is waiting for reservation constraints."@,
                "medium"@,
            ),
        )
    } else if reason == "Licenses"@ {
        Some(
            (
                "Required licenses unavailable"@,
                "Required license resources are unavailable."@,
                "medium"@,
            ),
        )
    } else if reason == "QOSMaxCpuPerUserLimit"@ {
        Some(
            (
                "QoS CPU-per-user limit may be blocking"@,
                "Visible QoS CPU-per-user limit may be blocking the job."@,
                "medium"@,
            ),
        )
    } else if reason == "QOSMaxGRESPerUser"@ {
        Some(
            (
                "QoS GRES/GPU-per-user limit may be blocking"@,
                "Visible QoS GRES/GPU-per-user limit may be blocking the job."@,
                "medium"@,
            ),
        )
    } else if reason == "AssocGrpCpuLimit"@ {
        Some(
            (
                "Association/group CPU limit may be blocking"@,
                "Association/group CPU limit may be blocking the job."@,
                "medium"@,
            ),
        )
    } else if reason == "AssocGrpGRES"@ {
        Some(
            (
                "Association/group GRES/GPU limit may be blocking"@,
                "Association/group GRES/GPU limit may be blocking the job."@,
                "medium"@,
            ),
        )
    } else {
        None
    }
}

/// The built-in explanation table, executable.
fn builtin_pending(reason: &str) -> (r: Option<(&'static str, &'static str, &'static str)>)
    ensures
        match r {
            Some(t) => builtin_pending_reason(reason@) == Some((t.0@, t.1@, t.2@)),
            None => builtin_pending_reason(reason@) is None,
        },
{
    if str_eq(reason, "Resources") {
        Some(
            (
                "Matching resources are not currently available",
                "Slurm cannot currently find enough matching resources. Check requested CPUs/GPUs/memory, partition, and node availability.",
                "medium",
            ),
        )
    } else if str_eq(reason, "Priority") {
        Some(
            (
                "Lower priority than other queued jobs",
                "Job is eligible but lower priority than other queued jobs.",
                "high",
            ),
        )
    } else if str_eq(reason, "Dependency") {
        Some(
            ("Waiting on a dependency", "Job is waiting for another job or condition.", "high"),
        )
    } else if str_eq(reason, "ReqNodeNotAvail") {
        Some(
            (
                "Requested node is unavailable",
                "Requested node is unavailable, drained, down, reserved, or otherwise not schedulable.",
                "high",
            ),
        )
    } else if str_eq(reason, "PartitionTimeLimit") {
        Some(
            (
                "Time limit exceeds partition limit",
                "Requested time exceeds partition limit.",
                "high",
            ),
        )
    } else if str_eq(reason, "JobHeldUser") {
        Some(("Held by the user", "Job is held by the user.", "high"))
    } else if str_eq(reason, "JobHeldAdmin") {
        Some(("Held by an administrator", "Job is held by an administrator or policy.", "high"))
    } else if str_eq(reason, "BeginTime") {
        Some(("Future begin time", "Job has a future begin time.", "high"))
    } else if str_eq(reason, "Reservation") {
        Some(
            (
                "Waiting for reservation constraints",
                "Job is waiting for reservation constraints.",
                "medium",
            ),
        )
    } else if str_eq(reason, "Licenses") {
        Some(
            (
                "Required licenses unavailable",
                "Required license resources are unavailable.",
                "medium",
            ),
        )
    } else if str_eq(reason, "QOSMaxCpuPerUserLimit") {
        Some(
            (
                "QoS CPU-per-user limit may be blocking",
                "Visible QoS CPU-per-user limit may be blocking the job.",
                "medium",
            ),
        )
    } else if str_eq(reason, "QOSMaxGRESPerUser") {
        Some(
            (
                "QoS GRES/GPU-per-user limit may be blocking",
                "Visible QoS GRES/GPU-per-user limit may be blocking the job.",
                "medium",
            ),
        )
    } else if str_eq(reason, "AssocGrpCpuLimit") {
        Some(
            (
                "Association/group CPU limit may be blocking",
                "Association/group CPU limit may be blocking the job.",
                "medium",
            ),
        )
    } else if str_eq(reason, "AssocGrpGRES") {
        Some(
            (
                "Association/group GRES/GPU limit may be blocking",
                "Association/group GRES/GPU limit may be blocking the job.",
                "medium",
            ),
        )
    } else {
        None
    }
}

/// The explanation given when Slurm reports no pending reason.
pub open spec fn no_reason_text() -> (Seq<char>, Seq<char>, Seq<char>) {
    (
        "No pending reason reported"@,
        "Slurm did not report a reason. The job may be very recently submitted, or the field is unavailable."@,
        "low"@,
    )
}

/// The explanation given for a pending reason nobody has explained; it
/// echoes the raw reason.
pub open spec fn unknown_reason_text(reason: Seq<char>) -> (Seq<char>, Seq<char>, Seq<char>) {
    (
        "Unrecognized pending reason"@,
        "sqtop does not have a built-in explanation for this pending reason yet.\nRaw Slurm reason: "@
            + reason,
        "low"@,
    )
}

/// Whether `e` is the explanation of `reason` given the user overrides
/// `user`: none reported for an absent, empty or `(null)` reason; else the
/// user's entry, the built-in one, or the echo of an unknown reason.
pub open spec fn pending_explanation(
    user: Seq<(Seq<char>, InvestigationExplanation)>,
    reason: Option<Seq<char>>,
    e: InvestigationExplanation,
) -> bool {
    match reason {
        None => explanation_is(e, no_reason_text()),
        Some(r) => if r == ""@ || r == "(null)"@ {
            explanation_is(e, no_reason_text())
        } else {
            match lookup_entry(user, r) {
                Some(u) => e@ == u@,
                None => match builtin_pending_reason(r) {
                    Some(t) => explanation_is(e, t),
                    None => explanation_is(e, unknown_reason_text(r)),
                },
            }
        },
    }
}

/// The title, detail and confidence of the explanation of `reason`.
pub open spec fn pending_text(
    user: Seq<(Seq<char>, InvestigationExplanation)>,
    reason: Option<Seq<char>>,
) -> (Seq<char>, Seq<char>, Seq<char>) {
    match reason {
        None => no_reason_text(),
        Some(r) => if r == ""@ || r == "(null)"@ {
            no_reason_text()
        } else {
            match lookup_entry(user, r) {
                Some(u) => (u@.0, u@.1, u@.2),
                None => match builtin_pending_reason(r) {
                    Some(t) => t,
                    None => unknown_reason_text(r),
                },
            }
        },
    }
}

/// The explanation of a pending reason says `pending_text`.
pub proof fn lemma_pending_text(
    user: Seq<(Seq<char>, InvestigationExplanation)>,
    reason: Option<Seq<char>>,
    e: InvestigationExplanation,
)
    requires
        pending_explanation(user, reason, e),
    ensures
        (e@.0, e@.1, e@.2) == pending_text(user, reason),
{
}

/// Reason explanation table with optional user-supplied overrides.
#[derive(Debug, Clone)]
pub struct ReasonTable {
    user: StrMap<InvestigationExplanation>,
}

impl ReasonTable {
    /// The user-supplied overrides, by reason.
    pub closed spec fn user_entries(&self) -> Seq<(Seq<char>, InvestigationExplanation)> {
        self.user.entries()
    }

    /// Create a new reason table with user-supplied overrides.
    pub fn with_user_reasons(user: StrMap<InvestigationExplanation>) -> (t: Self)
        ensures
            t.user_entries() == user.entries(),
    {
        ReasonTable { user }
    }

    /// Map a Slurm pending reason to a user-facing explanation.
    ///
    /// Case-sensitive lookup. Empty / None / "(null)" reasons return a
    /// low-confidence "no reason reported" explanation. Unknown reasons echo
    /// the raw string so the user can still copy/paste it into a search.
    /// User-supplied overrides take precedence over built-in reasons.
    pub fn explain_pending_reason(&self, reason: Option<&str>) -> (e: InvestigationExplanation)
        ensures
            pending_explanation(
                self.user_entries(),
                match reason {
                    Some(r) => Some(r@),
                    None => None,
                },
                e,
            ),
    {
        let r = match reason {
            None => {
                return text_explanation(
                    (
                        "No pending reason reported",
                        "Slurm did not report a reason. The job may be very recently submitted, or the field is unavailable.",
                        "low",
                    ),
                );
            },
            Some(r) => r,
        };
        if str_eq(r, "") || str_eq(r, "(null)") {
            return text_explanation(
                (
                    "No pending reason reported",
                    "Slurm did not report a reason. The job may be very recently submitted, or the field is unavailable.",
                    "low",
                ),
            );
        }
        if let Some(exp) = self.user.get(r) {
            return copy_explanation(exp);
        }
        if let Some(t) = builtin_pending(r) {
            return text_explanation(t);
        }
        let mut detail = to_string(
            "sqtop does not have a built-in explanation for this pending reason yet.\nRaw Slurm reason: ",
        );
        push_str(&mut detail, r);
        InvestigationExplanation::new(
            to_string("Unrecognized pending reason"),
            detail,
            to_string("low"),
        )
    }
}

impl Default for ReasonTable {
    fn default() -> (t: Self)
        ensures
            t.user_entries() == Seq::<(Seq<char>, InvestigationExplanation)>::empty(),
    {
        ReasonTable { user: StrMap::new() }
    }
}

// ── Site reason files ───────────────────────────────────────────────────────

/// One top-level entry of a reason file as the file holds it: its key, and
/// the `title`, `detail` and `confidence` of the entry when it is a table
/// that holds them as strings.
#[derive(Debug, Clone, PartialEq, Eq)]
pub struct ReasonEntry {
    pub key: String,
    pub title: Option<String>,
    pub detail: Option<String>,
    pub confidence: Option<String>,
}

/// A reason-file entry as plain values.
pub type ReasonEntryView = (Seq<char>, Option<Seq<char>>, Option<Seq<char>>, Option<Seq<char>>);

/// An optional string as an optional character sequence.
pub open spec fn opt_text(o: Option<String>) -> Option<Seq<char>> {
    match o {
        Some(s) => Some(s@),
        None => None,
    }
}

/// The plain values of a reason-file entry.
pub open spec fn entry_view(e: ReasonEntry) -> ReasonEntryView {
    (e.key@, opt_text(e.title), opt_text(e.detail), opt_text(e.confidence))
}

/// The top-level entries of the TOML document `content`, in the order the
/// parsed table yields them; none when it is not a TOML document.
pub uninterp spec fn toml_reason_entries(content: Seq<char>) -> Option<Seq<ReasonEntryView>>;

/// Parses a reason file with `toml::from_str` into a `toml::Table` and
/// returns, for each top-level key, the `title`, `detail` and `confidence`
/// values that are strings. The contract says only that the result is the
/// one `toml_reason_entries` names for the content.
#[verifier::external_body]
fn read_reason_entries(content: &str) -> (r: Option<Vec<ReasonEntry>>)
    ensures
        match r {
            Some(v) => toml_reason_entries(content@) == Some(v@.map_values(|e: ReasonEntry| entry_view(e))),
            None => toml_reason_entries(content@) is None,
        },
{
    match toml::from_str::<toml::Table>(content) {
        Ok(t) => Some(t.into_iter().map(|(key, v)| ReasonEntry {
            title: v.get("title").and_then(|x| x.as_str()).map(String::from),
            detail: v.get("detail").and_then(|x| x.as_str()).map(String::from),
            confidence: v.get("confidence").and_then(|x| x.as_str()).map(String::from),
            key,
        }).collect()),
        Err(_) => None,
    }
}

/// The explanation text of an entry that a site may define: a non-empty key
/// with a title, a detail and a confidence of `high`, `medium` or `low`.
pub open spec fn accepted_text(e: ReasonEntryView) -> Option<(Seq<char>, Seq<char>, Seq<char>)> {
    if e.0.len() > 0 && e.1 is Some && e.2 is Some && (e.3 matches Some(c) && (c == "high"@ || c
        == "medium"@ || c == "low"@)) {
        Some((e.1->0, e.2->0, e.3->0))
    } else {
        None
    }
}

/// The site reasons of a reason file: its accepted entries, stored one by
/// one by key.
pub open spec fn site_reasons(es: Seq<ReasonEntryView>) -> Seq<(Seq<char>, (Seq<char>, Seq<char>, Seq<char>))>
    decreases es.len(),
{
    if es.len() == 0 {
        Seq::empty()
    } else {
        let prev = site_reasons(es.drop_last());
        match accepted_text(es.last()) {
            Some(t) => insert_entry(prev, es.last().0, t),
            None => prev,
        }
    }
}

/// Whether explanation entries say the given texts, key by key.
pub open spec fn says(
    entries: Seq<(Seq<char>, InvestigationExplanation)>,
    texts: Seq<(Seq<char>, (Seq<char>, Seq<char>, Seq<char>))>,
) -> bool {
    &&& entries.len() == texts.len()
    &&& forall|i: int|
        0 <= i < entries.len() ==> #[trigger] entries[i].0 == texts[i].0 && explanation_is(
            entries[i].1,
            texts[i].1,
        )
}

proof fn lemma_says_insert(
    entries: Seq<(Seq<char>, InvestigationExplanation)>,
    texts: Seq<(Seq<char>, (Seq<char>, Seq<char>, Seq<char>))>,
    k: Seq<char>,
    e: InvestigationExplanation,
    t: (Seq<char>, Seq<char>, Seq<char>),
)
    requires
        says(entries, texts),
        explanation_is(e, t),
    ensures
        says(insert_entry(entries, k, e), insert_entry(texts, k, t)),
    decreases entries.len(),
{
    if entries.len() > 0 {
        assert(entries[0].0 == texts[0].0);
        if entries[0].0 != k {
            assert(says(entries.drop_first(), texts.drop_first())) by {
                assert forall|i: int| 0 <= i < entries.drop_first().len() implies #[trigger] entries.drop_first()[i].0
                    == texts.drop_first()[i].0 && explanation_is(
                    entries.drop_first()[i].1,
                    texts.drop_first()[i].1,
                ) by {
                    assert(entries.drop_first()[i] == entries[i + 1]);
                    assert(texts.drop_first()[i] == texts[i + 1]);
                }
            }
            lemma_says_insert(entries.drop_first(), texts.drop_first(), k, e, t);
            let a = seq![entries[0]] + insert_entry(entries.drop_first(), k, e);
            let b = seq![texts[0]] + insert_entry(texts.drop_first(), k, t);
            assert forall|i: int| 0 <= i < a.len() implies #[trigger] a[i].0 == b[i].0 && explanation_is(
                a[i].1,
                b[i].1,
            ) by {
                if i > 0 {
                    assert(a[i] == insert_entry(entries.drop_first(), k, e)[i - 1]);
                    assert(b[i] == insert_entry(texts.drop_first(), k, t)[i - 1]);
                }
            }
        } else {
            let a = entries.update(0, (k, e));
            let b = texts.update(0, (k, t));
            assert forall|i: int| 0 <= i < a.len() implies #[trigger] a[i].0 == b[i].0 && explanation_is(
                a[i].1,
                b[i].1,
            ) by {}
        }
    } else {
        let a = seq![(k, e)];
        let b = seq![(k, t)];
        assert forall|i: int| 0 <= i < a.len() implies #[trigger] a[i].0 == b[i].0 && explanation_is(
            a[i].1,
            b[i].1,
        ) by {}
    }
}

/// The explanation of an entry a site may define.
fn accepted_exec(e: &ReasonEntry) -> (r: Option<InvestigationExplanation>)
    ensures
        match accepted_text(entry_view(*e)) {
            Some(t) => r matches Some(x) && explanation_is(x, t),
            None => r is None,
        },
{
    if e.key.as_str().is_empty() {
        return None;
    }
    match (&e.title, &e.detail, &e.confidence) {
        (Some(t), Some(d), Some(c)) => {
            let cs = c.as_str();
            if str_eq(cs, "high") || str_eq(cs, "medium") || str_eq(cs, "low") {
                Some(InvestigationExplanation::new(t.clone(), d.clone(), c.clone()))
            } else {
                None
            }
        },
        _ => None,
    }
}

impl ReasonTable {
    /// The reason table of a site's reason-file entries: each accepted entry
    /// (non-empty key, title, detail, and a confidence of `high`, `medium`
    /// or `low`) is a user reason; the others are skipped.
    pub fn from_reason_entries(entries: &Vec<ReasonEntry>) -> (t: Self)
        ensures
            says(t.user_entries(), site_reasons(entries@.map_values(|e: ReasonEntry| entry_view(e)))),
    {
        let ghost ev = entries@.map_values(|e: ReasonEntry| entry_view(e));
        let mut user: StrMap<InvestigationExplanation> = StrMap::new();
        let mut i: usize = 0;
        while i < entries.len()
            invariant
                i <= entries@.len(),
                ev == entries@.map_values(|e: ReasonEntry| entry_view(e)),
                says(user.entries(), site_reasons(ev.take(i as int))),
            decreases entries@.len() - i,
        {
            assert(ev.take(i + 1).drop_last() =~= ev.take(i as int));
            assert(ev.take(i + 1).last() == entry_view(entries@[i as int]));
            match accepted_exec(&entries[i]) {
                Some(x) => {
                    let ghost before = user.entries();
                    proof {
                        let t = accepted_text(entry_view(entries@[i as int]))->0;
                        lemma_says_insert(
                            before,
                            site_reasons(ev.take(i as int)),
                            entries@[i as int].key@,
                            x,
                            t,
                        );
                    }
                    user.insert(entries[i].key.clone(), x);
                },
                None => {},
            }
            i = i + 1;
        }
        assert(ev.take(entries@.len() as int) =~= ev);
        ReasonTable { user }
    }

    /// The reason table of a reason file's text, and the problems found (a
    /// file that is not TOML gives an empty table; no problem is reported).
    pub fn from_reason_file(content: &str) -> (r: (Self, Vec<InvestigationError>))
        ensures
            r.1@.len() == 0,
            match toml_reason_entries(content@) {
                Some(es) => says(r.0.user_entries(), site_reasons(es)),
                None => r.0.user_entries().len() == 0,
            },
    {
        match read_reason_entries(content) {
            Some(entries) => (ReasonTable::from_reason_entries(&entries), Vec::new()),
            None => (ReasonTable::default(), Vec::new()),
        }
    }
}

// ── Node states ─────────────────────────────────────────────────────────────

/// The explanation of a bare, uppercased node-state token, if there is one.
pub open spec fn node_state_entry(key: Seq<char>) -> Option<(Seq<char>, Seq<char>, Seq<char>)> {
    if key == "IDLE"@ {
        Some(("Node appears available"@, "Node appears available for matching jobs."@, "high"@))
    } else if key == "ALLOCATED"@ {
        Some(("Node fully allocated"@, "Node is fully allocated to running jobs."@, "high"@))
    } else if key == "MIXED"@ {
        Some(
            (
                "Node partially allocated"@,
                "Some resources are allocated; some may remain free."@,
                "medium"@,
            ),
        )
    } else if key == "DOWN"@ {
        Some(("Node unavailable"@, "Node is unavailable."@, "high"@))
    } else if key == "DRAIN"@ || key == "DRAINED"@ {
        Some(drain_text())
    } else if key == "RESERVED"@ {
        Some(
            (
                "Node reserved"@,
                "Node may be reserved for specific users, jobs, accounts, or reservations."@,
                "medium"@,
            ),
        )
    } else {
        None
    }
}

/// The explanation of a draining or drained node.
pub open spec fn drain_text() -> (Seq<char>, Seq<char>, Seq<char>) {
    (
        "Node draining or drained"@,
        "Node is being removed from scheduling or already drained."@,
        "high"@,
    )
}

/// The explanation of a node state nobody has explained.
pub open spec fn unknown_node_text() -> (Seq<char>, Seq<char>, Seq<char>) {
    ("Unrecognized node state"@, "sqtop cannot confidently classify this node state."@, "low"@)
}

/// Whether some `+`-joined part of a compound state is a drain state.
pub open spec fn has_drain_part(parts: Seq<Seq<char>>) -> bool {
    exists|i: int|
        0 <= i < parts.len() && (node_state_token_spec(parts[i]) == "DRAIN"@
            || node_state_token_spec(parts[i]) == "DRAINED"@)
}

/// The explanation text of a node state: unknown when blank; a compound
/// state with a drain part is a drain of medium confidence; otherwise the
/// table entry of the normalized token, or unknown.
pub open spec fn node_state_text(state: Seq<char>) -> (Seq<char>, Seq<char>, Seq<char>) {
    if trim_seq(state).len() == 0 {
        unknown_node_text()
    } else {
        let key = node_state_token_spec(uppercase(trim_seq(state)));
        if contains_seq(key, "+"@) && has_drain_part(split_seq(key, '+')) {
            (drain_text().0, drain_text().1, "medium"@)
        } else {
            match node_state_entry(key) {
                Some(t) => t,
                None => unknown_node_text(),
            }
        }
    }
}

/// The node-state table, executable.
fn node_state_lookup(key: &str) -> (r: Option<(&'static str, &'static str, &'static str)>)
    ensures
        match r {
            Some(t) => node_state_entry(key@) == Some((t.0@, t.1@, t.2@)),
            None => node_state_entry(key@) is None,
        },
{
    if str_eq(key, "IDLE") {
        Some(("Node appears available", "Node appears available for matching jobs.", "high"))
    } else if str_eq(key, "ALLOCATED") {
        Some(("Node fully allocated", "Node is fully allocated to running jobs.", "high"))
    } else if str_eq(key, "MIXED") {
        Some(
            (
                "Node partially allocated",
                "Some resources are allocated; some may remain free.",
                "medium",
            ),
        )
    } else if str_eq(key, "DOWN") {
        Some(("Node unavailable", "Node is unavailable.", "high"))
    } else if str_eq(key, "DRAIN") || str_eq(key, "DRAINED") {
        Some(
            (
                "Node draining or drained",
                "Node is being removed from scheduling or already drained.",
                "high",
            ),
        )
    } else if str_eq(key, "RESERVED") {
        Some(
            (
                "Node reserved",
                "Node may be reserved for specific users, jobs, accounts, or reservations.",
                "medium",
            ),
        )
    } else {
        None
    }
}

/// Strip Slurm decoration suffixes and uppercase the bare token.
pub(crate) fn normalize_node_state(state: &str) -> (r: String)
    ensures
        r@ == node_state_token_spec(state@),
{
    normalize_node_state_token(state)
}

/// Map a Slurm node-state token to a user-facing explanation.
///
/// Strips trailing decoration suffixes ('*', '-', '+'). Lookup is
/// case-insensitive on the bare state token. Compound states joined with
/// '+' (e.g. "idle+drain") are detected as DRAIN with medium confidence;
/// otherwise we fall through to UNKNOWN.
pub fn explain_node_state(state: &str) -> (e: InvestigationExplanation)
    ensures
        explanation_is(e, node_state_text(state@)),
{
    if is_blank(state) {
        return text_explanation(
            ("Unrecognized node state", "sqtop cannot confidently classify this node state.", "low"),
        );
    }
    let trimmed = trim(state);
    let raw = to_upper(trimmed.as_str());
    let key = normalize_node_state(raw.as_str());
    if contains(key.as_str(), "+") {
        let parts = split_char(key.as_str(), '+');
        let mut found = false;
        let mut i: usize = 0;
        while i < parts.len()
            invariant
                i <= parts@.len(),
                parts.deep_view() == split_seq(key@, '+'),
                found ==> has_drain_part(split_seq(key@, '+')),
                !found ==> forall|k: int|
                    0 <= k < i ==> !(node_state_token_spec(#[trigger] split_seq(key@, '+')[k])
                        == "DRAIN"@ || node_state_token_spec(split_seq(key@, '+')[k])
                        == "DRAINED"@),
            decreases parts@.len() - i,
        {
            let p = normalize_node_state(parts[i].as_str());
            assert(parts.deep_view()[i as int] == parts@[i as int]@);
            if str_eq(p.as_str(), "DRAIN") || str_eq(p.as_str(), "DRAINED") {
                found = true;
            }
            i = i + 1;
        }
        if found {
            return text_explanation(
                (
                    "Node draining or drained",
                    "Node is being removed from scheduling or already drained.",
                    "medium",
                ),
            );
        }
    }
    match node_state_lookup(key.as_str()) {
        Some(t) => text_explanation(t),
        None => text_explanation(
            ("Unrecognized node state", "sqtop cannot confidently classify this node state.", "low"),
        ),
    }
}

// ── Report rendering ────────────────────────────────────────────────────────

/// `- label: value`.
pub open spec fn item_line(label: Seq<char>, value: Seq<char>) -> Seq<char> {
    "- "@ + label + ": "@ + value
}

/// The report's first line.
pub open spec fn header_spec(t: InvestigationTarget) -> Seq<char> {
    if t.kind@ == "job"@ {
        "Investigate Job "@ + t.identifier@
    } else {
        "Investigate Node "@ + t.identifier@
    }
}

/// An evidence line; derived evidence carries its confidence in brackets.
pub open spec fn evidence_line_spec(ev: InvestigationEvidence) -> Seq<char> {
    if ev.source@ == "derived"@ {
        item_line(ev.label@, ev.value@) + " ["@ + ev.confidence@ + "]"@
    } else {
        item_line(ev.label@, ev.value@)
    }
}

/// A titled section after a blank line, or nothing when `body` is empty.
pub open spec fn section(title: Seq<char>, body: Seq<Seq<char>>) -> Seq<Seq<char>> {
    if body.len() == 0 {
        Seq::empty()
    } else {
        seq![Seq::<char>::empty(), title] + body
    }
}

/// One "Likely explanation" block per explanation.
pub open spec fn explanation_lines(es: Seq<InvestigationExplanation>) -> Seq<Seq<char>>
    decreases es.len(),
{
    if es.len() == 0 {
        Seq::empty()
    } else {
        explanation_lines(es.drop_last()) + seq![
            Seq::<char>::empty(),
            "Likely explanation"@,
            "- "@ + es.last().detail@,
            "Confidence: "@ + es.last().confidence@,
        ]
    }
}

/// A raw-section line; an empty value shows as `available`.
pub open spec fn raw_line(e: (Seq<char>, String)) -> Seq<char> {
    item_line(e.0, if e.1@.len() == 0 { "available"@ } else { e.1@ })
}

/// An error line: `- source [category]: message`.
pub open spec fn error_line(e: InvestigationError) -> Seq<char> {
    "- "@ + e.source@ + " ["@ + e.category@ + "]: "@ + e.message@
}

/// An action line: `- label - detail`.
pub open spec fn action_line(a: InvestigationAction) -> Seq<char> {
    "- "@ + a.label@ + " - "@ + a.detail@
}

/// The lines of a rendered report: the header, then each non-empty section
/// in a fixed order, errors last.
pub open spec fn report_lines(r: InvestigationReport) -> Seq<Seq<char>> {
    seq![header_spec(r.target)] + section(
        "Summary"@,
        r.summary@.map_values(|it: InvestigationItem| item_line(it.label@, it.value@)),
    ) + section("Slurm evidence"@, r.evidence@.map_values(|ev| evidence_line_spec(ev)))
        + explanation_lines(r.explanations@) + section(
        "Related jobs"@,
        r.related_jobs@.map_values(|j: Job| item_line(j.job_id@, j.state@)),
    ) + section(
        "Related nodes"@,
        r.related_nodes@.map_values(|n: Node| item_line(n.name@, n.state@)),
    ) + section(
        "Suggested next actions"@,
        r.suggested_actions@.map_values(|a| action_line(a)),
    ) + section("Raw detail"@, sort_by_key(r.raw_sections.entries()).map_values(|e| raw_line(e)))
        + section(
        "Errors"@,
        r.errors@.map_values(|e| error_line(e)),
    )
}

/// What `render_report` returns: the lines joined by newlines, plus a
/// trailing newline.
pub open spec fn render_spec(r: InvestigationReport) -> Seq<char> {
    join_seq(report_lines(r), "\n"@) + "\n"@
}

/// Mapping a one-longer prefix adds the image of the next element.
pub proof fn lemma_map_take_push<A, B>(s: Seq<A>, f: spec_fn(A) -> B, i: int)
    requires
        0 <= i < s.len(),
    ensures
        s.take(i + 1).map_values(f) == s.take(i).map_values(f).push(f(s[i])),
{
    assert(s.take(i + 1).map_values(f) =~= s.take(i).map_values(f).push(f(s[i])));
}

/// `- label: value` as a string.
fn item_line_string(label: &str, value: &str) -> (r: String)
    ensures
        r@ == item_line(label@, value@),
{
    let mut r = to_string("- ");
    push_str(&mut r, label);
    push_str(&mut r, ": ");
    push_str(&mut r, value);
    r
}

fn header_for_target(target: &InvestigationTarget) -> (r: String)
    ensures
        r@ == header_spec(*target),
{
    let mut r = if str_eq(target.kind.as_str(), "job") {
        to_string("Investigate Job ")
    } else {
        to_string("Investigate Node ")
    };
    push_str(&mut r, target.identifier.as_str());
    r
}

fn format_evidence_line(ev: &InvestigationEvidence) -> (r: String)
    ensures
        r@ == evidence_line_spec(*ev),
{
    // Derived items get a confidence tag suffix so the user can tell
    // them apart from raw Slurm-reported fields.
    let mut r = item_line_string(ev.label.as_str(), ev.value.as_str());
    if str_eq(ev.source.as_str(), "derived") {
        push_str(&mut r, " [");
        push_str(&mut r, ev.confidence.as_str());
        push_str(&mut r, "]");
    }
    r
}

/// Appends `section(title, body)` to `lines`.
fn push_section(lines: &mut Vec<String>, title: &str, body: Vec<String>)
    ensures
        final(lines).deep_view() == old(lines).deep_view() + section(title@, body.deep_view()),
{
    let ghost start = lines.deep_view();
    if body.len() == 0 {
        assert(section(title@, body.deep_view()) =~= Seq::<Seq<char>>::empty());
        assert(lines.deep_view() =~= start + Seq::<Seq<char>>::empty());
        return;
    }
    lines.push(String::new());
    lines.push(to_string(title));
    let ghost mid = lines.deep_view();
    assert(mid =~= start + seq![Seq::<char>::empty(), title@]);
    let mut i: usize = 0;
    while i < body.len()
        invariant
            i <= body@.len(),
            lines.deep_view() == mid + body.deep_view().take(i as int),
        decreases body@.len() - i,
    {
        let ghost before = lines.deep_view();
        lines.push(body[i].clone());
        assert(lines.deep_view() =~= before.push(body@[i as int]@));
        assert(body.deep_view().take(i + 1) =~= body.deep_view().take(i as int).push(
            body@[i as int]@,
        ));
        i = i + 1;
    }
    assert(body.deep_view().take(body@.len() as int) =~= body.deep_view());
    assert(lines.deep_view() =~= start + section(title@, body.deep_view()));
}

/// Render a plain-text, copy-friendly investigation report.
///
/// Sections are skipped entirely when empty so partial reports stay
/// readable. The output is deterministic (no timestamps, no set-iteration);
/// same input renders byte-for-byte identically.
pub fn render_report(report: &InvestigationReport) -> (out: String)
    ensures
        out@ == render_spec(*report),
{
    let mut lines: Vec<String> = Vec::new();
    lines.push(header_for_target(&report.target));
    let ghost l0 = lines.deep_view();
    assert(l0 =~= seq![header_spec(report.target)]);

    let mut body: Vec<String> = Vec::new();
    let mut i: usize = 0;
    while i < report.summary.len()
        invariant
            i <= report.summary@.len(),
            body.deep_view() == report.summary@.take(i as int).map_values(
                |it: InvestigationItem| item_line(it.label@, it.value@),
            ),
        decreases report.summary@.len() - i,
    {
        let it = &report.summary[i];
        let ghost before = body.deep_view();
        body.push(item_line_string(it.label.as_str(), it.value.as_str()));
        proof {
            lemma_map_take_push(report.summary@, |it: InvestigationItem| item_line(it.label@, it.value@), i as int);
        }
        assert(body.deep_view() =~= before.push(report.summary@.take(i + 1).map_values(|it: InvestigationItem| item_line(it.label@, it.value@)).last()));
        i = i + 1;
    }
    assert(report.summary@.take(report.summary@.len() as int) =~= report.summary@);
    push_section(&mut lines, "Summary", body);

    let mut body: Vec<String> = Vec::new();
    let mut i: usize = 0;
    while i < report.evidence.len()
        invariant
            i <= report.evidence@.len(),
            body.deep_view() == report.evidence@.take(i as int).map_values(
                |ev| evidence_line_spec(ev),
            ),
        decreases report.evidence@.len() - i,
    {
        let ghost before = body.deep_view();
        body.push(format_evidence_line(&report.evidence[i]));
        proof {
            lemma_map_take_push(report.evidence@, |ev| evidence_line_spec(ev), i as int);
        }
        assert(body.deep_view() =~= before.push(report.evidence@.take(i + 1).map_values(|ev| evidence_line_spec(ev)).last()));
        i = i + 1;
    }
    assert(report.evidence@.take(report.evidence@.len() as int) =~= report.evidence@);
    push_section(&mut lines, "Slurm evidence", body);

    let ghost l2 = lines.deep_view();
    let mut i: usize = 0;
    while i < report.explanations.len()
        invariant
            i <= report.explanations@.len(),
            lines.deep_view() == l2 + explanation_lines(report.explanations@.take(i as int)),
        decreases report.explanations@.len() - i,
    {
        let exp = &report.explanations[i];
        let ghost before = lines.deep_view();
        lines.push(String::new());
        lines.push(to_string("Likely explanation"));
        let mut d = to_string("- ");
        push_str(&mut d, exp.detail.as_str());
        lines.push(d);
        let mut c = to_string("Confidence: ");
        push_str(&mut c, exp.confidence.as_str());
        lines.push(c);
        assert(report.explanations@.take(i + 1).drop_last() =~= report.explanations@.take(
            i as int,
        ));
        assert(lines.deep_view() =~= before + seq![
            Seq::<char>::empty(),
            "Likely explanation"@,
            "- "@ + exp.detail@,
            "Confidence: "@ + exp.confidence@,
        ]);
        assert(report.explanations@.take(i + 1).last() == *exp);
        assert(lines.deep_view() =~= l2 + explanation_lines(report.explanations@.take(i + 1)));
        i = i + 1;
    }
    assert(report.explanations@.take(report.explanations@.len() as int)
        =~= report.explanations@);

    let mut body: Vec<String> = Vec::new();
    let mut i: usize = 0;
    while i < report.related_jobs.len()
        invariant
            i <= report.related_jobs@.len(),
            body.deep_view() == report.related_jobs@.take(i as int).map_values(
                |j: Job| item_line(j.job_id@, j.state@),
            ),
        decreases report.related_jobs@.len() - i,
    {
        let j = &report.related_jobs[i];
        let ghost before = body.deep_view();
        body.push(item_line_string(j.job_id.as_str(), j.state.as_str()));
        proof {
            lemma_map_take_push(report.related_jobs@, |j: Job| item_line(j.job_id@, j.state@), i as int);
        }
        assert(body.deep_view() =~= before.push(report.related_jobs@.take(i + 1).map_values(|j: Job| item_line(j.job_id@, j.state@)).last()));
        i = i + 1;
    }
    assert(report.related_jobs@.take(report.related_jobs@.len() as int) =~= report.related_jobs@);
    push_section(&mut lines, "Related jobs", body);

    let mut body: Vec<String> = Vec::new();
    let mut i: usize = 0;
    while i < report.related_nodes.len()
        invariant
            i <= report.related_nodes@.len(),
            body.deep_view() == report.related_nodes@.take(i as int).map_values(
                |n: Node| item_line(n.name@, n.state@),
            ),
        decreases report.related_nodes@.len() - i,
    {
        let n = &report.related_nodes[i];
        let ghost before = body.deep_view();
        body.push(item_line_string(n.name.as_str(), n.state.as_str()));
        proof {
            lemma_map_take_push(report.related_nodes@, |n: Node| item_line(n.name@, n.state@), i as int);
        }
        assert(body.deep_view() =~= before.push(report.related_nodes@.take(i + 1).map_values(|n: Node| item_line(n.name@, n.state@)).last()));
        i = i + 1;
    }
    assert(report.related_nodes@.take(report.related_nodes@.len() as int)
        =~= report.related_nodes@);
    push_section(&mut lines, "Related nodes", body);

    let mut body: Vec<String> = Vec::new();
    let mut i: usize = 0;
    while i < report.suggested_actions.len()
        invariant
            i <= report.suggested_actions@.len(),
            body.deep_view() == report.suggested_actions@.take(i as int).map_values(
                |a| action_line(a),
            ),
        decreases report.suggested_actions@.len() - i,
    {
        let a = &report.suggested_actions[i];
        let mut l = to_string("- ");
        push_str(&mut l, a.label.as_str());
        push_str(&mut l, " - ");
        push_str(&mut l, a.detail.as_str());
        let ghost before = body.deep_view();
        body.push(l);
        proof {
            lemma_map_take_push(report.suggested_actions@, |a| action_line(a), i as int);
        }
        assert(body.deep_view() =~= before.push(report.suggested_actions@.take(i + 1).map_values(|a| action_line(a)).last()));
        i = i + 1;
    }
    assert(report.suggested_actions@.take(report.suggested_actions@.len() as int)
        =~= report.suggested_actions@);
    push_section(&mut lines, "Suggested next actions", body);

    let sorted = sorted_sections(&report.raw_sections);
    let ghost se = sort_by_key(report.raw_sections.entries());
    let mut body: Vec<String> = Vec::new();
    let mut i: usize = 0;
    while i < sorted.len()
        invariant
            i <= sorted@.len(),
            sorted@.map_values(|p: (String, String)| (p.0@, p.1)) == se,
            body.deep_view() == se.take(i as int).map_values(|e| raw_line(e)),
        decreases sorted@.len() - i,
    {
        let key = &sorted[i].0;
        let value = &sorted[i].1;
        assert(se[i as int] == (key@, *value));
        let l = if value.as_str().as_bytes().len() == 0 {
            item_line_string(key.as_str(), "available")
        } else {
            item_line_string(key.as_str(), value.as_str())
        };
        proof {
            if value@.len() == 0 {
                assert(value@ =~= ""@) by {
                    reveal_strlit("");
                }
            }
        }
        let ghost before = body.deep_view();
        body.push(l);
        proof {
            lemma_map_take_push(se, |e| raw_line(e), i as int);
        }
        assert(body.deep_view() =~= before.push(se.take(i + 1).map_values(|e| raw_line(e)).last()));
        i = i + 1;
    }
    assert(se.take(se.len() as int) =~= se);
    push_section(&mut lines, "Raw detail", body);

    let mut body: Vec<String> = Vec::new();
    let mut i: usize = 0;
    while i < report.errors.len()
        invariant
            i <= report.errors@.len(),
            body.deep_view() == report.errors@.take(i as int).map_values(|e| error_line(e)),
        decreases report.errors@.len() - i,
    {
        let e = &report.errors[i];
        let mut l = to_string("- ");
        push_str(&mut l, e.source.as_str());
        push_str(&mut l, " [");
        push_str(&mut l, e.category.as_str());
        push_str(&mut l, "]: ");
        push_str(&mut l, e.message.as_str());
        let ghost before = body.deep_view();
        body.push(l);
        proof {
            lemma_map_take_push(report.errors@, |e| error_line(e), i as int);
        }
        assert(body.deep_view() =~= before.push(report.errors@.take(i + 1).map_values(|e| error_line(e)).last()));
        i = i + 1;
    }
    assert(report.errors@.take(report.errors@.len() as int) =~= report.errors@);
    push_section(&mut lines, "Errors", body);

    assert(lines.deep_view() =~= report_lines(*report));
    // Trailing newline keeps output friendly when piped to clipboard.
    let mut out = join(&lines, "\n");
    push_str(&mut out, "\n");
    out
}

/// Whether `a` comes before `b` in character order.
fn key_less(a: &str, b: &str) -> (r: bool)
    ensures
        r == key_lt(a@, b@),
{
    let x = chars_of(a);
    let y = chars_of(b);
    let mut i: usize = 0;
    assert(a@.skip(0) =~= a@);
    assert(b@.skip(0) =~= b@);
    while i < x.len() && i < y.len() && x[i] == y[i]
        invariant
            i <= x@.len(),
            i <= y@.len(),
            x@ == a@,
            y@ == b@,
            key_lt(a@, b@) == key_lt(a@.skip(i as int), b@.skip(i as int)),
        decreases x@.len() - i,
    {
        assert(a@.skip(i as int).drop_first() =~= a@.skip(i + 1));
        assert(b@.skip(i as int).drop_first() =~= b@.skip(i + 1));
        i = i + 1;
    }
    if i == x.len() {
        i < y.len()
    } else if i == y.len() {
        false
    } else {
        assert(a@.skip(i as int)[0] == x@[i as int]);
        assert(b@.skip(i as int)[0] == y@[i as int]);
        x[i] < y[i]
    }
}

/// The raw sections as key-value pairs in key order.
fn sorted_sections(m: &StrMap<String>) -> (r: Vec<(String, String)>)
    ensures
        r@.map_values(|p: (String, String)| (p.0@, p.1)) == sort_by_key(m.entries()),
{
    let ghost es = m.entries();
    let mut r: Vec<(String, String)> = Vec::new();
    let mut i: usize = 0;
    while i < m.len()
        invariant
            i <= es.len(),
            es == m.entries(),
            r@.map_values(|p: (String, String)| (p.0@, p.1)) == sort_by_key(es.take(i as int)),
        decreases es.len() - i,
    {
        let k = m.key_at(i).clone();
        let v = m.value_at(i).clone();
        let ghost rv = r@.map_values(|p: (String, String)| (p.0@, p.1));
        let ghost x = (k@, v);
        let mut p: usize = 0;
        while p < r.len() && !key_less(k.as_str(), r[p].0.as_str())
            invariant
                p <= r@.len(),
                rv == r@.map_values(|q: (String, String)| (q.0@, q.1)),
                forall|q: int| 0 <= q < p ==> !key_lt(k@, #[trigger] rv[q].0),
            decreases r@.len() - p,
        {
            p = p + 1;
        }
        proof {
            lemma_insert_by_key_at(rv, x, p as int);
            assert(es.take(i + 1).drop_last() =~= es.take(i as int));
            assert(es.take(i + 1).last() == x);
        }
        r.insert(p, (k, v));
        assert(r@.map_values(|q: (String, String)| (q.0@, q.1)) =~= rv.insert(p as int, x));
        i = i + 1;
    }
    assert(es.take(es.len() as int) =~= es);
    r
}

/// Reports whose raw sections hold the same entries, whatever the order
/// they were added in, list them alike in the Raw detail section: in key
/// order. (`wf`, distinct keys, is the type invariant every map keeps.)
pub proof fn lemma_raw_detail_in_key_order(a: StrMap<String>, b: StrMap<String>)
    requires
        a.wf(),
        b.wf(),
        forall|k: Seq<char>| #[trigger] a.lookup(k) == b.lookup(k),
    ensures
        sort_by_key(a.entries()) == sort_by_key(b.entries()),
{
    assert forall|k: Seq<char>| #[trigger] lookup_entry(a.entries(), k) == lookup_entry(b.entries(), k) by {
        assert(a.lookup(k) == b.lookup(k));
    }
    lemma_same_entries(a.entries(), b.entries());
    lemma_sort_by_key(a.entries());
    lemma_sort_by_key(b.entries());
    lemma_key_sorted_unique(sort_by_key(a.entries()), sort_by_key(b.entries()));
}

/// Rendering is deterministic: reports that differ only in when they were
/// made and in the order their raw sections were added render byte for
/// byte alike. (`wf`, distinct keys, is the type invariant every map keeps.)
pub proof fn lemma_render_ignores_section_order(r1: InvestigationReport, r2: InvestigationReport)
    requires
        r1.target == r2.target,
        r1.summary@ == r2.summary@,
        r1.evidence@ == r2.evidence@,
        r1.explanations@ == r2.explanations@,
        r1.related_jobs@ == r2.related_jobs@,
        r1.related_nodes@ == r2.related_nodes@,
        r1.suggested_actions@ == r2.suggested_actions@,
        r1.errors@ == r2.errors@,
        r1.raw_sections.wf(),
        r2.raw_sections.wf(),
        forall|k: Seq<char>| #[trigger] r1.raw_sections.lookup(k) == r2.raw_sections.lookup(k),
    ensures
        render_spec(r1) == render_spec(r2),
{
    lemma_raw_detail_in_key_order(r1.raw_sections, r2.raw_sections);
    assert(report_lines(r1) == report_lines(r2));
}

} // verus!
