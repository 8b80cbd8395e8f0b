use sqtop::investigation::{
    explain_node_state, render_report, InvestigationAction, InvestigationError,
    InvestigationEvidence, InvestigationExplanation, InvestigationItem, InvestigationReport,
    InvestigationTarget, ReasonTable,
};
use sqtop::slurm::model::{Job, Node};
use sqtop::strmap::StrMap;
use std::time::SystemTime;

#[test]
fn test_investigation_target_round_trips_fields() {
    let t = InvestigationTarget {
        kind: "job".to_string(),
        identifier: "12345".to_string(),
        source: "cursor".to_string(),
    };
    assert_eq!(t.kind, "job");
    assert_eq!(t.identifier, "12345");
    assert_eq!(t.source, "cursor");
}

#[test]
fn test_investigation_target_node_kind() {
    let t = InvestigationTarget {
        kind: "node".to_string(),
        identifier: "gpu-a100-02".to_string(),
        source: "typed".to_string(),
    };
    assert_eq!(t.kind, "node");
    assert_eq!(t.identifier, "gpu-a100-02");
}

#[test]
fn test_investigation_report_constructs_with_empty_defaults() {
    let target = InvestigationTarget {
        kind: "job".to_string(),
        identifier: "1".to_string(),
        source: "cursor".to_string(),
    };
    let now = SystemTime::now();
    let report = InvestigationReport::new(target, now);
    assert!(report.summary.is_empty());
    assert!(report.evidence.is_empty());
    assert!(report.explanations.is_empty());
    assert!(report.related_jobs.is_empty());
    assert!(report.related_nodes.is_empty());
    assert!(report.suggested_actions.is_empty());
    assert!(report.raw_sections.is_empty());
    assert!(report.errors.is_empty());
}

#[test]
fn test_investigation_explanation_evidence_refs_default_is_vec() {
    let exp =
        InvestigationExplanation::new("t".to_string(), "d".to_string(), "high".to_string());
    assert!(exp.evidence_refs.is_empty());
}

#[test]
fn test_explain_pending_reason_resources() {
    let table = ReasonTable::default();
    let exp = table.explain_pending_reason(Some("Resources"));
    assert_eq!(exp.confidence, "medium");
    let text = format!("{} {}", exp.title, exp.detail).to_lowercase();
    assert!(text.contains("resource"));
}

#[test]
fn test_explain_pending_reason_priority() {
    let table = ReasonTable::default();
    let exp = table.explain_pending_reason(Some("Priority"));
    assert_eq!(exp.confidence, "high");
    let text = format!("{} {}", exp.title, exp.detail).to_lowercase();
    assert!(text.contains("priority"));
}

#[test]
fn test_explain_pending_reason_dependency() {
    let table = ReasonTable::default();
    let exp = table.explain_pending_reason(Some("Dependency"));
    assert_eq!(exp.confidence, "high");
    let text = format!("{} {}", exp.title, exp.detail).to_lowercase();
    assert!(text.contains("depend"));
}

#[test]
fn test_explain_pending_reason_req_node_not_avail() {
    let table = ReasonTable::default();
    let exp = table.explain_pending_reason(Some("ReqNodeNotAvail"));
    assert_eq!(exp.confidence, "high");
    let text = format!("{} {}", exp.title, exp.detail).to_lowercase();
    assert!(text.contains("node"));
}

#[test]
fn test_explain_pending_reason_partition_time_limit() {
    let table = ReasonTable::default();
    let exp = table.explain_pending_reason(Some("PartitionTimeLimit"));
    assert_eq!(exp.confidence, "high");
    let text = format!("{} {}", exp.title, exp.detail).to_lowercase();
    assert!(text.contains("time") && text.contains("partition"));
}

#[test]
fn test_explain_pending_reason_job_held_user() {
    let table = ReasonTable::default();
    let exp = table.explain_pending_reason(Some("JobHeldUser"));
    assert_eq!(exp.confidence, "high");
    let text = format!("{} {}", exp.title, exp.detail).to_lowercase();
    assert!(text.contains("held") && text.contains("user"));
}

#[test]
fn test_explain_pending_reason_job_held_admin() {
    let table = ReasonTable::default();
    let exp = table.explain_pending_reason(Some("JobHeldAdmin"));
    assert_eq!(exp.confidence, "high");
    let text = format!("{} {}", exp.title, exp.detail).to_lowercase();
    assert!(text.contains("admin") || text.contains("administrator"));
}

#[test]
fn test_explain_pending_reason_begin_time() {
    let table = ReasonTable::default();
    let exp = table.explain_pending_reason(Some("BeginTime"));
    assert_eq!(exp.confidence, "high");
    let text = format!("{} {}", exp.title, exp.detail).to_lowercase();
    assert!(text.contains("begin") || text.contains("future"));
}

#[test]
fn test_explain_pending_reason_reservation() {
    let table = ReasonTable::default();
    let exp = table.explain_pending_reason(Some("Reservation"));
    assert_eq!(exp.confidence, "medium");
    let text = format!("{} {}", exp.title, exp.detail).to_lowercase();
    assert!(text.contains("reservation"));
}

#[test]
fn test_explain_pending_reason_licenses() {
    let table = ReasonTable::default();
    let exp = table.explain_pending_reason(Some("Licenses"));
    assert_eq!(exp.confidence, "medium");
    let text = format!("{} {}", exp.title, exp.detail).to_lowercase();
    assert!(text.contains("licens"));
}

#[test]
fn test_explain_pending_reason_qos_max_cpu() {
    let table = ReasonTable::default();
    let exp = table.explain_pending_reason(Some("QOSMaxCpuPerUserLimit"));
    assert_eq!(exp.confidence, "medium");
    let text = format!("{} {}", exp.title, exp.detail).to_lowercase();
    assert!(text.contains("qos") && text.contains("cpu"));
}

#[test]
fn test_explain_pending_reason_qos_max_gres() {
    let table = ReasonTable::default();
    let exp = table.explain_pending_reason(Some("QOSMaxGRESPerUser"));
    assert_eq!(exp.confidence, "medium");
    let text = format!("{} {}", exp.title, exp.detail).to_lowercase();
    assert!(text.contains("qos") && (text.contains("gres") || text.contains("gpu")));
}

#[test]
fn test_explain_pending_reason_assoc_grp_cpu() {
    let table = ReasonTable::default();
    let exp = table.explain_pending_reason(Some("AssocGrpCpuLimit"));
    assert_eq!(exp.confidence, "medium");
    let text = format!("{} {}", exp.title, exp.detail).to_lowercase();
    assert!(
        (text.contains("association") || text.contains("assoc") || text.contains("group"))
            && text.contains("cpu")
    );
}

#[test]
fn test_explain_pending_reason_assoc_grp_gres() {
    let table = ReasonTable::default();
    let exp = table.explain_pending_reason(Some("AssocGrpGRES"));
    assert_eq!(exp.confidence, "medium");
    let text = format!("{} {}", exp.title, exp.detail).to_lowercase();
    assert!(text.contains("association") || text.contains("assoc") || text.contains("group"));
    assert!(text.contains("gres") || text.contains("gpu"));
}

#[test]
fn test_explain_pending_reason_empty_string() {
    let table = ReasonTable::default();
    let exp = table.explain_pending_reason(Some(""));
    assert_eq!(exp.confidence, "low");
    assert!(exp.title.to_lowercase().contains("no pending reason"));
}

#[test]
fn test_explain_pending_reason_null_sentinel() {
    let table = ReasonTable::default();
    let exp = table.explain_pending_reason(Some("(null)"));
    assert_eq!(exp.confidence, "low");
    assert!(exp.title.to_lowercase().contains("no pending reason"));
}

#[test]
fn test_explain_pending_reason_none() {
    let table = ReasonTable::default();
    let exp = table.explain_pending_reason(None);
    assert_eq!(exp.confidence, "low");
    assert!(exp.title.to_lowercase().contains("no pending reason"));
}

#[test]
fn test_explain_pending_reason_unknown_reason() {
    let table = ReasonTable::default();
    let exp = table.explain_pending_reason(Some("SomethingNew"));
    assert_eq!(exp.confidence, "low");
    assert!(exp.title.to_lowercase().contains("unrecognized"));
    assert!(exp.detail.contains("SomethingNew"));
}

#[test]
fn test_explain_pending_reason_lookup_is_case_sensitive() {
    let table = ReasonTable::default();
    // Lowercase variants should NOT match the canonical capitalized keys.
    let exp = table.explain_pending_reason(Some("resources"));
    assert_eq!(exp.confidence, "low");
    assert!(exp.title.to_lowercase().contains("unrecognized"));
}

#[test]
fn test_existing_explain_pending_reason_unaffected_when_user_reasons_empty() {
    let table = ReasonTable::default();
    // Built-in: Resources -> medium.
    assert_eq!(
        table.explain_pending_reason(Some("Resources")).confidence,
        "medium"
    );
    // Built-in: Priority -> high.
    assert_eq!(
        table.explain_pending_reason(Some("Priority")).confidence,
        "high"
    );
    // Unknown -> low + "unrecognized".
    let unk = table.explain_pending_reason(Some("DefinitelyNotAReason"));
    assert_eq!(unk.confidence, "low");
    assert!(unk.title.to_lowercase().contains("unrecognized"));
    // Empty -> low + "no pending reason".
    let null = table.explain_pending_reason(Some(""));
    assert_eq!(null.confidence, "low");
    assert!(null.title.to_lowercase().contains("no pending reason"));
}

#[test]
fn test_explain_node_state_idle() {
    let exp = explain_node_state("IDLE");
    assert_eq!(exp.confidence, "high");
    assert!(exp.detail.to_lowercase().contains("available"));
}

#[test]
fn test_explain_node_state_allocated() {
    let exp = explain_node_state("ALLOCATED");
    assert_eq!(exp.confidence, "high");
    assert!(exp.detail.to_lowercase().contains("allocated"));
}

#[test]
fn test_explain_node_state_mixed() {
    let exp = explain_node_state("MIXED");
    assert_eq!(exp.confidence, "medium");
    assert!(exp.detail.to_lowercase().contains("allocated"));
}

#[test]
fn test_explain_node_state_down() {
    let exp = explain_node_state("DOWN");
    assert_eq!(exp.confidence, "high");
    assert!(exp.detail.to_lowercase().contains("unavailable"));
}

#[test]
fn test_explain_node_state_drain() {
    let exp = explain_node_state("DRAIN");
    assert_eq!(exp.confidence, "high");
    assert!(exp.detail.to_lowercase().contains("drain"));
}

#[test]
fn test_explain_node_state_drained() {
    let exp = explain_node_state("DRAINED");
    assert_eq!(exp.confidence, "high");
    assert!(exp.detail.to_lowercase().contains("drain"));
}

#[test]
fn test_explain_node_state_reserved() {
    let exp = explain_node_state("RESERVED");
    assert_eq!(exp.confidence, "medium");
    assert!(exp.detail.to_lowercase().contains("reserv"));
}

#[test]
fn test_explain_node_state_strips_asterisk_and_lowercase() {
    let exp = explain_node_state("idle*");
    assert_eq!(exp.confidence, "high");
    assert!(exp.detail.to_lowercase().contains("available"));
}

#[test]
fn test_explain_node_state_strips_dash_with_uppercase() {
    let exp = explain_node_state("MIXED-");
    assert_eq!(exp.confidence, "medium");
    assert!(exp.detail.to_lowercase().contains("allocated"));
}

#[test]
fn test_explain_node_state_compound_idle_plus_drain() {
    let exp = explain_node_state("idle+drain");
    // SPEC: compound + drain -> DRAIN with medium confidence
    assert_eq!(exp.confidence, "medium");
    assert!(exp.detail.to_lowercase().contains("drain"));
}

#[test]
fn test_explain_node_state_empty_returns_unknown() {
    let exp = explain_node_state("");
    assert_eq!(exp.confidence, "low");
}

#[test]
fn test_explain_node_state_weird_returns_unknown() {
    let exp = explain_node_state("WEIRD");
    assert_eq!(exp.confidence, "low");
}

fn empty_report(kind: &str, identifier: &str) -> InvestigationReport {
    let target = InvestigationTarget {
        kind: kind.to_string(),
        identifier: identifier.to_string(),
        source: "cursor".to_string(),
    };
    InvestigationReport::new(target, SystemTime::now())
}

#[test]
fn test_render_report_empty_does_not_crash() {
    let report = empty_report("job", "1");
    let out = render_report(&report);
    assert!(out.contains("Investigate Job 1"));
}

#[test]
fn test_render_report_node_header() {
    let report = empty_report("node", "gpu-a100-02");
    let out = render_report(&report);
    assert!(out.contains("Investigate Node gpu-a100-02"));
}

#[test]
fn test_render_report_job_with_summary_evidence_explanation_action() {
    let mut report = empty_report("job", "123456");
    report.summary.push(InvestigationItem {
        label: "State".to_string(),
        value: "PENDING".to_string(),
    });
    report.summary.push(InvestigationItem {
        label: "Reason".to_string(),
        value: "Resources".to_string(),
    });
    report.evidence.push(InvestigationEvidence {
        id: "e1".to_string(),
        label: "squeue reason".to_string(),
        value: "Resources".to_string(),
        source: "squeue".to_string(),
        confidence: "high".to_string(),
    });
    report.explanations.push(InvestigationExplanation::new(
        "Matching resources are not currently available".to_string(),
        "Slurm reports that matching resources are not currently available.".to_string(),
        "medium".to_string(),
    ));
    report.suggested_actions.push(InvestigationAction {
        label: "Watch this job".to_string(),
        detail: "watch the job for state changes".to_string(),
        safe_for_user: true,
    });

    let out = render_report(&report);
    assert!(out.contains("Summary"));
    assert!(out.contains("- State: PENDING"));
    assert!(out.contains("Slurm evidence"));
    assert!(out.contains("- squeue reason: Resources"));
    assert!(out.contains("Likely explanation"));
    assert!(out.contains("Confidence: medium"));
    assert!(out.contains("Suggested next actions"));
    assert!(out.contains("Watch this job"));
}

#[test]
fn test_render_report_node_with_related_nodes() {
    let mut report = empty_report("node", "gpu-a100-02");
    report.related_nodes.push(Node {
        name: "gpu-a100-01".to_string(),
        state: "ALLOCATED".to_string(),
        partition: "gpu".to_string(),
        cpus_total: "64".to_string(),
        cpus_alloc: "64".to_string(),
        memory_total: "512000".to_string(),
        memory_free: "0".to_string(),
        load: String::new(),
        gpu_total: 0,
        gpu_alloc: 0,
    });
    report.related_nodes.push(Node {
        name: "gpu-a100-03".to_string(),
        state: "DRAIN".to_string(),
        partition: "gpu".to_string(),
        cpus_total: "64".to_string(),
        cpus_alloc: "0".to_string(),
        memory_total: "512000".to_string(),
        memory_free: "512000".to_string(),
        load: String::new(),
        gpu_total: 0,
        gpu_alloc: 0,
    });
    let out = render_report(&report);
    assert!(out.contains("Related nodes"));
    assert!(out.contains("- gpu-a100-01: ALLOCATED"));
    assert!(out.contains("- gpu-a100-03: DRAIN"));
}

#[test]
fn test_render_report_errors_rendered_last() {
    let mut report = empty_report("job", "1");
    report.summary.push(InvestigationItem {
        label: "State".to_string(),
        value: "PENDING".to_string(),
    });
    report.errors.push(InvestigationError {
        source: "sacct".to_string(),
        category: "permission".to_string(),
        message: "not allowed".to_string(),
        stderr: None,
    });
    let out = render_report(&report);
    let err_idx = out.find("Errors").unwrap();
    let summary_idx = out.find("Summary").unwrap();
    assert!(summary_idx < err_idx);
    assert!(out.contains("- sacct [permission]: not allowed"));
}

#[test]
fn test_render_report_no_rich_markup() {
    let mut report = empty_report("job", "1");
    report.summary.push(InvestigationItem {
        label: "State".to_string(),
        value: "PENDING".to_string(),
    });
    report.evidence.push(InvestigationEvidence {
        id: "e1".to_string(),
        label: "reason".to_string(),
        value: "Resources".to_string(),
        source: "squeue".to_string(),
        confidence: "high".to_string(),
    });
    let out = render_report(&report);
    for tag in &["[red]", "[green]", "[bold]", "[yellow]", "[blue]", "[/]"] {
        assert!(!out.contains(tag));
    }
}

#[test]
fn test_render_report_skips_empty_sections() {
    let report = empty_report("job", "1");
    let out = render_report(&report);
    // Only the header should appear; no section headers like "Summary".
    assert!(!out.contains("Summary"));
    assert!(!out.contains("Slurm evidence"));
    assert!(!out.contains("Likely explanation"));
    assert!(!out.contains("Suggested next actions"));
    assert!(!out.contains("Raw detail"));
    assert!(!out.contains("Errors"));
}

#[test]
fn test_render_report_derived_evidence_has_confidence_tag() {
    let mut report = empty_report("job", "1");
    report.evidence.push(InvestigationEvidence {
        id: "e1".to_string(),
        label: "visible free GPUs".to_string(),
        value: "1".to_string(),
        source: "derived".to_string(),
        confidence: "medium".to_string(),
    });
    let out = render_report(&report);
    assert!(out.contains("[medium]"));
}

#[test]
fn test_render_report_squeue_evidence_no_confidence_tag() {
    let mut report = empty_report("job", "1");
    report.evidence.push(InvestigationEvidence {
        id: "e1".to_string(),
        label: "reason".to_string(),
        value: "Resources".to_string(),
        source: "squeue".to_string(),
        confidence: "high".to_string(),
    });
    let out = render_report(&report);
    // squeue source should not get a [confidence] tag suffix
    assert!(!out.contains("[high]"));
}

#[test]
fn test_render_report_raw_sections_default_to_available() {
    let mut report = empty_report("job", "1");
    report
        .raw_sections
        .insert("scontrol show job".to_string(), "".to_string());
    report.raw_sections.insert(
        "sacct".to_string(),
        "unavailable on this cluster".to_string(),
    );
    let out = render_report(&report);
    assert!(out.contains("- scontrol show job: available"));
    assert!(out.contains("- sacct: unavailable on this cluster"));
}

#[test]
fn test_render_report_related_jobs() {
    let mut report = empty_report("node", "gpu-a100-02");
    report.related_jobs.push(Job {
        job_id: "12345".to_string(),
        name: "train".to_string(),
        user: "alice".to_string(),
        state: "RUNNING".to_string(),
        partition: "gpu".to_string(),
        nodes: "1".to_string(),
        num_nodes: "1".to_string(),
        num_cpus: "8".to_string(),
        time_used: "0:10:00".to_string(),
        time_limit: "24:00:00".to_string(),
        reason: String::new(),
        nodelist: String::new(),
        qos: String::new(),
    });
    let out = render_report(&report);
    assert!(out.contains("Related jobs"));
    assert!(out.contains("- 12345: RUNNING"));
}

// User reasons tests
#[test]
fn test_register_user_reasons_replaces_state() {
    let mut reasons = StrMap::new();
    reasons.insert(
        "FooReason".to_string(),
        InvestigationExplanation::new(
            "site-foo".to_string(),
            "site-detail".to_string(),
            "medium".to_string(),
        ),
    );
    let table = ReasonTable::with_user_reasons(reasons);
    let exp = table.explain_pending_reason(Some("FooReason"));
    assert_eq!(exp.title, "site-foo");
    assert_eq!(exp.detail, "site-detail");

    // Replace with empty -> falls through to unknown-reason fallback.
    let empty_table = ReasonTable::default();
    let exp2 = empty_table.explain_pending_reason(Some("FooReason"));
    assert!(exp2.title.to_lowercase().contains("unrecognized"));
    assert_eq!(exp2.confidence, "low");
}

#[test]
fn test_explain_pending_reason_user_wins_over_builtin() {
    let mut reasons = StrMap::new();
    reasons.insert(
        "Resources".to_string(),
        InvestigationExplanation::new(
            "site-Resources-title".to_string(),
            "site-Resources-detail".to_string(),
            "high".to_string(),
        ),
    );
    let table = ReasonTable::with_user_reasons(reasons);
    let exp = table.explain_pending_reason(Some("Resources"));
    assert_eq!(exp.title, "site-Resources-title");
    assert_eq!(exp.confidence, "high");
}

#[test]
fn test_explain_pending_reason_user_does_not_break_unknown_path() {
    let mut reasons = StrMap::new();
    reasons.insert(
        "Foo".to_string(),
        InvestigationExplanation::new("t".to_string(), "d".to_string(), "medium".to_string()),
    );
    let table = ReasonTable::with_user_reasons(reasons);
    let exp = table.explain_pending_reason(Some("BarUnknown"));
    assert_eq!(exp.confidence, "low");
    assert!(exp.title.to_lowercase().contains("unrecognized"));
    assert!(exp.detail.contains("BarUnknown"));
}

#[test]
fn test_explain_pending_reason_user_does_not_break_null_path() {
    let mut reasons = StrMap::new();
    reasons.insert(
        "Resources".to_string(),
        InvestigationExplanation::new("x".to_string(), "y".to_string(), "high".to_string()),
    );
    let table = ReasonTable::with_user_reasons(reasons);

    for null_input in &[None, Some(""), Some("(null)")] {
        let exp = table.explain_pending_reason(*null_input);
        assert!(exp.title.to_lowercase().contains("no pending reason"));
        assert_eq!(exp.confidence, "low");
    }
}

#[test]
fn test_explain_pending_reason_falls_back_to_builtin_when_user_has_no_match() {
    let mut reasons = StrMap::new();
    reasons.insert(
        "SomeOtherKey".to_string(),
        InvestigationExplanation::new("t".to_string(), "d".to_string(), "high".to_string()),
    );
    let table = ReasonTable::with_user_reasons(reasons);
    let exp = table.explain_pending_reason(Some("Resources"));
    // Built-in 'Resources' is medium confidence; site map missed it.
    assert_eq!(exp.confidence, "medium");
    let text = format!("{} {}", exp.title, exp.detail).to_lowercase();
    assert!(text.contains("resource"));
}


#[test]
fn raw_sections_render_in_key_order_whatever_the_insertion_order() {
    let mut a = empty_report("job", "1");
    a.raw_sections.insert("squeue".to_string(), "x".to_string());
    a.raw_sections.insert("sacct".to_string(), "".to_string());
    a.raw_sections.insert("scontrol show job".to_string(), "y".to_string());
    let mut b = empty_report("job", "1");
    b.raw_sections.insert("scontrol show job".to_string(), "y".to_string());
    b.raw_sections.insert("squeue".to_string(), "x".to_string());
    b.raw_sections.insert("sacct".to_string(), "".to_string());
    let out = render_report(&a);
    assert_eq!(out, render_report(&b));
    let p1 = out.find("- sacct: available").unwrap();
    let p2 = out.find("- scontrol show job: y").unwrap();
    let p3 = out.find("- squeue: x").unwrap();
    assert!(p1 < p2 && p2 < p3);
}
