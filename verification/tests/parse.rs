use sqtop::slurm::parse::{
    display, is_present, normalize_node_state_token, parse_gpu_count, parse_gpus_alloc,
    parse_partition_row, parse_scontrol_kv, parse_slurm_duration, parse_squeue_row, safe_int,
};
use regex::Regex;

// ── parse_squeue_row ──────────────────────────────────────────────────

#[test]
fn test_parse_squeue_row_normal() {
    let line = "123|myjob|alice|RUNNING|gpu|1|8|1:00:00|8:00:00|None|node01|normal";
    let job = parse_squeue_row(line).unwrap();

    assert_eq!(job.job_id, "123");
    assert_eq!(job.name, "myjob");
    assert_eq!(job.user, "alice");
    assert_eq!(job.state, "RUNNING");
    assert_eq!(job.partition, "gpu");
    assert_eq!(job.num_cpus, "8");
    assert_eq!(job.time_used, "1:00:00");
    assert_eq!(job.time_limit, "8:00:00");
    assert_eq!(job.reason, "None");
    assert_eq!(job.nodelist, "node01");
    assert_eq!(job.qos, "normal");
}

#[test]
fn test_parse_squeue_row_qos_normalization() {
    let line1 = "1|a|alice|RUNNING|gpu|1|4|0:01|8:00:00|None|node01|N/A";
    let job1 = parse_squeue_row(line1).unwrap();
    assert_eq!(job1.qos, "");

    let line2 = "2|b|bob|RUNNING|gpu|1|4|0:01|8:00:00|None|node02|(null)";
    let job2 = parse_squeue_row(line2).unwrap();
    assert_eq!(job2.qos, "");
}

#[test]
fn test_parse_squeue_row_qos_none_verbatim() {
    let line = "3|c|carol|RUNNING|gpu|1|4|0:01|8:00:00|None|node03|None";
    let job = parse_squeue_row(line).unwrap();
    assert_eq!(job.qos, "None");
}

#[test]
fn test_parse_squeue_row_malformed() {
    let line = "123|myjob|alice";
    assert!(parse_squeue_row(line).is_none());
}

// ── parse_partition_row ───────────────────────────────────────────────

#[test]
fn test_parse_partition_row_normal() {
    let line = "gpu|up|8:00:00|4|idle|node[01-04]";
    let summary = parse_partition_row(line).unwrap();

    assert_eq!(summary.partition, "gpu");
    assert_eq!(summary.avail, "up");
    assert_eq!(summary.timelimit, "8:00:00");
    assert_eq!(summary.nodes, "4");
    assert_eq!(summary.state, "idle");
    assert_eq!(summary.nodelist, "node[01-04]");
}

#[test]
fn test_parse_partition_row_malformed() {
    let line = "gpu|up|8:00:00";
    assert!(parse_partition_row(line).is_none());
}

// ── parse_gpu_count ───────────────────────────────────────────────────

#[test]
fn test_parse_gpu_count_single_type() {
    assert_eq!(parse_gpu_count("gpu:4"), 4);
    assert_eq!(parse_gpu_count("gpu:a100:4"), 4);
    assert_eq!(parse_gpu_count("gpu:a100:4(IDX:0,1,2,3)"), 4);
}

#[test]
fn test_parse_gpu_count_no_gpu() {
    assert_eq!(parse_gpu_count(""), 0);
    assert_eq!(parse_gpu_count("cpu:8"), 0);
    assert_eq!(parse_gpu_count("(null)"), 0);
}

#[test]
fn test_parse_gpu_count_multi_type_comma() {
    assert_eq!(parse_gpu_count("gpu:a100:4,gpu:b100:2"), 6);
}

#[test]
fn test_parse_gpu_count_multi_type_space() {
    assert_eq!(parse_gpu_count("gpu:a100:4 gpu:b100:2"), 6);
}

#[test]
fn test_parse_gpu_count_multi_type_three() {
    assert_eq!(parse_gpu_count("gpu:a100:4,gpu:b100:2,gpu:l4:1"), 7);
}

#[test]
fn test_parse_gpu_count_multi_type_with_idx() {
    assert_eq!(
        parse_gpu_count("gpu:a100:4(IDX:0,1,2,3),gpu:b100:2(IDX:0,1)"),
        6
    );
}

#[test]
fn test_parse_gpu_count_multi_type_no_typenames() {
    assert_eq!(parse_gpu_count("gpu:4,gpu:2"), 6);
}

#[test]
fn test_parse_gpu_count_gpu_after_non_gpu() {
    assert_eq!(parse_gpu_count("cpu:16,gpu:a100:8"), 8);
}

#[test]
fn test_parse_gpu_count_zero_in_one_group() {
    assert_eq!(parse_gpu_count("gpu:a100:0,gpu:b100:2"), 2);
}

// ── parse_gpus_alloc ──────────────────────────────────────────────────

#[test]
fn test_parse_gpus_alloc_from_alloc_tres() {
    let output = "NodeName=node01 AllocTRES=cpu=4,mem=16G,gres/gpu=2
                  NodeName=node02 AllocTRES=cpu=8
";
    let result = parse_gpus_alloc(output);

    assert_eq!(result.get("node01"), Some(&2));
    assert_eq!(result.get("node02"), None);
}

#[test]
fn test_parse_gpus_alloc_fallback_gres_used() {
    let output = "NodeName=node01 AllocTRES=cpu=4 GresUsed=gpu:a100:3(IDX:0,1,2)";
    let result = parse_gpus_alloc(output);

    assert_eq!(result.get("node01"), Some(&3));
}

#[test]
fn test_parse_gpus_alloc_no_gpu_node() {
    let output = "NodeName=node01 AllocTRES=cpu=4,mem=8G";
    let result = parse_gpus_alloc(output);

    assert_eq!(result.get("node01"), None);
}

// ── parse_slurm_duration ──────────────────────────────────────────────

#[test]
fn test_parse_slurm_duration_hms() {
    assert_eq!(parse_slurm_duration("1:30:45"), Some(5445)); // 1*3600 + 30*60 + 45
}

#[test]
fn test_parse_slurm_duration_ms() {
    assert_eq!(parse_slurm_duration("30:45"), Some(1845)); // 30*60 + 45
}

#[test]
fn test_parse_slurm_duration_s() {
    assert_eq!(parse_slurm_duration("45"), Some(45));
}

#[test]
fn test_parse_slurm_duration_days() {
    assert_eq!(
        parse_slurm_duration("2-10:30:45"),
        Some(2 * 86400 + 10 * 3600 + 30 * 60 + 45)
    );
}

#[test]
fn test_parse_slurm_duration_empty() {
    assert_eq!(parse_slurm_duration(""), Some(0));
    assert_eq!(parse_slurm_duration("0"), Some(0));
}

#[test]
fn test_parse_slurm_duration_malformed() {
    assert_eq!(parse_slurm_duration("invalid"), None);
    assert_eq!(parse_slurm_duration("1:2:3:4"), None);
}

// ── parse_scontrol_kv ─────────────────────────────────────────────────

#[test]
fn test_parse_scontrol_kv_normal() {
    let output = "JobId=123 JobName=myjob UserId=alice(1001) JobState=RUNNING";
    let kv = parse_scontrol_kv(output);

    assert_eq!(kv.get("JobId"), Some(&"123".to_string()));
    assert_eq!(kv.get("JobName"), Some(&"myjob".to_string()));
    assert_eq!(kv.get("JobState"), Some(&"RUNNING".to_string()));
}

#[test]
fn test_parse_scontrol_kv_skips_no_equals() {
    let output = "NodeName=node01 State=idle SOMETOKEN";
    let kv = parse_scontrol_kv(output);

    assert_eq!(kv.get("NodeName"), Some(&"node01".to_string()));
    assert_eq!(kv.get("State"), Some(&"idle".to_string()));
    assert_eq!(kv.get("SOMETOKEN"), None);
}

// ── is_present ────────────────────────────────────────────────────────

#[test]
fn test_is_present() {
    assert!(!is_present(None));
    assert!(!is_present(Some("")));
    assert!(!is_present(Some("(null)")));
    assert!(!is_present(Some("N/A")));
    assert!(!is_present(Some("None")));
    assert!(!is_present(Some("none")));
    assert!(is_present(Some("real_value")));
}

// ── display ───────────────────────────────────────────────────────────

#[test]
fn test_display() {
    assert_eq!(display(None), "(unavailable)");
    assert_eq!(display(Some("")), "(unavailable)");
    assert_eq!(display(Some("(null)")), "(unavailable)");
    assert_eq!(display(Some("real_value")), "real_value");
    assert_eq!(display(Some("  trimmed  ")), "trimmed");
}

// ── normalize_node_state_token ────────────────────────────────────────

#[test]
fn test_normalize_node_state_token() {
    assert_eq!(normalize_node_state_token("idle"), "IDLE");
    assert_eq!(normalize_node_state_token("allocated*"), "ALLOCATED");
    assert_eq!(normalize_node_state_token("drain+"), "DRAIN");
    assert_eq!(normalize_node_state_token("down#"), "DOWN");
    assert_eq!(normalize_node_state_token("mixed~@!"), "MIXED");
}

// ── safe_int ──────────────────────────────────────────────────────────

#[test]
fn debug_regex() {
    let test_str = "gpu:4";
    println!("Testing: {}", test_str);
    let result = parse_gpu_count(test_str);
    println!("Result: {}", result);

    let re = Regex::new(r"\bgpu:(?:[^:,()\s]+:)?(\d+)").unwrap();
    println!("Regex is valid");

    for cap in re.captures_iter(test_str) {
        println!("Capture: {:?}", cap);
        if let Some(m) = cap.get(1) {
            println!("Group 1: {}", m.as_str());
        }
    }
}

#[test]
fn test_safe_int() {
    assert_eq!(safe_int(None), None);
    assert_eq!(safe_int(Some("")), None);
    assert_eq!(safe_int(Some("?")), None);
    assert_eq!(safe_int(Some("123")), Some(123));
    assert_eq!(safe_int(Some("  456  ")), Some(456));
    assert_eq!(safe_int(Some("invalid")), None);
}

