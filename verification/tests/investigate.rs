use sqtop::investigation::ReasonTable;
use sqtop::slurm::exec::CommandSource;
use sqtop::slurm::investigate::{
    investigate_job, investigate_node, node_active_states, node_unavailable_states,
    pending_states, running_states, terminal_states,
};

/// Fake command source for testing: answers a command with the canned
/// response of the longest pattern it contains.
struct FakeCommands {
    responses: Vec<(String, (String, bool, String))>,
}

impl FakeCommands {
    fn new() -> Self {
        Self {
            responses: Vec::new(),
        }
    }

    /// Add a canned response for commands containing the given substring.
    fn add(&mut self, pattern: &str, stdout: &str) {
        self.responses.push((
            pattern.to_string(),
            (stdout.to_string(), true, String::new()),
        ));
    }

    /// Add a failure response.
    fn add_fail(&mut self, pattern: &str, stderr: &str) {
        self.responses.push((
            pattern.to_string(),
            (String::new(), false, stderr.to_string()),
        ));
    }
}

impl CommandSource for FakeCommands {
    fn run_result(&mut self, cmd: &str) -> (String, bool, String) {
        let mut best: Option<&(String, (String, bool, String))> = None;
        for entry in &self.responses {
            if cmd.contains(entry.0.as_str()) {
                let longer = match best {
                    Some(b) => entry.0.len() > b.0.len(),
                    None => true,
                };
                if longer {
                    best = Some(entry);
                }
            }
        }
        match best {
            Some(entry) => entry.1.clone(),
            // Default: command not found
            None => (String::new(), false, "command not found".to_string()),
        }
    }
}

// State constant tests
#[test]
fn test_pending_states() {
    assert!(pending_states().contains(&"PENDING"));
    assert!(pending_states().contains(&"PD"));
    assert_eq!(pending_states().len(), 2);
}

#[test]
fn test_running_states() {
    assert!(running_states().contains(&"RUNNING"));
    assert!(running_states().contains(&"R"));
    assert_eq!(running_states().len(), 2);
}

#[test]
fn test_terminal_states() {
    assert!(terminal_states().contains(&"COMPLETED"));
    assert!(terminal_states().contains(&"CD"));
    assert!(terminal_states().contains(&"FAILED"));
    assert!(terminal_states().contains(&"F"));
    assert!(terminal_states().contains(&"CANCELLED"));
    assert!(terminal_states().contains(&"CA"));
    assert!(terminal_states().contains(&"TIMEOUT"));
    assert!(terminal_states().contains(&"TO"));
    assert!(terminal_states().contains(&"NODE_FAIL"));
    assert!(terminal_states().contains(&"NF"));
    assert!(terminal_states().contains(&"PREEMPTED"));
    assert!(terminal_states().contains(&"PR"));
    assert!(terminal_states().contains(&"OUT_OF_MEMORY"));
    assert!(terminal_states().contains(&"OOM"));
    assert_eq!(terminal_states().len(), 14);
}

#[test]
fn test_node_active_states() {
    assert!(node_active_states().contains(&"ALLOCATED"));
    assert!(node_active_states().contains(&"MIXED"));
    assert_eq!(node_active_states().len(), 2);
}

#[test]
fn test_node_unavailable_states() {
    assert!(node_unavailable_states().contains(&"DOWN"));
    assert!(node_unavailable_states().contains(&"DRAIN"));
    assert!(node_unavailable_states().contains(&"DRAINED"));
    assert_eq!(node_unavailable_states().len(), 3);
}

// Behavioral tests for investigate_job

#[test]
fn test_investigate_job_pending_resources() {
    let mut fake = FakeCommands::new();
    let job_id = "12346";

    // scontrol show job
    fake.add(
        "scontrol show job",
        &format!(
            "JobId={} JobName=preprocess UserId=bob(1002) \
             JobState=PENDING Reason=Resources Dependency=(null) \
             Partition=gpu QOS=normal \
             NumNodes=1 NumCPUs=16 TimeLimit=24:00:00 RunTime=00:00:00 \
             TRES=cpu=16,mem=128G,node=1,gres/gpu=1 \
             SubmitTime=2026-05-08T11:00:00 StartTime=Unknown \
             NodeList=(null) ReqNodeList=(null)",
            job_id
        ),
    );

    // squeue
    fake.add(
        "squeue --noheader",
        &format!(
            "{}|preprocess|bob|PENDING|gpu|1|16|0:00|24:00:00|Resources||normal\n",
            job_id
        ),
    );

    let reasons = ReasonTable::default();
    let report = investigate_job(&mut fake, &reasons, job_id);

    assert_eq!(report.target.kind, "job");
    assert_eq!(report.target.identifier, job_id);
    assert!(report.errors.is_empty());

    // Should have Resources reason in evidence
    let reason_ev: Vec<_> = report
        .evidence
        .iter()
        .filter(|e| e.id == "squeue.reason")
        .collect();
    assert_eq!(reason_ev.len(), 1);
    assert_eq!(reason_ev[0].value, "Resources");

    // Should have explanation about resources
    assert!(!report.explanations.is_empty());
    let has_resource_explanation = report.explanations.iter().any(|exp| {
        exp.title.to_lowercase().contains("resource")
            || exp.detail.to_lowercase().contains("resource")
    });
    assert!(has_resource_explanation);
}

#[test]
fn test_investigate_job_pending_dependency() {
    let mut fake = FakeCommands::new();
    let job_id = "12347";
    let dep_id = "99999";

    // scontrol show job
    fake.add(
        "scontrol show job",
        &format!(
            "JobId={} JobName=postproc UserId=carol(1003) \
             JobState=PENDING Reason=Dependency Dependency=afterok:{} \
             Partition=cpu QOS=normal \
             NumNodes=1 NumCPUs=4 TimeLimit=01:00:00 RunTime=00:00:00 \
             TRES=cpu=4,mem=8G,node=1 \
             SubmitTime=2026-05-08T12:00:00 StartTime=Unknown \
             NodeList=(null) ReqNodeList=(null)",
            job_id, dep_id
        ),
    );

    // squeue main
    fake.add(
        "squeue --noheader -o",
        &format!(
            "{}|postproc|carol|PENDING|cpu|1|4|0:00|1:00:00|Dependency||normal\n",
            job_id
        ),
    );

    // squeue -j for dependency check
    fake.add(&format!("squeue --noheader -j {}", dep_id), "RUNNING\n");

    let reasons = ReasonTable::default();
    let report = investigate_job(&mut fake, &reasons, job_id);

    assert!(report.errors.is_empty());

    // Should have dependency in evidence
    let dep_ev: Vec<_> = report
        .evidence
        .iter()
        .filter(|e| e.id == format!("dep.{}", dep_id))
        .collect();
    assert_eq!(dep_ev.len(), 1);
    assert_eq!(dep_ev[0].value, "RUNNING");

    // Should have dependency explanation
    let dep_exp: Vec<_> = report
        .explanations
        .iter()
        .filter(|exp| exp.title == "Dependency")
        .collect();
    assert_eq!(dep_exp.len(), 1);
    assert!(dep_exp[0].detail.contains(&dep_id.to_string()));
    assert!(dep_exp[0].detail.contains("RUNNING"));
}

#[test]
fn test_investigate_job_running_populates_nodes() {
    let mut fake = FakeCommands::new();
    let job_id = "12348";

    // scontrol show job
    fake.add(
        "scontrol show job",
        &format!(
            "JobId={} JobName=train UserId=alice(1001) \
             JobState=RUNNING Reason=None Dependency=(null) \
             Partition=gpu QOS=normal \
             NumNodes=1 NumCPUs=8 TimeLimit=08:00:00 RunTime=00:30:00 \
             TRES=cpu=8,mem=64G,node=1,gres/gpu=2 \
             SubmitTime=2026-05-08T10:00:00 StartTime=2026-05-08T10:15:00 \
             NodeList=node01 ReqNodeList=(null)",
            job_id
        ),
    );

    // squeue
    fake.add(
        "squeue --noheader -o",
        &format!(
            "{}|train|alice|RUNNING|gpu|1|8|0:30:00|8:00:00|None|node01|normal\n",
            job_id
        ),
    );

    // scontrol show hostnames
    fake.add("scontrol show hostnames", "node01\n");

    // sinfo for node
    fake.add(
        "sinfo --noheader -N -o",
        "node01|mixed|gpu|16|8/4/0/12|128000|64000|8.45|gpu:4\n",
    );

    // sinfo gres
    fake.add("sinfo --noheader -N -o '%N %G'", "node01 gpu:4(S:0)\n");

    let reasons = ReasonTable::default();
    let report = investigate_job(&mut fake, &reasons, job_id);

    assert!(report.errors.is_empty());

    // Should have NodeList in evidence
    let nodelist_ev: Vec<_> = report
        .evidence
        .iter()
        .filter(|e| e.id == "scontrol.NodeList")
        .collect();
    assert_eq!(nodelist_ev.len(), 1);
    assert_eq!(nodelist_ev[0].value, "node01");

    // Should have related node
    assert_eq!(report.related_nodes.len(), 1);
    assert_eq!(report.related_nodes[0].name, "node01");

    // The requested GPU count comes from the TRES field.
    let gpus: Vec<_> = report.summary.iter().filter(|i| i.label == "Requested GPUs").collect();
    assert_eq!(gpus.len(), 1);
    assert_eq!(gpus[0].value, "2");
}

#[test]
fn test_investigate_job_completed_with_sacct() {
    let mut fake = FakeCommands::new();
    let job_id = "12349";

    // scontrol show job
    fake.add(
        "scontrol show job",
        &format!(
            "JobId={} JobName=process UserId=bob(1002) \
             JobState=COMPLETED Reason=None Dependency=(null) \
             Partition=cpu QOS=normal \
             NumNodes=1 NumCPUs=4 TimeLimit=02:00:00 RunTime=01:45:30 \
             TRES=cpu=4,mem=16G,node=1 \
             SubmitTime=2026-05-07T14:00:00 StartTime=2026-05-07T14:05:00 \
             NodeList=node02 ReqNodeList=(null)",
            job_id
        ),
    );

    // squeue (job not in queue)
    fake.add("squeue --noheader -o", "");

    // sacct
    fake.add(
        "sacct -j",
        &format!("{}|14400|3600.5|16000M|8192000K\n", job_id),
    );

    let reasons = ReasonTable::default();
    let report = investigate_job(&mut fake, &reasons, job_id);

    // Should have sacct evidence
    let cpu_eff_ev: Vec<_> = report
        .evidence
        .iter()
        .filter(|e| e.id == "sacct.cpu_eff")
        .collect();
    assert_eq!(cpu_eff_ev.len(), 1);
    assert!(cpu_eff_ev[0].value.contains('%'));

    let mem_eff_ev: Vec<_> = report
        .evidence
        .iter()
        .filter(|e| e.id == "sacct.mem_eff")
        .collect();
    assert_eq!(mem_eff_ev.len(), 1);
    assert!(mem_eff_ev[0].value.contains('%'));

    assert_eq!(report.raw_sections.get("sacct").unwrap(), "available");
}

#[test]
fn test_investigate_job_scontrol_failure_partial_report() {
    let mut fake = FakeCommands::new();
    let job_id = "12350";

    // scontrol fails
    fake.add_fail("scontrol show job", "permission denied");

    // squeue succeeds
    fake.add(
        "squeue --noheader",
        &format!(
            "{}|myjob|alice|RUNNING|gpu|1|8|1:00:00|4:00:00|None|node01|normal\n",
            job_id
        ),
    );

    let reasons = ReasonTable::default();
    let report = investigate_job(&mut fake, &reasons, job_id);

    // Should have an error about scontrol
    assert_eq!(report.errors.len(), 1);
    assert_eq!(report.errors[0].source, "scontrol");
    assert!(report.errors[0]
        .stderr
        .as_ref()
        .unwrap()
        .contains("permission"));

    // But should still have squeue evidence
    let state_ev: Vec<_> = report
        .evidence
        .iter()
        .filter(|e| e.id == "squeue.state")
        .collect();
    assert_eq!(state_ev.len(), 1);
    assert_eq!(state_ev[0].value, "RUNNING");

    // Summary should still be populated
    assert!(!report.summary.is_empty());
}

// Behavioral tests for investigate_node

#[test]
fn test_investigate_node_idle() {
    let mut fake = FakeCommands::new();
    let node_name = "node01";

    // scontrol show node
    fake.add(
        "scontrol show node",
        &format!(
            "NodeName={} State=IDLE CPUAlloc=0 CPUTot=16 \
             Partitions=gpu RealMemory=128000 FreeMem=120000 \
             CPULoad=0.05 Gres=gpu:4 AllocTRES= Reason=none",
            node_name
        ),
    );

    // sinfo
    fake.add(
        "sinfo --noheader -N -o",
        "node01|idle|gpu|16|0/16/0/16|128000|120000|0.05|gpu:4\n",
    );

    // sinfo gres
    fake.add("sinfo --noheader -N -o '%N %G'", "node01 gpu:4(S:0)\n");

    // squeue -w (no jobs)
    fake.add("squeue --noheader -w", "");

    let report = investigate_node(&mut fake, node_name, 20);

    assert_eq!(report.target.kind, "node");
    assert_eq!(report.target.identifier, node_name);
    assert!(report.errors.is_empty());

    // Should have state evidence
    let state_ev: Vec<_> = report
        .evidence
        .iter()
        .filter(|e| e.id == "sinfo.state")
        .collect();
    assert_eq!(state_ev.len(), 1);
    assert_eq!(state_ev[0].value, "idle");

    // Should have explanation about idle state
    assert!(!report.explanations.is_empty());

    // Should have "no jobs" explanation
    let no_jobs_exp: Vec<_> = report
        .explanations
        .iter()
        .filter(|exp| exp.title.contains("No jobs"))
        .collect();
    assert_eq!(no_jobs_exp.len(), 1);
}

#[test]
fn test_investigate_node_allocated_with_jobs() {
    let mut fake = FakeCommands::new();
    let node_name = "node02";

    // scontrol show node
    fake.add(
        "scontrol show node",
        &format!(
            "NodeName={} State=ALLOCATED CPUAlloc=16 CPUTot=16 \
             Partitions=gpu RealMemory=128000 FreeMem=32000 \
             CPULoad=15.2 Gres=gpu:4 AllocTRES=cpu=16,mem=96000M,gres/gpu=4 \
             Reason=none",
            node_name
        ),
    );

    // sinfo
    fake.add(
        "sinfo --noheader -N -o",
        "node02|allocated|gpu|16|16/0/0/16|128000|32000|15.2|gpu:4\n",
    );

    // sinfo gres
    fake.add("sinfo --noheader -N -o '%N %G'", "node02 gpu:4(S:0-3)\n");

    // squeue -w (2 jobs)
    fake.add(
        "squeue --noheader -w",
        "100|job1|user1|RUNNING|gpu|1|8|1:00:00|4:00:00|None|node02|normal\n\
         101|job2|user2|RUNNING|gpu|1|8|0:30:00|2:00:00|None|node02|normal\n",
    );

    let report = investigate_node(&mut fake, node_name, 20);

    assert!(report.errors.is_empty());

    // Should have 2 related jobs
    assert_eq!(report.related_jobs.len(), 2);
    assert_eq!(report.related_jobs[0].job_id, "100");
    assert_eq!(report.related_jobs[1].job_id, "101");
}

#[test]
fn test_investigate_node_drain() {
    let mut fake = FakeCommands::new();
    let node_name = "node03";

    // scontrol show node
    fake.add(
        "scontrol show node",
        &format!(
            "NodeName={} State=IDLE+DRAIN CPUAlloc=0 CPUTot=16 \
             Partitions=gpu RealMemory=128000 FreeMem=120000 \
             CPULoad=0.00 Gres=gpu:4 AllocTRES= \
             Reason=maintenance[root@2026-05-08T08:00:00]",
            node_name
        ),
    );

    // sinfo
    fake.add(
        "sinfo --noheader -N -o",
        "node03|idle+drain|gpu|16|0/16/0/16|128000|120000|0.00|gpu:4\n",
    );

    // sinfo gres
    fake.add("sinfo --noheader -N -o '%N %G'", "node03 gpu:4(S:0)\n");

    // squeue -w
    fake.add("squeue --noheader -w", "");

    let report = investigate_node(&mut fake, node_name, 20);

    assert!(report.errors.is_empty());

    // Should have Reason in evidence
    let reason_ev: Vec<_> = report
        .evidence
        .iter()
        .filter(|e| e.id == "scontrol.Reason")
        .collect();
    assert_eq!(reason_ev.len(), 1);
    assert!(reason_ev[0].value.contains("maintenance"));

    // Explanation should mention drain
    let exp_text = report
        .explanations
        .iter()
        .map(|e| format!("{} {}", e.title, e.detail).to_lowercase())
        .collect::<Vec<_>>()
        .join(" ");
    assert!(exp_text.contains("drain"));
}

#[test]
fn test_investigate_node_caps_related_jobs_at_limit() {
    let mut fake = FakeCommands::new();
    let node_name = "node04";

    // scontrol show node
    fake.add(
        "scontrol show node",
        "NodeName=node04 State=ALLOCATED CPUAlloc=16 CPUTot=16 \
         Partitions=gpu RealMemory=128000 FreeMem=32000 \
         CPULoad=15.5 Gres=gpu:4 AllocTRES=cpu=16 Reason=none",
    );

    // sinfo
    fake.add(
        "sinfo --noheader -N -o",
        "node04|allocated|gpu|16|16/0/0/16|128000|32000|15.5|gpu:4\n",
    );

    // sinfo gres
    fake.add("sinfo --noheader -N -o '%N %G'", "node04 gpu:4(S:0-3)\n");

    // squeue -w (10 jobs)
    let mut jobs = String::new();
    for i in 1..=10 {
        jobs.push_str(&format!(
            "{}|job{}|user|RUNNING|gpu|1|2|1:00:00|4:00:00|None|node04|normal\n",
            i, i
        ));
    }
    fake.add("squeue --noheader -w", &jobs);

    // Cap at 5
    let report = investigate_node(&mut fake, node_name, 5);

    assert_eq!(report.related_jobs.len(), 5);
}

#[test]
fn test_investigate_node_zero_cap_disables_limit() {
    let mut fake = FakeCommands::new();
    let node_name = "node05";

    fake.add(
        "scontrol show node",
        "NodeName=node05 State=ALLOCATED CPUAlloc=8 CPUTot=16 \
         Partitions=gpu RealMemory=128000 FreeMem=64000 \
         CPULoad=8.0 Gres=gpu:2 AllocTRES=cpu=8 Reason=none",
    );

    fake.add(
        "sinfo --noheader -N -o",
        "node05|allocated|gpu|16|8/8/0/16|128000|64000|8.0|gpu:2\n",
    );

    fake.add("sinfo --noheader -N -o '%N %G'", "node05 gpu:2(S:0-1)\n");

    fake.add(
        "squeue --noheader -w",
        "200|job1|user|RUNNING|gpu|1|4|0:30:00|2:00:00|None|node05|normal\n",
    );

    // max_related_jobs = 0 should yield no jobs
    let report = investigate_node(&mut fake, node_name, 0);

    assert!(report.related_jobs.is_empty());
}

#[test]
fn test_investigate_node_scontrol_failure_partial_report() {
    let mut fake = FakeCommands::new();
    let node_name = "node06";

    // scontrol fails
    fake.add_fail("scontrol show node", "node not found");

    // sinfo succeeds
    fake.add(
        "sinfo --noheader -N -o",
        "node06|idle|cpu|8|0/8/0/8|32000|30000|0.1|(null)\n",
    );

    // sinfo gres
    fake.add("sinfo --noheader -N -o '%N %G'", "node06 (null)\n");

    // squeue -w
    fake.add("squeue --noheader -w", "");

    let report = investigate_node(&mut fake, node_name, 20);

    // Should have error about scontrol
    assert_eq!(report.errors.len(), 1);
    assert_eq!(report.errors[0].source, "scontrol");
    assert!(report.errors[0]
        .stderr
        .as_ref()
        .unwrap()
        .contains("not found"));

    // But should still have sinfo evidence
    let state_ev: Vec<_> = report
        .evidence
        .iter()
        .filter(|e| e.id == "sinfo.state")
        .collect();
    assert_eq!(state_ev.len(), 1);
    assert_eq!(state_ev[0].value, "idle");

    // Summary should still be populated
    assert!(!report.summary.is_empty());
}

