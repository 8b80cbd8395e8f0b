use sqtop::slurm::fetch::JobDependency;
use sqtop::slurm::model::Job;
use sqtop::strmap::StrMap;
use sqtop::views::detail::job_info::{build_info_content, state_color};
use sqtop::views::tint::Tint;

#[test]
fn test_build_info_content_includes_identity_section() {
    let job = Job {
        job_id: "12345".to_string(),
        name: "test_job".to_string(),
        user: "alice".to_string(),
        state: "RUNNING".to_string(),
        partition: "gpu".to_string(),
        ..Default::default()
    };
    let detail: StrMap<String> = StrMap::new();
    let deps: Vec<JobDependency> = Vec::new();

    let (_, plain) = build_info_content(&job, &detail, &deps);
    assert!(plain.contains("── Identity"));
    assert!(plain.contains("Job ID:"));
    assert!(plain.contains("12345"));
    assert!(plain.contains("test_job"));
}

#[test]
fn test_state_color_green_for_running() {
    assert_eq!(state_color("RUNNING"), Tint::Green);
}

#[test]
fn test_state_color_red_for_failed() {
    assert_eq!(state_color("FAILED"), Tint::Red);
}
