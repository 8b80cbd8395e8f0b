use sqtop::slurm::model::Node;
use sqtop::strmap::StrMap;
use sqtop::views::detail::node_detail::build_detail_lines;

#[test]
fn test_build_detail_lines_includes_highlight_keys() {
    let node = Node {
        name: "node01".to_string(),
        state: "idle".to_string(),
        ..Default::default()
    };
    let mut data = StrMap::new();
    data.insert("NodeName".to_string(), "node01".to_string());
    data.insert("State".to_string(), "idle".to_string());
    data.insert("CPUTot".to_string(), "32".to_string());

    let lines = build_detail_lines(&node, &data);
    assert!(lines.iter().any(|l| l.contains("NodeName: node01")));
    assert!(lines.iter().any(|l| l.contains("State: idle")));
    assert!(lines.iter().any(|l| l.contains("CPUTot: 32")));
}
