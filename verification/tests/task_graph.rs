use raven::graph::{compute_depths, write_conflicts, TaskFiles};
use raven::tui::{GraphEdge, GraphNode};

fn node(id: &str, depth: usize) -> GraphNode {
    GraphNode {
        id: id.to_string(),
        label: format!("task {id}"),
        goal: String::new(),
        status: "pending".to_string(),
        agent_id: None,
        children: Vec::new(),
        depth,
    }
}

fn edge(from: &str, to: &str) -> GraphEdge {
    GraphEdge { from: from.to_string(), to: to.to_string(), label: String::new() }
}

fn depths(nodes: &[GraphNode]) -> Vec<usize> {
    nodes.iter().map(|n| n.depth).collect()
}

#[test]
fn depth_is_the_shortest_distance_from_a_root() {
    let mut nodes = vec![node("r", 9), node("a", 9), node("b", 9), node("c", 9)];
    let edges = vec![edge("r", "a"), edge("a", "b"), edge("b", "c"), edge("r", "c")];
    compute_depths(&mut nodes, &edges);
    assert_eq!(depths(&nodes), vec![0, 1, 2, 1]);
    assert_eq!(nodes[1].label, "task a");
}

#[test]
fn several_roots_and_unreached_cycles() {
    let mut nodes = vec![node("x", 7), node("y", 7), node("p", 7), node("q", 7), node("z", 7)];
    let edges = vec![edge("x", "z"), edge("y", "z"), edge("p", "q"), edge("q", "p")];
    compute_depths(&mut nodes, &edges);
    // p and q only reach each other: no root leads there
    assert_eq!(depths(&nodes), vec![0, 0, 7, 7, 1]);
}

#[test]
fn only_the_first_node_with_an_id_is_placed() {
    let mut nodes = vec![node("r", 5), node("a", 5), node("a", 5)];
    let edges = vec![edge("r", "a"), edge("a", "ghost"), edge("ghost", "a")];
    compute_depths(&mut nodes, &edges);
    assert_eq!(depths(&nodes), vec![0, 1, 5]);
}

#[test]
fn empty_graph_is_left_alone() {
    let mut nodes: Vec<GraphNode> = Vec::new();
    compute_depths(&mut nodes, &[]);
    assert!(nodes.is_empty());
}

fn task(label: &str, files: &[&str]) -> TaskFiles {
    TaskFiles { label: label.to_string(), write_files: files.iter().map(|f| f.to_string()).collect() }
}

#[test]
fn conflicts_list_each_shared_file_per_pair() {
    let tasks = vec![
        task("A", &["src/a.rs", "src/shared.rs"]),
        task("B", &["src/shared.rs", "src/b.rs"]),
        task("C", &["src/b.rs", "src/a.rs"]),
    ];
    let c = write_conflicts(&tasks);
    let got: Vec<(String, String, String)> =
        c.iter().map(|x| (x.file_path.clone(), x.agent_a.clone(), x.agent_b.clone())).collect();
    assert_eq!(
        got,
        vec![
            ("src/shared.rs".to_string(), "A".to_string(), "B".to_string()),
            ("src/a.rs".to_string(), "A".to_string(), "C".to_string()),
            ("src/b.rs".to_string(), "B".to_string(), "C".to_string()),
        ]
    );
    assert!(write_conflicts(&[task("solo", &["x"])]).is_empty());
}
