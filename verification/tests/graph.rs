use sentinelx::graph::{EdgeType, GraphNode, InMemoryGraph};
use sentinelx::value::DataMap;

fn make_node(id: &str, label: &str, node_type: &str) -> GraphNode {
    GraphNode {
        id: id.to_string(),
        label: label.to_string(),
        node_type: node_type.to_string(),
        properties: DataMap::new(),
    }
}

#[test]
fn test_add_node_and_edge() {
    let mut graph = InMemoryGraph::new();
    graph.add_node(make_node("p1", "Process 1", "process"));
    graph.add_node(make_node("f1", "File 1", "file"));
    graph.connect("p1", "f1", EdgeType::Modified);
    assert_eq!(graph.node_count(), 2);
    assert_eq!(graph.edge_count(), 1);
}

#[test]
fn test_get_neighbors() {
    let mut graph = InMemoryGraph::new();
    graph.add_node(make_node("p1", "Process", "process"));
    graph.add_node(make_node("f1", "File", "file"));
    graph.add_node(make_node("m1", "Module", "module"));
    graph.connect("p1", "f1", EdgeType::Modified);
    graph.connect("p1", "m1", EdgeType::Loaded);
    let neighbors = graph.get_neighbors("p1");
    assert_eq!(neighbors.len(), 2);
}

#[test]
fn test_find_paths() {
    let mut graph = InMemoryGraph::new();
    graph.add_node(make_node("p1", "Process", "process"));
    graph.add_node(make_node("f1", "File", "file"));
    graph.add_node(make_node("m1", "Module", "module"));
    graph.connect("p1", "f1", EdgeType::Modified);
    graph.connect("f1", "m1", EdgeType::Loaded);
    let paths = graph.find_paths("p1", "m1", 5);
    assert!(!paths.is_empty());
    assert_eq!(paths[0].nodes.len(), 3);
    assert_eq!(paths[0].edges.len(), 2);
}

#[test]
fn test_find_paths_max_depth() {
    let mut graph = InMemoryGraph::new();
    graph.add_node(make_node("p1", "A", "process"));
    graph.add_node(make_node("p2", "B", "process"));
    graph.add_node(make_node("p3", "C", "process"));
    graph.connect("p1", "p2", EdgeType::Spawned);
    graph.connect("p2", "p3", EdgeType::Spawned);
    let paths = graph.find_paths("p1", "p3", 1);
    assert!(paths.is_empty());
    assert_eq!(graph.find_paths("p1", "p3", 2).len(), 1);
}

#[test]
fn test_get_edges_from_and_to() {
    let mut graph = InMemoryGraph::new();
    graph.add_node(make_node("p1", "Process", "process"));
    graph.add_node(make_node("f1", "File", "file"));
    graph.connect("p1", "f1", EdgeType::Modified);
    let from = graph.get_edges_from("p1");
    assert_eq!(from.len(), 1);
    let to = graph.get_edges_to("f1");
    assert_eq!(to.len(), 1);
    assert!(graph.get_edges_to("p1").is_empty());
}

#[test]
fn graph_test_clear() {
    let mut graph = InMemoryGraph::new();
    graph.add_node(make_node("p1", "Process", "process"));
    graph.connect("p1", "p1", EdgeType::Modified);
    graph.clear();
    assert_eq!(graph.node_count(), 0);
    assert_eq!(graph.edge_count(), 0);
}

#[test]
fn same_id_node_is_replaced() {
    let mut graph = InMemoryGraph::new();
    graph.add_node(make_node("p1", "old", "process"));
    graph.add_node(make_node("p1", "new", "process"));
    assert_eq!(graph.node_count(), 1);
    assert_eq!(graph.get_node("p1").unwrap().label, "new");
    assert!(graph.get_node("p2").is_none());
}

#[test]
fn path_to_self_and_cycles() {
    let mut graph = InMemoryGraph::new();
    graph.add_node(make_node("a", "A", "process"));
    graph.add_node(make_node("b", "B", "process"));
    graph.connect("a", "b", EdgeType::Spawned);
    graph.connect("b", "a", EdgeType::Spawned);
    let paths = graph.find_paths("a", "a", 4);
    assert_eq!(paths.len(), 1);
    assert_eq!(paths[0].nodes, vec!["a".to_string()]);
    assert!(graph.find_cycles(4).is_empty());
}

#[test]
fn edge_type_names() {
    assert_eq!(EdgeType::Spawned.as_str(), "spawned");
    assert_eq!(EdgeType::Inherits.as_str(), "inherits");
}

#[test]
fn find_paths_finds_every_simple_path() {
    let mut graph = InMemoryGraph::new();
    for id in ["a", "b", "c", "d"] {
        graph.add_node(make_node(id, id, "process"));
    }
    graph.connect("a", "b", EdgeType::Spawned);
    graph.connect("a", "c", EdgeType::Spawned);
    graph.connect("b", "d", EdgeType::Spawned);
    graph.connect("c", "d", EdgeType::Spawned);
    graph.connect("b", "c", EdgeType::Spawned);
    graph.connect("d", "a", EdgeType::Spawned);
    let mut found: Vec<Vec<String>> = graph.find_paths("a", "d", 5).into_iter().map(|p| p.nodes).collect();
    found.sort();
    let expected: Vec<Vec<String>> = vec![
        vec!["a".to_string(), "b".to_string(), "c".to_string(), "d".to_string()],
        vec!["a".to_string(), "b".to_string(), "d".to_string()],
        vec!["a".to_string(), "c".to_string(), "d".to_string()],
    ];
    assert_eq!(found, expected);
    assert_eq!(graph.find_paths("a", "d", 2).len(), 2);
}

#[test]
fn find_paths_lists_each_path_once() {
    let mut graph = InMemoryGraph::new();
    for id in ["a", "b", "c"] {
        graph.add_node(make_node(id, id, "process"));
    }
    graph.connect("a", "b", EdgeType::Spawned);
    graph.connect("a", "b", EdgeType::Modified);
    graph.connect("b", "c", EdgeType::Spawned);
    graph.connect("a", "c", EdgeType::Spawned);
    let paths = graph.find_paths("a", "c", 3);
    assert_eq!(paths.len(), 3);
    for i in 0..paths.len() {
        for j in 0..paths.len() {
            if i != j {
                assert!(paths[i].nodes != paths[j].nodes || paths[i].edges != paths[j].edges);
            }
        }
    }
}
