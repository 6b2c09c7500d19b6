use rdf_editor::models::GraphEdge;
use rdf_editor::traverse::bfs_expand;
use rdf_editor::traverse::collect_connections;
use rdf_editor::traverse::collect_node_info;
use rdf_editor::traverse::collect_search_nodes;
use rdf_editor::traverse::reconstruct_path;
use rdf_editor::models::NodeType;

fn edge(source: &str, target: &str, predicate: &str) -> GraphEdge {
    GraphEdge {
        source: source.to_string(),
        target: target.to_string(),
        predicate: predicate.to_string(),
        label: None,
    }
}

#[test]
fn connections_skip_type_edges_and_dedup_nodes() {
    let uri = "http://a".to_string();
    let outgoing = vec![
        ("http://p".to_string(), "http://b".to_string()),
        (
            "http://www.w3.org/1999/02/22-rdf-syntax-ns#type".to_string(),
            "http://Class".to_string(),
        ),
        ("http://q".to_string(), "http://b".to_string()),
    ];
    let incoming = vec![("http://c".to_string(), "http://r".to_string())];
    let (nodes, edges) = collect_connections(&outgoing, &incoming, &uri);

    // "http://b" appears once despite two edges to it; the type edge is gone.
    let uris: Vec<&str> = nodes.iter().map(|n| n.uri.as_str()).collect();
    assert_eq!(uris, vec!["http://b", "http://c"]);
    assert_eq!(edges.len(), 3);
    assert_eq!(edges[0].source, "http://a");
    assert_eq!(edges[0].target, "http://b");
    assert_eq!(edges[0].label.as_deref(), Some("p"));
    assert_eq!(edges[2].source, "http://c");
    assert_eq!(edges[2].target, "http://a");
}

#[test]
fn node_info_merges_types_and_labels() {
    let uri = "http://a".to_string();
    let rows = vec![
        (
            Some("http://www.w3.org/2002/07/owl#Class".to_string()),
            Some("Hallo".to_string()),
            Some("de".to_string()),
        ),
        (
            Some("http://www.w3.org/2002/07/owl#Class".to_string()),
            Some("Hello".to_string()),
            Some("en".to_string()),
        ),
        (Some("http://other".to_string()), None, None),
    ];
    let node = collect_node_info(&uri, &rows);
    assert_eq!(node.uri, "http://a");
    assert_eq!(
        node.types,
        vec!["http://www.w3.org/2002/07/owl#Class".to_string(), "http://other".to_string()]
    );
    assert_eq!(node.label.as_deref(), Some("Hello")); // English preferred
    assert_eq!(node.node_type, NodeType::Class);
}

#[test]
fn search_nodes_merge_rows_per_resource() {
    let rows = vec![
        ("http://a".to_string(), Some("A".to_string()), None),
        (
            "http://b".to_string(),
            Some("B".to_string()),
            Some("http://www.w3.org/2002/07/owl#ObjectProperty".to_string()),
        ),
        ("http://a".to_string(), Some("A2".to_string()), Some("http://T".to_string())),
    ];
    let nodes = collect_search_nodes(&rows);
    assert_eq!(nodes.len(), 2);
    assert_eq!(nodes[0].uri, "http://a");
    assert_eq!(nodes[0].label.as_deref(), Some("A")); // first label wins
    assert_eq!(nodes[0].types, vec!["http://T".to_string()]);
    assert_eq!(nodes[0].node_type, NodeType::Instance);
    assert_eq!(nodes[1].uri, "http://b");
    assert_eq!(nodes[1].node_type, NodeType::Property);
}

#[test]
fn bfs_visits_each_neighbour_once() {
    let mut visited = vec!["a".to_string()];
    let mut queue = vec![("a".to_string(), 0usize)];
    let mut parents: Vec<(String, String, String)> = Vec::new();
    let edges = vec![edge("a", "b", "p"), edge("c", "a", "q"), edge("a", "b", "r")];
    bfs_expand(&mut visited, &mut queue, &mut parents, &edges, &"a".to_string(), 0);
    assert_eq!(visited, vec!["a".to_string(), "b".to_string(), "c".to_string()]);
    assert_eq!(queue.len(), 3);
    assert_eq!(queue[1], ("b".to_string(), 1));
    assert_eq!(queue[2], ("c".to_string(), 1));
    // Only the first edge to "b" records a parent.
    assert_eq!(parents.len(), 2);
    assert_eq!(parents[0], ("b".to_string(), "a".to_string(), "p".to_string()));
}

#[test]
fn paths_are_rebuilt_start_to_end() {
    // a -> b -> c, recorded during a search from "a".
    let parents = vec![
        ("b".to_string(), "a".to_string(), "p".to_string()),
        ("c".to_string(), "b".to_string(), "q".to_string()),
    ];
    let path = reconstruct_path(&parents, &"c".to_string()).unwrap();
    assert_eq!(path.nodes, vec!["a".to_string(), "b".to_string(), "c".to_string()]);
    assert_eq!(path.length, 2);
    assert_eq!(path.edges[0].source, "a");
    assert_eq!(path.edges[0].target, "b");
    assert_eq!(path.edges[1].predicate, "q");

    // Circular parent records yield nothing instead of looping.
    let cyclic = vec![
        ("x".to_string(), "y".to_string(), "p".to_string()),
        ("y".to_string(), "x".to_string(), "p".to_string()),
    ];
    assert_eq!(reconstruct_path(&cyclic, &"x".to_string()).map(|p| p.length), None);
}
