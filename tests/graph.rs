use fib_circuit::graph::{Edge, Graph, Node};

#[test]
fn graph_test() {
    let g: Graph<String> = Graph::new();
    println!("{:?}", g);
}

#[test]
fn empty_graph_has_no_nodes() {
    let g: Graph<String> = Graph::new();
    assert_eq!(g.is_empty(), 0);
    assert!(g.matrix.is_empty());
    let mut h: Graph<u32> = Graph::new();
    h.node.insert(3, Some(7));
    h.node.insert(5, None);
    assert_eq!(h.is_empty(), 2);
}

#[test]
fn node_properties_set_and_replace() {
    let mut n = Node::new(1, "a".to_string());
    assert_eq!(n.get_property("color"), None);
    n.add_property("color".to_string(), "red".to_string());
    n.add_property("size".to_string(), "3".to_string());
    assert_eq!(n.get_property("color"), Some("red"));
    n.add_property("color".to_string(), "blue".to_string());
    assert_eq!(n.get_property("color"), Some("blue"));
    assert_eq!(n.get_property("size"), Some("3"));
    assert_eq!(n.node_property.len(), 2);
    assert_eq!(n.node_id, 1);
    assert_eq!(n.node_name, "a");
}

#[test]
fn edge_new_keeps_endpoints() {
    let e = Edge::new(4, "knows".to_string(), 1, 2);
    assert_eq!(e.edge_id, 4);
    assert_eq!(e.edge_name, "knows");
    assert_eq!(e.from_node_id, 1);
    assert_eq!(e.to_node_id, 2);
    assert!(e.edge_property.is_empty());
}
