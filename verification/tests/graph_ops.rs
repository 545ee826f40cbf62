use rgraph::{Edge, Graph, Vertex};

fn keys_and_labels(graph: &Graph<String, String, u32>) -> Vec<(String, Option<String>)> {
    let mut seen = Vec::new();
    let mut walk = graph.vertices_iter();
    while let Some((key, label)) = walk.next() {
        seen.push((key.clone(), label.cloned()));
    }
    seen
}

fn edges_from(graph: &Graph<String, String, u32>, key: &str) -> Vec<(String, Option<u32>)> {
    let mut seen = Vec::new();
    if let Some(vertex) = graph.get_vertex(key.to_string()) {
        let mut walk = vertex.edges_iter();
        while let Some((to_key, value)) = walk.next() {
            seen.push((to_key.clone(), value.copied()));
        }
    }
    seen
}

fn s(text: &str) -> String {
    text.to_string()
}

fn abc() -> Graph<String, String, u32> {
    let mut graph = Graph::new();
    assert!(graph.add_vertex(s("a")));
    assert!(graph.add_vertex_l(s("b"), s("second")));
    assert!(graph.add_vertex_opt_l(s("c"), None));
    graph
}

#[test]
fn new_graph_is_empty_and_directed() {
    let graph: Graph<String, String, u32> = Graph::new();
    assert_eq!(graph.len(), 0);
    assert!(graph.is_empty());
    assert!(graph.is_directed());
    assert_eq!(keys_and_labels(&graph), vec![]);
    assert!(!graph.vertex_exist(&s("a")));
    assert!(graph.get_vertex(s("a")).is_none());
}

#[test]
fn vertices_come_out_in_insertion_order() {
    let graph = abc();
    assert_eq!(graph.len(), 3);
    assert!(!graph.is_empty());
    assert_eq!(
        keys_and_labels(&graph),
        vec![(s("a"), None), (s("b"), Some(s("second"))), (s("c"), None)]
    );
}

#[test]
fn add_vertex_opt_l_keeps_the_label() {
    let mut graph: Graph<String, String, u32> = Graph::new();
    assert!(graph.add_vertex_opt_l(s("a"), Some(s("first"))));
    assert!(!graph.add_vertex_opt_l(s("a"), Some(s("again"))));
    assert!(!graph.add_vertex_l(s("a"), s("again")));
    assert_eq!(graph.get_vertex_label(s("a")), Some(&s("first")));
    assert_eq!(graph.len(), 1);
}

#[test]
fn count_follows_additions_and_removals() {
    let mut graph = abc();
    assert_eq!(graph.len(), keys_and_labels(&graph).len());
    assert!(graph.remove_vertex(s("b")));
    assert_eq!(graph.len(), 2);
    assert_eq!(graph.len(), keys_and_labels(&graph).len());
    assert!(!graph.remove_vertex(s("b")));
    assert_eq!(graph.len(), 2);
    assert!(graph.add_vertex(s("d")));
    assert_eq!(graph.len(), 3);
    assert!(graph.remove_vertex(s("a")));
    assert!(graph.remove_vertex(s("c")));
    assert!(graph.remove_vertex(s("d")));
    assert_eq!(graph.len(), 0);
    assert!(graph.is_empty());
    assert_eq!(keys_and_labels(&graph), vec![]);
}

#[test]
fn remove_vertex_at_the_head() {
    let mut graph = abc();
    assert!(graph.remove_vertex(s("a")));
    assert!(!graph.vertex_exist(&s("a")));
    assert_eq!(keys_and_labels(&graph), vec![(s("b"), Some(s("second"))), (s("c"), None)]);
    assert_eq!(graph.len(), 2);
}

#[test]
fn remove_vertex_in_the_middle_and_at_the_end() {
    let mut graph = abc();
    assert!(graph.remove_vertex(s("b")));
    assert_eq!(keys_and_labels(&graph), vec![(s("a"), None), (s("c"), None)]);
    assert!(graph.remove_vertex(s("c")));
    assert_eq!(keys_and_labels(&graph), vec![(s("a"), None)]);
    assert_eq!(graph.len(), 1);
}

#[test]
fn remove_only_vertex() {
    let mut graph: Graph<String, String, u32> = Graph::new();
    assert!(graph.add_vertex(s("a")));
    assert!(graph.remove_vertex(s("a")));
    assert!(graph.is_empty());
    assert!(!graph.vertex_exist(&s("a")));
    assert!(graph.add_vertex(s("a")));
    assert_eq!(graph.len(), 1);
}

#[test]
fn remove_vertex_drops_edges_at_head_and_behind() {
    let mut graph = abc();
    assert!(graph.add_edge(s("a"), s("b")));
    assert!(graph.add_edge(s("a"), s("c")));
    assert!(graph.add_edge(s("c"), s("a")));
    assert!(graph.add_edge(s("c"), s("b")));
    assert!(graph.add_edge(s("b"), s("b")));
    assert!(graph.remove_vertex(s("b")));
    assert_eq!(edges_from(&graph, "a"), vec![(s("c"), None)]);
    assert_eq!(edges_from(&graph, "c"), vec![(s("a"), None)]);
    assert!(!graph.edge_exist(s("a"), s("b")));
    assert!(!graph.edge_exist(s("c"), s("b")));
    assert!(!graph.edge_exist(s("b"), s("b")));
    assert!(graph.edge_exist(s("a"), s("c")));
}

#[test]
fn add_edge_needs_both_vertices() {
    let mut graph = abc();
    assert!(!graph.add_edge(s("a"), s("x")));
    assert!(!graph.add_edge(s("x"), s("a")));
    assert!(!graph.add_edge_v(s("a"), s("x"), 1));
    assert!(!graph.add_edge_v(s("x"), s("a"), 1));
    assert!(!graph.add_edge_opt_v(s("a"), s("x"), Some(1)));
    assert!(!graph.add_edge_opt_v(s("x"), s("a"), None));
    assert!(!graph.add_edge_opt_v(s("x"), s("y"), None));
    assert_eq!(edges_from(&graph, "a"), vec![]);
    assert_eq!(graph, abc());
}

#[test]
fn add_edge_twice_is_refused() {
    let mut graph = abc();
    assert!(graph.add_edge_v(s("a"), s("b"), 7));
    assert!(!graph.add_edge(s("a"), s("b")));
    assert!(!graph.add_edge_v(s("a"), s("b"), 8));
    assert!(!graph.add_edge_opt_v(s("a"), s("b"), None));
    assert_eq!(edges_from(&graph, "a"), vec![(s("b"), Some(7))]);
}

#[test]
fn edges_come_out_in_insertion_order() {
    let mut graph = abc();
    assert!(graph.add_edge_opt_v(s("a"), s("c"), Some(3)));
    assert!(graph.add_edge(s("a"), s("a")));
    assert!(graph.add_edge_v(s("a"), s("b"), 2));
    assert_eq!(
        edges_from(&graph, "a"),
        vec![(s("c"), Some(3)), (s("a"), None), (s("b"), Some(2))]
    );
    assert_eq!(edges_from(&graph, "b"), vec![]);
}

#[test]
fn edge_values_can_be_set_and_cleared() {
    let mut graph = abc();
    assert!(graph.add_edge(s("a"), s("b")));
    assert!(graph.add_edge_v(s("a"), s("c"), 1));
    assert!(graph.set_edge_value(s("a"), s("b"), 5));
    assert!(graph.set_edge_value_opt(s("a"), s("c"), None));
    assert_eq!(edges_from(&graph, "a"), vec![(s("b"), Some(5)), (s("c"), None)]);
    assert!(graph.set_edge_value_opt(s("a"), s("c"), Some(9)));
    assert!(graph.remove_edge_value(s("a"), s("b")));
    assert_eq!(edges_from(&graph, "a"), vec![(s("b"), None), (s("c"), Some(9))]);
}

#[test]
fn edge_value_changes_need_the_edge() {
    let mut graph = abc();
    assert!(graph.add_edge(s("a"), s("b")));
    let before = graph.clone();
    assert!(!graph.set_edge_value(s("b"), s("a"), 5));
    assert!(!graph.set_edge_value_opt(s("a"), s("c"), Some(5)));
    assert!(!graph.remove_edge_value(s("a"), s("c")));
    assert!(!graph.set_edge_value(s("a"), s("x"), 5));
    assert!(!graph.set_edge_value(s("x"), s("b"), 5));
    assert!(!graph.remove_edge_value(s("x"), s("b")));
    assert_eq!(graph, before);
}

#[test]
fn clearing_a_missing_value_changes_nothing() {
    let mut graph = abc();
    assert!(graph.add_edge(s("a"), s("b")));
    let before = graph.clone();
    assert!(graph.remove_edge_value(s("a"), s("b")));
    assert_eq!(graph, before);
    assert!(!graph.remove_edge_value(s("a"), s("c")));
    assert_eq!(graph, before);
}

#[test]
fn clearing_a_missing_label_changes_nothing() {
    let mut graph = abc();
    let before = graph.clone();
    assert!(graph.remove_vertex_label(s("a")));
    assert_eq!(graph, before);
    assert!(!graph.remove_vertex_label(s("x")));
    assert_eq!(graph, before);
}

#[test]
fn labels_can_be_set_and_cleared() {
    let mut graph = abc();
    assert!(graph.set_vertex_label(s("a"), s("one")));
    assert!(graph.set_vertex_label_opt(s("b"), None));
    assert!(graph.set_vertex_label_opt(s("c"), Some(s("three"))));
    assert!(!graph.set_vertex_label(s("x"), s("none")));
    assert!(!graph.set_vertex_label_opt(s("x"), None));
    assert_eq!(
        keys_and_labels(&graph),
        vec![(s("a"), Some(s("one"))), (s("b"), None), (s("c"), Some(s("three")))]
    );
    assert_eq!(graph.get_vertex_label(s("a")), Some(&s("one")));
    assert_eq!(graph.get_vertex_label(s("b")), None);
    assert_eq!(graph.get_vertex_label(s("x")), None);
    assert_eq!(graph.len(), 3);
}

#[test]
fn remove_edge_at_the_head() {
    let mut graph = abc();
    assert!(graph.add_edge_v(s("a"), s("b"), 1));
    assert!(graph.add_edge_v(s("a"), s("c"), 2));
    assert!(graph.remove_edge(s("a"), s("b")));
    assert_eq!(edges_from(&graph, "a"), vec![(s("c"), Some(2))]);
    assert!(!graph.edge_exist(s("a"), s("b")));
}

#[test]
fn remove_edge_behind_the_head() {
    let mut graph = abc();
    assert!(graph.add_edge_v(s("a"), s("b"), 1));
    assert!(graph.add_edge_v(s("a"), s("c"), 2));
    assert!(graph.add_edge_v(s("a"), s("a"), 3));
    assert!(graph.remove_edge(s("a"), s("c")));
    assert_eq!(edges_from(&graph, "a"), vec![(s("b"), Some(1)), (s("a"), Some(3))]);
    assert!(graph.remove_edge(s("a"), s("a")));
    assert_eq!(edges_from(&graph, "a"), vec![(s("b"), Some(1))]);
    assert!(graph.remove_edge(s("a"), s("b")));
    assert_eq!(edges_from(&graph, "a"), vec![]);
}

#[test]
fn remove_edge_needs_vertices_and_edge() {
    let mut graph = abc();
    assert!(graph.add_edge(s("a"), s("b")));
    let before = graph.clone();
    assert!(!graph.remove_edge(s("b"), s("a")));
    assert!(!graph.remove_edge(s("a"), s("c")));
    assert!(!graph.remove_edge(s("a"), s("x")));
    assert!(!graph.remove_edge(s("x"), s("b")));
    assert_eq!(graph, before);
    assert!(graph.remove_edge(s("a"), s("b")));
    assert!(!graph.remove_edge(s("a"), s("b")));
}

#[test]
fn adjacent_needs_both_vertices() {
    let mut graph = abc();
    assert!(graph.add_edge(s("a"), s("b")));
    assert!(graph.adjacent(s("a"), s("b")));
    assert!(!graph.adjacent(s("b"), s("a")));
    assert!(!graph.adjacent(s("a"), s("c")));
    assert!(!graph.adjacent(s("a"), s("x")));
    assert!(!graph.adjacent(s("x"), s("a")));
    assert!(!graph.edge_exist(s("x"), s("a")));
    assert!(!graph.edge_exist(s("a"), s("x")));
}

#[test]
fn clear_empties_the_graph() {
    let mut graph = abc();
    assert!(graph.add_edge(s("a"), s("b")));
    graph.clear();
    assert_eq!(graph.len(), 0);
    assert!(graph.is_empty());
    assert!(graph.is_directed());
    assert_eq!(keys_and_labels(&graph), vec![]);
    assert!(!graph.vertex_exist(&s("a")));
    assert!(graph.add_vertex(s("a")));
    assert_eq!(edges_from(&graph, "a"), vec![]);
}

#[test]
fn get_vertex_finds_the_vertex() {
    let mut graph = abc();
    assert!(graph.add_edge_v(s("b"), s("a"), 4));
    let vertex = graph.get_vertex(s("b")).unwrap();
    assert_eq!(vertex.get_label(), Some(&s("second")));
    assert!(vertex.edge_exist(&s("a")));
    assert!(!vertex.edge_exist(&s("c")));
    assert!(graph.get_vertex(s("x")).is_none());
}

#[test]
fn get_vertex_mut_changes_the_vertex_in_place() {
    let mut graph = abc();
    {
        let vertex = graph.get_vertex_mut(s("b")).unwrap();
        vertex.set_label(s("changed"));
        assert!(vertex.add_edge_v(s("c"), 6));
    }
    assert_eq!(graph.get_vertex_label(s("b")), Some(&s("changed")));
    assert_eq!(edges_from(&graph, "b"), vec![(s("c"), Some(6))]);
    assert_eq!(graph.len(), 3);
    assert!(graph.get_vertex_mut(s("x")).is_none());
    assert_eq!(
        keys_and_labels(&graph),
        vec![(s("a"), None), (s("b"), Some(s("changed"))), (s("c"), None)]
    );
}

#[test]
fn new_with_vertices_keeps_order_and_counts() {
    let vertices: Vec<Box<Vertex<String, String, u32>>> = vec![
        Box::new(Vertex::new_with_edges(s("a"), vec![Box::new(Edge::new_with_value(s("b"), 1))])),
        Box::new(Vertex::new_with_label(s("b"), s("second"))),
        Box::new(Vertex::new(s("c"))),
    ];
    let mut graph = Graph::new_with_vertices(vertices);
    assert_eq!(graph.len(), 3);
    assert!(graph.is_directed());
    assert_eq!(
        keys_and_labels(&graph),
        vec![(s("a"), None), (s("b"), Some(s("second"))), (s("c"), None)]
    );
    assert!(graph.edge_exist(s("a"), s("b")));
    assert!(!graph.add_vertex(s("b")));
    assert!(graph.add_vertex(s("d")));
    assert_eq!(graph.len(), 4);
}

#[test]
fn new_with_vertices_of_nothing_is_empty() {
    let mut graph: Graph<String, String, u32> = Graph::new_with_vertices(Vec::new());
    assert_eq!(graph.len(), 0);
    assert!(graph.is_empty());
    assert_eq!(graph, Graph::new());
    assert!(graph.add_vertex(s("a")));
    assert_eq!(graph.len(), 1);
}

#[test]
fn new_with_vertices_takes_what_follows_a_vertex() {
    let graph = abc();
    let chain = graph.get_vertex(s("b")).unwrap().clone();
    let rebuilt = Graph::new_with_vertices(vec![Box::new(Vertex::new(s("z"))), chain]);
    assert_eq!(rebuilt.len(), 3);
    assert_eq!(
        keys_and_labels(&rebuilt),
        vec![(s("z"), None), (s("b"), Some(s("second"))), (s("c"), None)]
    );
}

#[test]
fn walk_and_search_agree() {
    let mut graph = abc();
    assert!(graph.set_vertex_label(s("c"), s("third")));
    let seen = keys_and_labels(&graph);
    assert_eq!(seen.len(), graph.len());
    for (key, label) in seen {
        assert!(graph.vertex_exist(&key));
        assert_eq!(graph.get_vertex_label(key.clone()).cloned(), label);
        assert_eq!(graph.get_vertex(key.clone()).unwrap().get_label().cloned(), label);
    }
}

#[test]
fn walk_can_be_started_again() {
    let graph = abc();
    let mut walk = graph.vertices_iter();
    assert_eq!(walk.next().map(|(key, _)| key.clone()), Some(s("a")));
    assert_eq!(walk.next().map(|(key, _)| key.clone()), Some(s("b")));
    let mut again = graph.vertices_iter();
    assert_eq!(again.next().map(|(key, _)| key.clone()), Some(s("a")));
    assert_eq!(walk.next().map(|(key, _)| key.clone()), Some(s("c")));
    assert!(walk.next().is_none());
    assert!(walk.next().is_none());
}

#[test]
fn graphs_compare_by_what_they_hold() {
    let mut left = abc();
    let mut right = abc();
    assert_eq!(left, right);
    assert!(left.add_edge(s("a"), s("b")));
    assert_ne!(left, right);
    assert!(right.add_edge(s("a"), s("b")));
    assert_eq!(left, right);
    assert_eq!(left.clone(), right);
    assert_eq!(format!("{:?}", left), format!("{:?}", right));
}
