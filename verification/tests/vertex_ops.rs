use rgraph::{Edge, Vertex};

fn edges(vertex: &Vertex<u32, &'static str, i64>) -> Vec<(u32, Option<i64>)> {
    let mut seen = Vec::new();
    let mut walk = vertex.edges_iter();
    while let Some((to_key, value)) = walk.next() {
        seen.push((*to_key, value.copied()));
    }
    seen
}

#[test]
fn new_vertex_has_no_label_and_no_edge() {
    let vertex: Vertex<u32, &str, i64> = Vertex::new(1);
    assert_eq!(vertex.get_label(), None);
    assert_eq!(edges(&vertex), vec![]);
    assert!(!vertex.edge_exist(&1));
}

#[test]
fn new_with_opt_and_new_with_label_keep_the_label() {
    let plain: Vertex<u32, &str, i64> = Vertex::new_with_opt(1, None);
    let named: Vertex<u32, &str, i64> = Vertex::new_with_opt(1, Some("one"));
    let same: Vertex<u32, &str, i64> = Vertex::new_with_label(1, "one");
    assert_eq!(plain.get_label(), None);
    assert_eq!(named.get_label(), Some(&"one"));
    assert_eq!(named, same);
    assert_eq!(plain, Vertex::new(1));
    assert_ne!(plain, named);
}

#[test]
fn new_with_edges_keeps_the_order_given() {
    let vertex: Vertex<u32, &str, i64> = Vertex::new_with_edges(
        1,
        vec![
            Box::new(Edge::new(4)),
            Box::new(Edge::new_with_value(2, -2)),
            Box::new(Edge::new_with_opt(3, Some(3))),
            Box::new(Edge::new_with_opt(5, None)),
        ],
    );
    assert_eq!(vertex.get_label(), None);
    assert_eq!(edges(&vertex), vec![(4, None), (2, Some(-2)), (3, Some(3)), (5, None)]);
    assert!(vertex.edge_exist(&3));
    assert!(!vertex.edge_exist(&1));
}

#[test]
fn new_with_edges_of_nothing_has_no_edge() {
    let vertex: Vertex<u32, &str, i64> = Vertex::new_with_edges(1, Vec::new());
    assert_eq!(edges(&vertex), vec![]);
    assert_eq!(vertex, Vertex::new(1));
}

#[test]
fn new_with_edges_does_not_look_for_duplicates() {
    let vertex: Vertex<u32, &str, i64> = Vertex::new_with_edges(
        1,
        vec![Box::new(Edge::new_with_value(2, 1)), Box::new(Edge::new_with_value(2, 2))],
    );
    assert_eq!(edges(&vertex), vec![(2, Some(1)), (2, Some(2))]);
}

#[test]
fn new_with_label_edges_keeps_label_and_order() {
    let vertex: Vertex<u32, &str, i64> = Vertex::new_with_label_edges(
        1,
        "one",
        vec![Box::new(Edge::new_with_value(2, 20)), Box::new(Edge::new(3))],
    );
    assert_eq!(vertex.get_label(), Some(&"one"));
    assert_eq!(edges(&vertex), vec![(2, Some(20)), (3, None)]);
}

#[test]
fn vertex_label_can_be_set_and_removed() {
    let mut vertex: Vertex<u32, &str, i64> = Vertex::new(1);
    vertex.set_label("one");
    assert_eq!(vertex.get_label(), Some(&"one"));
    vertex.set_label("uno");
    assert_eq!(vertex.get_label(), Some(&"uno"));
    vertex.remove_label();
    assert_eq!(vertex.get_label(), None);
    vertex.remove_label();
    assert_eq!(vertex.get_label(), None);
    assert_eq!(vertex, Vertex::new(1));
}

#[test]
fn add_edge_appends_and_refuses_duplicates() {
    let mut vertex: Vertex<u32, &str, i64> = Vertex::new(1);
    assert!(vertex.add_edge(2));
    assert!(vertex.add_edge_v(3, 30));
    assert!(vertex.add_edge_opt_v(4, Some(40)));
    assert!(vertex.add_edge_opt_v(5, None));
    assert!(!vertex.add_edge(2));
    assert!(!vertex.add_edge_v(2, 1));
    assert!(!vertex.add_edge_opt_v(3, None));
    assert!(!vertex.add_edge_opt_v(5, Some(1)));
    assert_eq!(edges(&vertex), vec![(2, None), (3, Some(30)), (4, Some(40)), (5, None)]);
    assert!(vertex.edge_exist(&2));
    assert!(vertex.edge_exist(&5));
    assert!(!vertex.edge_exist(&6));
}

#[test]
fn vertex_remove_edge_at_head_middle_and_end() {
    let mut vertex: Vertex<u32, &str, i64> = Vertex::new(1);
    for key in [2, 3, 4, 5] {
        assert!(vertex.add_edge_v(key, key as i64));
    }
    assert!(vertex.remove_edge(2));
    assert_eq!(edges(&vertex), vec![(3, Some(3)), (4, Some(4)), (5, Some(5))]);
    assert!(vertex.remove_edge(4));
    assert_eq!(edges(&vertex), vec![(3, Some(3)), (5, Some(5))]);
    assert!(vertex.remove_edge(5));
    assert_eq!(edges(&vertex), vec![(3, Some(3))]);
    assert!(!vertex.remove_edge(5));
    assert!(!vertex.remove_edge(2));
    assert_eq!(edges(&vertex), vec![(3, Some(3))]);
    assert!(vertex.remove_edge(3));
    assert_eq!(edges(&vertex), vec![]);
    assert!(!vertex.remove_edge(3));
    assert!(vertex.add_edge(3));
    assert_eq!(edges(&vertex), vec![(3, None)]);
}

#[test]
fn edge_value_can_be_set_and_removed() {
    let mut vertex: Vertex<u32, &str, i64> = Vertex::new(1);
    assert!(vertex.add_edge(2));
    assert!(vertex.add_edge_v(3, 30));
    assert!(vertex.set_edge_value(2, 20));
    assert!(vertex.set_edge_value_opt(3, None));
    assert_eq!(edges(&vertex), vec![(2, Some(20)), (3, None)]);
    assert!(vertex.set_edge_value_opt(3, Some(33)));
    assert!(vertex.remove_edge_value(2));
    assert_eq!(edges(&vertex), vec![(2, None), (3, Some(33))]);
    assert!(vertex.remove_edge_value(2));
    assert_eq!(edges(&vertex), vec![(2, None), (3, Some(33))]);
}

#[test]
fn vertex_edge_value_changes_need_the_edge() {
    let mut vertex: Vertex<u32, &str, i64> = Vertex::new(1);
    assert!(vertex.add_edge_v(2, 20));
    assert!(!vertex.set_edge_value(3, 30));
    assert!(!vertex.set_edge_value_opt(3, Some(30)));
    assert!(!vertex.set_edge_value_opt(3, None));
    assert!(!vertex.remove_edge_value(3));
    assert_eq!(edges(&vertex), vec![(2, Some(20))]);
}

#[test]
fn edge_walk_ends_and_stays_ended() {
    let mut vertex: Vertex<u32, &str, i64> = Vertex::new(1);
    assert!(vertex.add_edge_v(2, 20));
    let mut walk = vertex.edges_iter();
    assert_eq!(walk.next(), Some((&2, Some(&20))));
    assert_eq!(walk.next(), None);
    assert_eq!(walk.next(), None);
    let mut again = vertex.edges_iter();
    assert_eq!(again.next(), Some((&2, Some(&20))));
}

#[test]
fn edge_walk_and_search_agree() {
    let mut vertex: Vertex<u32, &str, i64> = Vertex::new(1);
    for key in [7, 5, 9] {
        assert!(vertex.add_edge(key));
    }
    let seen = edges(&vertex);
    assert_eq!(seen, vec![(7, None), (5, None), (9, None)]);
    for (key, _) in seen {
        assert!(vertex.edge_exist(&key));
    }
}

#[test]
fn edges_compare_by_target_and_value() {
    let plain: Edge<u32, i64> = Edge::new(2);
    assert_eq!(plain, Edge::new_with_opt(2, None));
    assert_ne!(plain, Edge::new_with_value(2, 0));
    assert_ne!(plain, Edge::new(3));
    assert_eq!(Edge::<u32, i64>::new_with_value(2, 5), Edge::new_with_opt(2, Some(5)));
    assert_eq!(plain.clone(), plain);
}
