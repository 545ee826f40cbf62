//! Why the operations of a graph keep its vertices well formed: what each
//! change to the model does to the keys, the targets and the edges that might
//! hang.

use vstd::prelude::*;
use super::model::{
    distinct_targets, edge_index, edges_of, has_edge, has_vertex, lemma_edge_index,
    lemma_has_edge, lemma_has_vertex, lemma_vertex_index, vertex_index, well_formed,
    with_edge_value, with_edges, with_label, without_edge, without_edges_to, without_vertex,
    EdgeView, VertexView,
};

verus! {

/// A search by key looks at the keys alone.
pub proof fn lemma_vertex_index_by_keys<K, L, V>(
    a: Seq<VertexView<K, L, V>>,
    b: Seq<VertexView<K, L, V>>,
    key: K,
)
    requires
        a.len() == b.len(),
        forall|i: int| 0 <= i < a.len() ==> a[i].key == b[i].key,
    ensures
        vertex_index(a, key) == vertex_index(b, key),
    decreases a.len(),
{
    if a.len() > 0 {
        lemma_vertex_index_by_keys(a.drop_first(), b.drop_first(), key);
    }
}

/// A new vertex without edges, under a key that is not taken, keeps the
/// vertices well formed.
pub proof fn lemma_push_vertex_well_formed<K, L, V>(
    vertices: Seq<VertexView<K, L, V>>,
    vertex: VertexView<K, L, V>,
)
    requires
        well_formed(vertices),
        !has_vertex(vertices, vertex.key),
        vertex.edges.len() == 0,
    ensures
        well_formed(vertices.push(vertex)),
{
    let after = vertices.push(vertex);
    lemma_has_vertex(vertices, vertex.key);
    assert forall|i: int, j: int|
        #![trigger after[i].edges[j]]
        0 <= i < after.len() && 0 <= j < after[i].edges.len() implies has_vertex(
        after,
        after[i].edges[j].to_key,
    ) by {
        let target = after[i].edges[j].to_key;
        lemma_has_vertex(vertices, target);
        let at = choose|at: int|
            0 <= at < vertices.len() && (#[trigger] vertices[at]).key == target;
        assert(after[at].key == target);
        lemma_has_vertex(after, target);
    }
}

/// A change of label keeps the vertices well formed.
pub proof fn lemma_with_label_well_formed<K, L, V>(
    vertices: Seq<VertexView<K, L, V>>,
    key: K,
    label: Option<L>,
)
    requires
        well_formed(vertices),
    ensures
        well_formed(with_label(vertices, key, label)),
        with_label(vertices, key, label).len() == vertices.len(),
{
    let after = with_label(vertices, key, label);
    lemma_vertex_index(vertices, key);
    assert forall|i: int, j: int|
        #![trigger after[i].edges[j]]
        0 <= i < after.len() && 0 <= j < after[i].edges.len() implies has_vertex(
        after,
        after[i].edges[j].to_key,
    ) by {
        lemma_vertex_index_by_keys(vertices, after, after[i].edges[j].to_key);
    }
}

/// Other edges for one vertex keep the vertices well formed, where no two of
/// the new edges share a target and each leads to a key that some vertex has.
pub proof fn lemma_with_edges_well_formed<K, L, V>(
    vertices: Seq<VertexView<K, L, V>>,
    key: K,
    edges: Seq<EdgeView<K, V>>,
)
    requires
        well_formed(vertices),
        distinct_targets(edges),
        forall|j: int| 0 <= j < edges.len() ==> has_vertex(vertices, (#[trigger] edges[j]).to_key),
    ensures
        well_formed(with_edges(vertices, key, edges)),
        with_edges(vertices, key, edges).len() == vertices.len(),
{
    let after = with_edges(vertices, key, edges);
    lemma_vertex_index(vertices, key);
    assert forall|i: int, j: int|
        #![trigger after[i].edges[j]]
        0 <= i < after.len() && 0 <= j < after[i].edges.len() implies has_vertex(
        after,
        after[i].edges[j].to_key,
    ) by {
        lemma_vertex_index_by_keys(vertices, after, after[i].edges[j].to_key);
    }
}

/// A new edge to a key that no edge leads to yet keeps the targets distinct.
pub proof fn lemma_push_edge_distinct<K, V>(edges: Seq<EdgeView<K, V>>, edge: EdgeView<K, V>)
    requires
        distinct_targets(edges),
        !has_edge(edges, edge.to_key),
    ensures
        distinct_targets(edges.push(edge)),
{
    lemma_has_edge(edges, edge.to_key);
}

/// Another value for an edge leaves every edge where it was, with the target
/// it had.
pub proof fn lemma_with_edge_value_targets<K, V>(
    edges: Seq<EdgeView<K, V>>,
    key: K,
    value: Option<V>,
)
    ensures
        with_edge_value(edges, key, value).len() == edges.len(),
        forall|j: int|
            0 <= j < edges.len() ==> (#[trigger] with_edge_value(edges, key, value)[j]).to_key
                == edges[j].to_key,
        distinct_targets(edges) ==> distinct_targets(with_edge_value(edges, key, value)),
{
    lemma_edge_index(edges, key);
}

/// A new edge to a vertex that is there, and to which the vertex under
/// `from` has no edge yet, keeps the vertices well formed.
pub proof fn lemma_add_edge_well_formed<K, L, V>(
    vertices: Seq<VertexView<K, L, V>>,
    from: K,
    edge: EdgeView<K, V>,
)
    requires
        well_formed(vertices),
        has_vertex(vertices, edge.to_key),
        !has_edge(edges_of(vertices, from), edge.to_key),
    ensures
        well_formed(with_edges(vertices, from, edges_of(vertices, from).push(edge))),
        with_edges(vertices, from, edges_of(vertices, from).push(edge)).len() == vertices.len(),
{
    let before = edges_of(vertices, from);
    let after = before.push(edge);
    lemma_vertex_index(vertices, from);
    if let Some(i) = vertex_index(vertices, from) {
        lemma_push_edge_distinct(before, edge);
        lemma_with_edges_well_formed(vertices, from, after);
    }
}

/// Another value for an edge keeps the vertices well formed.
pub proof fn lemma_set_edge_value_well_formed<K, L, V>(
    vertices: Seq<VertexView<K, L, V>>,
    from: K,
    to: K,
    value: Option<V>,
)
    requires
        well_formed(vertices),
    ensures
        well_formed(
            with_edges(vertices, from, with_edge_value(edges_of(vertices, from), to, value)),
        ),
        with_edges(vertices, from, with_edge_value(edges_of(vertices, from), to, value)).len()
            == vertices.len(),
{
    let before = edges_of(vertices, from);
    let after = with_edge_value(before, to, value);
    lemma_vertex_index(vertices, from);
    if let Some(i) = vertex_index(vertices, from) {
        lemma_with_edge_value_targets(before, to, value);
        lemma_with_edges_well_formed(vertices, from, after);
    }
}

/// What is left of edges with distinct targets once the edge to `key` is
/// gone: edges with distinct targets, each of which was there before, and
/// none to `key`.
pub proof fn lemma_without_edge<K, V>(edges: Seq<EdgeView<K, V>>, key: K)
    requires
        distinct_targets(edges),
    ensures
        distinct_targets(without_edge(edges, key)),
        !has_edge(without_edge(edges, key), key),
        forall|j: int|
            0 <= j < without_edge(edges, key).len() ==> edges.contains(
                #[trigger] without_edge(edges, key)[j],
            ),
{
    let after = without_edge(edges, key);
    lemma_edge_index(edges, key);
    lemma_has_edge(after, key);
    if edge_index(edges, key) is Some {
        assert forall|j: int| 0 <= j < after.len() implies edges.contains(#[trigger] after[j]) by {}
        assert forall|a: int, b: int| 0 <= a < b < after.len() implies after[a].to_key
            != after[b].to_key by {}
        assert forall|j: int| 0 <= j < after.len() implies (#[trigger] after[j]).to_key
            != key by {}
    }
}

/// An edge less keeps the vertices well formed.
pub proof fn lemma_remove_edge_well_formed<K, L, V>(
    vertices: Seq<VertexView<K, L, V>>,
    from: K,
    to: K,
)
    requires
        well_formed(vertices),
    ensures
        well_formed(with_edges(vertices, from, without_edge(edges_of(vertices, from), to))),
        with_edges(vertices, from, without_edge(edges_of(vertices, from), to)).len()
            == vertices.len(),
{
    let before = edges_of(vertices, from);
    let after = without_edge(before, to);
    lemma_vertex_index(vertices, from);
    if let Some(i) = vertex_index(vertices, from) {
        lemma_without_edge(before, to);
        assert forall|j: int| 0 <= j < after.len() implies has_vertex(
            vertices,
            (#[trigger] after[j]).to_key,
        ) by {}
        lemma_with_edges_well_formed(vertices, from, after);
    }
}

/// Once the vertex under `key` is gone, and with it the edges that led to it,
/// the vertices are still well formed, none has the key, and none has an
/// edge to it.
pub proof fn lemma_remove_vertex_well_formed<K, L, V>(vertices: Seq<VertexView<K, L, V>>, key: K)
    requires
        well_formed(vertices),
    ensures
        well_formed(without_edges_to(without_vertex(vertices, key), key)),
        !has_vertex(without_edges_to(without_vertex(vertices, key), key), key),
        forall|i: int|
            0 <= i < without_edges_to(without_vertex(vertices, key), key).len() ==> !has_edge(
                (#[trigger] without_edges_to(without_vertex(vertices, key), key)[i]).edges,
                key,
            ),
{
    let kept = without_vertex(vertices, key);
    let after = without_edges_to(kept, key);
    lemma_vertex_index(vertices, key);
    lemma_has_vertex(after, key);
    assert forall|i: int| 0 <= i < after.len() implies distinct_targets(
        #[trigger] after[i].edges,
    ) && !has_edge(after[i].edges, key) by {
        lemma_without_edge(kept[i].edges, key);
    }
    assert forall|i: int, j: int|
        #![trigger after[i].edges[j]]
        0 <= i < after.len() && 0 <= j < after[i].edges.len() implies has_vertex(
        after,
        after[i].edges[j].to_key,
    ) by {
        let edge = after[i].edges[j];
        lemma_without_edge(kept[i].edges, key);
        lemma_has_edge(after[i].edges, key);
        lemma_has_vertex(vertices, edge.to_key);
        let holder = choose|holder: int|
            0 <= holder < vertices.len() && (#[trigger] vertices[holder]).key == edge.to_key;
        let moved = match vertex_index(vertices, key) {
            Some(gone) => if holder < gone {
                holder
            } else {
                holder - 1
            },
            None => holder,
        };
        assert(after[moved].key == edge.to_key);
        lemma_has_vertex(after, edge.to_key);
    }
}

} // verus!
