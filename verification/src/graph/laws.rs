//! What holds of the operations of a graph taken together, stated over the
//! model that their contracts speak of.

use vstd::prelude::*;
use super::preservation::lemma_remove_vertex_well_formed;
use super::model::{
    distinct_keys, distinct_targets, edge_index, edges_of, has_edge, has_vertex, label_of,
    lemma_edge_index, lemma_has_vertex, lemma_vertex_index, value_of, vertex_index, well_formed,
    with_edge_value, with_edges, with_label, without_edges_to, without_vertex, EdgeView,
    VertexView,
};

verus! {

/// A key is given out once. A vertex that was added stands at the end of the
/// vertices and is found under its key, so adding under the same key again
/// is refused, and a refused addition leaves graph and count as they were.
pub proof fn lemma_added_vertex_is_found<K, L, V>(
    vertices: Seq<VertexView<K, L, V>>,
    vertex: VertexView<K, L, V>,
)
    ensures
        has_vertex(vertices.push(vertex), vertex.key),
        !has_vertex(vertices, vertex.key) ==> vertex_index(vertices.push(vertex), vertex.key)
            == Some(vertices.len() as int),
{
    let after = vertices.push(vertex);
    assert(after[vertices.len() as int].key == vertex.key);
    lemma_vertex_index(after, vertex.key);
    lemma_has_vertex(vertices, vertex.key);
}

/// An edge is added once. An edge that was added stands at the end of the
/// edges of its vertex and is found under its target.
pub proof fn lemma_added_edge_is_found<K, V>(edges: Seq<EdgeView<K, V>>, edge: EdgeView<K, V>)
    ensures
        has_edge(edges.push(edge), edge.to_key),
{
    let after = edges.push(edge);
    assert(after[edges.len() as int].to_key == edge.to_key);
    lemma_edge_index(after, edge.to_key);
}

/// No edge is left hanging. Once a vertex of a well-formed graph is removed,
/// no vertex that stays has the key or an edge to it, and every edge that
/// stays leads to a vertex that stays.
pub proof fn lemma_removed_vertex_leaves_no_edge<K, L, V>(
    vertices: Seq<VertexView<K, L, V>>,
    key: K,
    from: K,
)
    requires
        well_formed(vertices),
    ensures
        !has_vertex(without_edges_to(without_vertex(vertices, key), key), key),
        !has_edge(edges_of(without_edges_to(without_vertex(vertices, key), key), from), key),
        well_formed(without_edges_to(without_vertex(vertices, key), key)),
{
    let after = without_edges_to(without_vertex(vertices, key), key);
    lemma_remove_vertex_well_formed(vertices, key);
    lemma_vertex_index(after, from);
}

/// Taking the label off a vertex that has none, or off one that is not
/// there, changes nothing.
pub proof fn lemma_clearing_no_label<K, L, V>(vertices: Seq<VertexView<K, L, V>>, key: K)
    requires
        label_of(vertices, key) is None,
    ensures
        with_label(vertices, key, None) == vertices,
{
    lemma_vertex_index(vertices, key);
}

/// Taking the value off an edge that has none, or off one that is not
/// there, changes nothing.
pub proof fn lemma_clearing_no_value<K, V>(edges: Seq<EdgeView<K, V>>, key: K)
    requires
        value_of(edges, key) is None,
    ensures
        with_edge_value(edges, key, None) == edges,
{
    lemma_edge_index(edges, key);
}

/// Taking the value off an edge of a graph that has none, or off one that is
/// not there, changes nothing in the graph.
pub proof fn lemma_clearing_no_value_in_graph<K, L, V>(
    vertices: Seq<VertexView<K, L, V>>,
    from: K,
    to: K,
)
    requires
        value_of(edges_of(vertices, from), to) is None,
    ensures
        with_edges(vertices, from, with_edge_value(edges_of(vertices, from), to, None))
            == vertices,
{
    lemma_clearing_no_value(edges_of(vertices, from), to);
    lemma_vertex_index(vertices, from);
}

/// A walk and a search agree. Where no two vertices share a key, the vertex
/// that a walk hands out in place `i` is the one that a search under its key
/// finds.
pub proof fn lemma_walk_agrees_with_search<K, L, V>(vertices: Seq<VertexView<K, L, V>>, i: int)
    requires
        distinct_keys(vertices),
        0 <= i < vertices.len(),
    ensures
        vertex_index(vertices, vertices[i].key) == Some(i),
{
    lemma_vertex_index(vertices, vertices[i].key);
}

/// A walk over edges and a search agree. Where no two edges share a target,
/// the edge that a walk hands out in place `j` is the one that a search
/// under its target finds.
pub proof fn lemma_edge_walk_agrees_with_search<K, V>(edges: Seq<EdgeView<K, V>>, j: int)
    requires
        distinct_targets(edges),
        0 <= j < edges.len(),
    ensures
        edge_index(edges, edges[j].to_key) == Some(j),
{
    lemma_edge_index(edges, edges[j].to_key);
}

} // verus!
