//! The mathematical model of a graph: sequences of vertex and edge views, and
//! the functions on them that the contracts of the executable code speak of.

use vstd::prelude::*;

verus! {

/// What an edge says: the key it leads to and the value it carries.
pub struct EdgeView<K, V> {
    pub to_key: K,
    pub value: Option<V>,
}

/// What a vertex says: its key, its label and its outgoing edges, oldest first.
pub struct VertexView<K, L, V> {
    pub key: K,
    pub label: Option<L>,
    pub edges: Seq<EdgeView<K, V>>,
}

/// `copy` is what cloning `source` may give: nothing for nothing, and else
/// a clone of what `source` holds.
pub open spec fn option_cloned<T: Clone>(source: Option<T>, copy: Option<T>) -> bool {
    match (source, copy) {
        (Some(a), Some(b)) => cloned(a, b),
        (None, None) => true,
        _ => false,
    }
}

/// `copy` is what cloning `source` may give: an edge to a clone of the key,
/// with a clone of the value.
pub open spec fn edge_cloned<K: Clone, V: Clone>(
    source: EdgeView<K, V>,
    copy: EdgeView<K, V>,
) -> bool {
    &&& cloned(source.to_key, copy.to_key)
    &&& option_cloned(source.value, copy.value)
}

/// `copies` holds, place by place, what cloning the edges of `sources` may
/// give.
pub open spec fn edges_cloned<K: Clone, V: Clone>(
    sources: Seq<EdgeView<K, V>>,
    copies: Seq<EdgeView<K, V>>,
) -> bool {
    &&& sources.len() == copies.len()
    &&& forall|i: int| 0 <= i < sources.len() ==> edge_cloned(#[trigger] sources[i], copies[i])
}

/// `copy` is what cloning `source` may give: a vertex under a clone of the
/// key, with a clone of the label and clones of the edges.
pub open spec fn vertex_cloned<K: Clone, L: Clone, V: Clone>(
    source: VertexView<K, L, V>,
    copy: VertexView<K, L, V>,
) -> bool {
    &&& cloned(source.key, copy.key)
    &&& option_cloned(source.label, copy.label)
    &&& edges_cloned(source.edges, copy.edges)
}

/// `copies` holds, place by place, what cloning the vertices of `sources`
/// may give.
pub open spec fn vertices_cloned<K: Clone, L: Clone, V: Clone>(
    sources: Seq<VertexView<K, L, V>>,
    copies: Seq<VertexView<K, L, V>>,
) -> bool {
    &&& sources.len() == copies.len()
    &&& forall|i: int|
        0 <= i < sources.len() ==> vertex_cloned(#[trigger] sources[i], copies[i])
}

/// Moves an index found in the tail of a sequence to the same element in the
/// whole sequence.
pub open spec fn shifted(found: Option<int>) -> Option<int> {
    match found {
        Some(i) => Some(i + 1),
        None => None,
    }
}

/// Index of the first edge in `edges` that leads to `key`.
pub open spec fn edge_index<K, V>(edges: Seq<EdgeView<K, V>>, key: K) -> Option<int>
    decreases edges.len(),
{
    if edges.len() == 0 {
        None
    } else if edges[0].to_key == key {
        Some(0int)
    } else {
        shifted(edge_index(edges.drop_first(), key))
    }
}

/// Whether some edge in `edges` leads to `key`.
pub open spec fn has_edge<K, V>(edges: Seq<EdgeView<K, V>>, key: K) -> bool {
    edge_index(edges, key) is Some
}

/// The value of the first edge to `key`; none where that edge carries no
/// value or no edge leads there.
pub open spec fn value_of<K, V>(edges: Seq<EdgeView<K, V>>, key: K) -> Option<V> {
    match edge_index(edges, key) {
        Some(i) => edges[i].value,
        None => None,
    }
}

/// `edges` with the value of the first edge to `key` replaced by `value`;
/// `edges` itself where no edge leads there.
pub open spec fn with_edge_value<K, V>(
    edges: Seq<EdgeView<K, V>>,
    key: K,
    value: Option<V>,
) -> Seq<EdgeView<K, V>> {
    match edge_index(edges, key) {
        Some(i) => edges.update(i, EdgeView { to_key: edges[i].to_key, value }),
        None => edges,
    }
}

/// `edges` without the first edge to `key`; `edges` itself where no edge
/// leads there.
pub open spec fn without_edge<K, V>(edges: Seq<EdgeView<K, V>>, key: K) -> Seq<EdgeView<K, V>> {
    match edge_index(edges, key) {
        Some(i) => edges.remove(i),
        None => edges,
    }
}

/// No two edges of `edges` lead to the same key.
pub open spec fn distinct_targets<K, V>(edges: Seq<EdgeView<K, V>>) -> bool {
    forall|i: int, j: int| 0 <= i < j < edges.len() ==> edges[i].to_key != edges[j].to_key
}

/// What `edge_index` finds: the first position that holds `key`, and nothing
/// exactly when no position holds it.
pub proof fn lemma_edge_index<K, V>(edges: Seq<EdgeView<K, V>>, key: K)
    ensures
        match edge_index(edges, key) {
            Some(i) => {
                &&& 0 <= i < edges.len()
                &&& edges[i].to_key == key
                &&& forall|j: int| 0 <= j < i ==> edges[j].to_key != key
            },
            None => forall|j: int| 0 <= j < edges.len() ==> edges[j].to_key != key,
        },
    decreases edges.len(),
{
    if edges.len() > 0 && edges[0].to_key != key {
        lemma_edge_index(edges.drop_first(), key);
        match edge_index(edges.drop_first(), key) {
            Some(i) => {
                assert forall|j: int| 0 <= j < i + 1 implies edges[j].to_key != key by {
                    if j > 0 {
                        assert(edges.drop_first()[j - 1] == edges[j]);
                    }
                }
            },
            None => {
                assert forall|j: int| 0 <= j < edges.len() implies edges[j].to_key != key by {
                    if j > 0 {
                        assert(edges.drop_first()[j - 1] == edges[j]);
                    }
                }
            },
        }
    }
}

/// Searching a chain that starts with `head`: either `head` is the match, or
/// the match is the one in `tail`, one place further on.
pub proof fn lemma_edge_index_cons<K, V>(head: EdgeView<K, V>, tail: Seq<EdgeView<K, V>>, key: K)
    ensures
        edge_index(seq![head] + tail, key) == if head.to_key == key {
            Some(0int)
        } else {
            shifted(edge_index(tail, key))
        },
{
    assert((seq![head] + tail).drop_first() =~= tail);
}

/// Unlinking from a chain that starts with `head`: `head` goes where it is
/// the match, and otherwise stays in front of what is left of `tail`.
pub proof fn lemma_without_edge_cons<K, V>(head: EdgeView<K, V>, tail: Seq<EdgeView<K, V>>, key: K)
    ensures
        without_edge(seq![head] + tail, key) == if head.to_key == key {
            tail
        } else {
            seq![head] + without_edge(tail, key)
        },
{
    lemma_edge_index_cons(head, tail, key);
    lemma_edge_index(tail, key);
}

/// Updating in a chain that starts with `head`: `head` takes the value where
/// it is the match, and otherwise stays in front of the updated `tail`.
pub proof fn lemma_with_edge_value_cons<K, V>(
    head: EdgeView<K, V>,
    tail: Seq<EdgeView<K, V>>,
    key: K,
    value: Option<V>,
)
    ensures
        with_edge_value(seq![head] + tail, key, value) == if head.to_key == key {
            seq![EdgeView { to_key: head.to_key, value }] + tail
        } else {
            seq![head] + with_edge_value(tail, key, value)
        },
{
    lemma_edge_index_cons(head, tail, key);
    lemma_edge_index(tail, key);
}

/// Index of the first vertex in `vertices` whose key is `key`.
pub open spec fn vertex_index<K, L, V>(vertices: Seq<VertexView<K, L, V>>, key: K) -> Option<int>
    decreases vertices.len(),
{
    if vertices.len() == 0 {
        None
    } else if vertices[0].key == key {
        Some(0int)
    } else {
        shifted(vertex_index(vertices.drop_first(), key))
    }
}

/// Whether some vertex in `vertices` has the key `key`.
pub open spec fn has_vertex<K, L, V>(vertices: Seq<VertexView<K, L, V>>, key: K) -> bool {
    vertex_index(vertices, key) is Some
}

/// `vertices` with the label of the first vertex under `key` replaced by
/// `label`; `vertices` itself where no vertex has that key.
pub open spec fn with_label<K, L, V>(
    vertices: Seq<VertexView<K, L, V>>,
    key: K,
    label: Option<L>,
) -> Seq<VertexView<K, L, V>> {
    match vertex_index(vertices, key) {
        Some(i) => vertices.update(
            i,
            VertexView { key: vertices[i].key, label, edges: vertices[i].edges },
        ),
        None => vertices,
    }
}

/// The label of the first vertex under `key`; none where that vertex has no
/// label or no vertex has that key.
pub open spec fn label_of<K, L, V>(vertices: Seq<VertexView<K, L, V>>, key: K) -> Option<L> {
    match vertex_index(vertices, key) {
        Some(i) => vertices[i].label,
        None => None,
    }
}

/// The edges of the first vertex under `key`; none where no vertex has that
/// key.
pub open spec fn edges_of<K, L, V>(vertices: Seq<VertexView<K, L, V>>, key: K) -> Seq<
    EdgeView<K, V>,
> {
    match vertex_index(vertices, key) {
        Some(i) => vertices[i].edges,
        None => Seq::empty(),
    }
}

/// `vertices` with the edges of the first vertex under `key` replaced by
/// `edges`; `vertices` itself where no vertex has that key.
pub open spec fn with_edges<K, L, V>(
    vertices: Seq<VertexView<K, L, V>>,
    key: K,
    edges: Seq<EdgeView<K, V>>,
) -> Seq<VertexView<K, L, V>> {
    match vertex_index(vertices, key) {
        Some(i) => vertices.update(
            i,
            VertexView { key: vertices[i].key, label: vertices[i].label, edges },
        ),
        None => vertices,
    }
}

/// `vertices` without the first vertex under `key`; `vertices` itself where
/// no vertex has that key.
pub open spec fn without_vertex<K, L, V>(vertices: Seq<VertexView<K, L, V>>, key: K) -> Seq<
    VertexView<K, L, V>,
> {
    match vertex_index(vertices, key) {
        Some(i) => vertices.remove(i),
        None => vertices,
    }
}

/// `vertex` without its first edge to `key`.
pub open spec fn without_edge_to<K, L, V>(vertex: VertexView<K, L, V>, key: K) -> VertexView<
    K,
    L,
    V,
> {
    VertexView { key: vertex.key, label: vertex.label, edges: without_edge(vertex.edges, key) }
}

/// `vertices`, each without its first edge to `key`.
pub open spec fn without_edges_to<K, L, V>(vertices: Seq<VertexView<K, L, V>>, key: K) -> Seq<
    VertexView<K, L, V>,
> {
    Seq::new(vertices.len(), |i: int| without_edge_to(vertices[i], key))
}

/// No two vertices of `vertices` have the same key.
pub open spec fn distinct_keys<K, L, V>(vertices: Seq<VertexView<K, L, V>>) -> bool {
    forall|i: int, j: int| 0 <= i < j < vertices.len() ==> vertices[i].key != vertices[j].key
}

/// Every edge of every vertex of `vertices` leads to a key that some vertex
/// of `vertices` has.
pub open spec fn no_dangling_edges<K, L, V>(vertices: Seq<VertexView<K, L, V>>) -> bool {
    forall|i: int, j: int|
        #![trigger vertices[i].edges[j]]
        0 <= i < vertices.len() && 0 <= j < vertices[i].edges.len() ==> has_vertex(
            vertices,
            vertices[i].edges[j].to_key,
        )
}

/// The vertices of a graph in order: no key twice, no vertex with two edges
/// to one key, and no edge to a key that no vertex has.
pub open spec fn well_formed<K, L, V>(vertices: Seq<VertexView<K, L, V>>) -> bool {
    &&& distinct_keys(vertices)
    &&& forall|i: int| 0 <= i < vertices.len() ==> distinct_targets(#[trigger] vertices[i].edges)
    &&& no_dangling_edges(vertices)
}

/// What `vertex_index` finds: the first position that holds `key`, and
/// nothing exactly when no position holds it.
pub proof fn lemma_vertex_index<K, L, V>(vertices: Seq<VertexView<K, L, V>>, key: K)
    ensures
        match vertex_index(vertices, key) {
            Some(i) => {
                &&& 0 <= i < vertices.len()
                &&& vertices[i].key == key
                &&& forall|j: int| 0 <= j < i ==> vertices[j].key != key
            },
            None => forall|j: int| 0 <= j < vertices.len() ==> vertices[j].key != key,
        },
    decreases vertices.len(),
{
    if vertices.len() > 0 && vertices[0].key != key {
        lemma_vertex_index(vertices.drop_first(), key);
        match vertex_index(vertices.drop_first(), key) {
            Some(i) => {
                assert forall|j: int| 0 <= j < i + 1 implies vertices[j].key != key by {
                    if j > 0 {
                        assert(vertices.drop_first()[j - 1] == vertices[j]);
                    }
                }
            },
            None => {
                assert forall|j: int| 0 <= j < vertices.len() implies vertices[j].key != key by {
                    if j > 0 {
                        assert(vertices.drop_first()[j - 1] == vertices[j]);
                    }
                }
            },
        }
    }
}

/// Searching a chain that starts with `head`: either `head` is the match, or
/// the match is the one in `tail`, one place further on.
pub proof fn lemma_vertex_index_cons<K, L, V>(
    head: VertexView<K, L, V>,
    tail: Seq<VertexView<K, L, V>>,
    key: K,
)
    ensures
        vertex_index(seq![head] + tail, key) == if head.key == key {
            Some(0int)
        } else {
            shifted(vertex_index(tail, key))
        },
{
    assert((seq![head] + tail).drop_first() =~= tail);
}

/// Unlinking from a chain that starts with `head`: `head` goes where it is
/// the match, and otherwise stays in front of what is left of `tail`.
pub proof fn lemma_without_vertex_cons<K, L, V>(
    head: VertexView<K, L, V>,
    tail: Seq<VertexView<K, L, V>>,
    key: K,
)
    ensures
        without_vertex(seq![head] + tail, key) == if head.key == key {
            tail
        } else {
            seq![head] + without_vertex(tail, key)
        },
{
    lemma_vertex_index_cons(head, tail, key);
    lemma_vertex_index(tail, key);
}

/// Relabelling in a chain that starts with `head`: `head` takes the label
/// where it is the match, and otherwise stays in front of the relabelled
/// `tail`.
pub proof fn lemma_with_label_cons<K, L, V>(
    head: VertexView<K, L, V>,
    tail: Seq<VertexView<K, L, V>>,
    key: K,
    label: Option<L>,
)
    ensures
        with_label(seq![head] + tail, key, label) == if head.key == key {
            seq![VertexView { key: head.key, label, edges: head.edges }] + tail
        } else {
            seq![head] + with_label(tail, key, label)
        },
{
    lemma_vertex_index_cons(head, tail, key);
    lemma_vertex_index(tail, key);
}

/// Putting the first vertex under `key` back where it was found, with other
/// edges, replaces its edges in the sequence.
pub proof fn lemma_with_edges_splits<K, L, V>(
    vertices: Seq<VertexView<K, L, V>>,
    key: K,
    edges: Seq<EdgeView<K, V>>,
)
    ensures
        match vertex_index(vertices, key) {
            Some(i) => with_edges(vertices, key, edges) == vertices.take(i) + seq![
                VertexView { key: vertices[i].key, label: vertices[i].label, edges },
            ] + vertices.skip(i + 1),
            None => with_edges(vertices, key, edges) == vertices,
        },
{
    lemma_vertex_index(vertices, key);
}

/// Some edge leads to `key` exactly when `edge_index` finds one.
pub proof fn lemma_has_edge<K, V>(edges: Seq<EdgeView<K, V>>, key: K)
    ensures
        has_edge(edges, key) <==> exists|j: int|
            0 <= j < edges.len() && (#[trigger] edges[j]).to_key == key,
{
    lemma_edge_index(edges, key);
}

/// Some vertex has `key` exactly when `vertex_index` finds one.
pub proof fn lemma_has_vertex<K, L, V>(vertices: Seq<VertexView<K, L, V>>, key: K)
    ensures
        has_vertex(vertices, key) <==> exists|i: int|
            0 <= i < vertices.len() && (#[trigger] vertices[i]).key == key,
{
    lemma_vertex_index(vertices, key);
}

} // verus!
