//! The graph, its vertices and its edges.
//!
//! The three types live here so that the walks over their chains can reach
//! into them: [`vertex_utils`] walks a chain of edges, [`graph_utils`] a
//! chain of vertices. What a chain holds is told by `edge_chain` and
//! `vertex_chain`, as sequences of the views of [`model`].

use vstd::prelude::*;

pub mod cloning;
pub mod edge;
pub mod graph_utils;
pub mod laws;
pub mod model;
pub mod preservation;
pub mod vertex;
pub mod vertex_utils;

use vstd::laws_eq::obeys_concrete_eq;
use model::{
    edges_of, has_edge, has_vertex, label_of, lemma_vertex_index, lemma_with_edges_splits,
    vertex_index, well_formed, with_edge_value, with_edges, with_label, without_edge,
    without_edges_to, without_vertex, EdgeView, VertexView,
};
use preservation::{
    lemma_add_edge_well_formed, lemma_push_vertex_well_formed, lemma_remove_edge_well_formed,
    lemma_remove_vertex_well_formed, lemma_set_edge_value_well_formed,
    lemma_with_label_well_formed,
};

verus! {

/// One outgoing edge of a vertex, and through `next` the edges added after it.
#[derive(Debug, PartialEq, Eq)]
pub struct Edge<K, V> {
    value: Option<V>,
    to_key: K,
    next: Option<Box<Edge<K, V>>>,
}

impl<K, V> View for Edge<K, V> {
    type V = EdgeView<K, V>;

    closed spec fn view(&self) -> EdgeView<K, V> {
        EdgeView { to_key: self.to_key, value: self.value }
    }
}

impl<K, V> Edge<K, V> {
    /// The edges that follow this one in its chain.
    pub closed spec fn rest(&self) -> Seq<EdgeView<K, V>>
        decreases self,
    {
        match self.next {
            None => Seq::empty(),
            Some(n) => seq![n@] + n.rest(),
        }
    }
}

/// The edges of a chain, head first.
pub open spec fn edge_chain<K, V>(chain: Option<Box<Edge<K, V>>>) -> Seq<EdgeView<K, V>> {
    match chain {
        None => Seq::empty(),
        Some(e) => seq![e@] + e.rest(),
    }
}

/// The edges of several chains, one chain after the other.
pub open spec fn edge_chains<K, V>(chains: Seq<Box<Edge<K, V>>>) -> Seq<EdgeView<K, V>>
    decreases chains.len(),
{
    if chains.len() == 0 {
        Seq::empty()
    } else {
        edge_chains(chains.drop_last()) + edge_chain(Some(chains.last()))
    }
}

/// A forward walk over a chain of edges, borrowed from the vertex that owns it.
pub struct EdgeIterator<'s, K, V> {
    head: &'s Option<Box<Edge<K, V>>>,
}

impl<'s, K, V> EdgeIterator<'s, K, V> {
    /// The edges that the walk has yet to hand out, next one first.
    pub closed spec fn remaining(&self) -> Seq<EdgeView<K, V>> {
        edge_chain(*self.head)
    }
}

/// A vertex of a graph, and through `next` the vertices added after it.
#[derive(Debug, PartialEq, Eq)]
pub struct Vertex<K, L, V> {
    key: K,
    label: Option<L>,
    edges: Option<Box<Edge<K, V>>>,
    next: Option<Box<Vertex<K, L, V>>>,
}

impl<K, L, V> View for Vertex<K, L, V> {
    type V = VertexView<K, L, V>;

    closed spec fn view(&self) -> VertexView<K, L, V> {
        VertexView { key: self.key, label: self.label, edges: edge_chain(self.edges) }
    }
}

impl<K, L, V> Vertex<K, L, V> {
    /// The vertices that follow this one in its chain.
    pub closed spec fn rest(&self) -> Seq<VertexView<K, L, V>>
        decreases self,
    {
        match self.next {
            None => Seq::empty(),
            Some(n) => seq![n@] + n.rest(),
        }
    }
}

/// The vertices of a chain, head first.
pub open spec fn vertex_chain<K, L, V>(chain: Option<Box<Vertex<K, L, V>>>) -> Seq<
    VertexView<K, L, V>,
> {
    match chain {
        None => Seq::empty(),
        Some(v) => seq![v@] + v.rest(),
    }
}

/// The vertices of several chains, one chain after the other.
pub open spec fn vertex_chains<K, L, V>(chains: Seq<Box<Vertex<K, L, V>>>) -> Seq<
    VertexView<K, L, V>,
>
    decreases chains.len(),
{
    if chains.len() == 0 {
        Seq::empty()
    } else {
        vertex_chains(chains.drop_last()) + vertex_chain(Some(chains.last()))
    }
}

/// A forward walk over a chain of vertices, borrowed from the graph that owns
/// it.
pub struct VertexIterator<'s, K, L, V> {
    head: &'s Option<Box<Vertex<K, L, V>>>,
}

impl<'s, K, L, V> VertexIterator<'s, K, L, V> {
    /// The vertices that the walk has yet to hand out, next one first.
    pub closed spec fn remaining(&self) -> Seq<VertexView<K, L, V>> {
        vertex_chain(*self.head)
    }
}

/// A directed graph: a chain of vertices, and how many they are.
#[derive(Debug, PartialEq, Eq)]
pub struct Graph<K, L, V> {
    vertices: Option<Box<Vertex<K, L, V>>>,
    len: usize,
    directed: bool,
}

impl<K, L, V> View for Graph<K, L, V> {
    type V = Seq<VertexView<K, L, V>>;

    closed spec fn view(&self) -> Seq<VertexView<K, L, V>> {
        vertex_chain(self.vertices)
    }
}

impl<K, L, V> Graph<K, L, V> {
    /// The number of vertices that the graph has on record.
    pub closed spec fn spec_len(&self) -> usize {
        self.len
    }

    /// Whether the graph is marked as directed.
    pub closed spec fn spec_is_directed(&self) -> bool {
        self.directed
    }

    /// The graph is in order: its count is the number of its vertices, it is
    /// marked as directed, and its vertices are well formed. `new` gives a
    /// graph in order, and every operation keeps one in order so.
    /// `new_with_vertices` gives one in order where the vertices handed to
    /// it are well formed together; a change made through `get_vertex_mut`
    /// may break it.
    pub open spec fn wf(&self) -> bool {
        &&& self.len() == self@.len()
        &&& self.is_directed()
        &&& well_formed(self@)
    }

    /// An empty graph.
    pub fn new() -> (graph: Graph<K, L, V>)
        ensures
            graph@ == Seq::<VertexView<K, L, V>>::empty(),
            graph.len() == 0,
            graph.is_directed(),
            graph.wf(),
    {
        Graph { vertices: None, len: 0, directed: true }
    }

    /// A graph whose vertices are those of `vertices` in the order given,
    /// each with whatever follows it. The vertices are taken as they come:
    /// the graph is in order exactly when they are well formed together.
    pub fn new_with_vertices(vertices: Vec<Box<Vertex<K, L, V>>>) -> (graph: Graph<K, L, V>)
        requires
            vertex_chains(vertices@).len() <= usize::MAX,
        ensures
            graph@ == vertex_chains(vertices@),
            graph.len() == graph@.len(),
            graph.is_directed(),
            graph.wf() <==> well_formed(vertex_chains(vertices@)),
    {
        let mut graph = Graph { vertices: None, len: 0, directed: true };
        for vertex in it: vertices
            invariant
                graph.len == 0,
                graph.directed,
                it.seq() == vertices@,
                vertex_chain(graph.vertices) == vertex_chains(vertices@.take(it.index() as int)),
        {
            assert(vertices@.take(it.index() + 1).drop_last() =~= vertices@.take(
                it.index() as int,
            ));
            graph_utils::add_vertex(&mut graph.vertices, vertex);
        }
        assert(vertices@.take(vertices@.len() as int) =~= vertices@);
        graph.len = graph_utils::chain_len(&graph.vertices);
        graph
    }

    /// Whether the graph is directed.
    #[verifier::when_used_as_spec(spec_is_directed)]
    pub fn is_directed(&self) -> (directed: bool)
        ensures
            directed == self.spec_is_directed(),
    {
        self.directed
    }

    /// A walk over the vertices of the graph, oldest first.
    pub fn vertices_iter<'r>(&'r self) -> (walk: VertexIterator<'r, K, L, V>)
        ensures
            walk.remaining() == self@,
    {
        VertexIterator { head: &self.vertices }
    }

    /// The number of vertices of the graph.
    #[verifier::when_used_as_spec(spec_len)]
    pub fn len(&self) -> (len: usize)
        ensures
            len == self.spec_len(),
    {
        self.len
    }

    /// Whether the graph has no vertex.
    pub fn is_empty(&self) -> (empty: bool)
        ensures
            empty == (self.len() == 0),
            self.wf() ==> empty == (self@.len() == 0),
    {
        self.len == 0
    }

    /// Removes every vertex, and with the vertices their edges.
    pub fn clear(&mut self)
        ensures
            final(self)@ == Seq::<VertexView<K, L, V>>::empty(),
            final(self).len() == 0,
            final(self).is_directed() == old(self).is_directed(),
            old(self).wf() ==> final(self).wf(),
    {
        self.vertices = None;
        self.len = 0;
    }
}

impl<K: PartialEq, L, V> Graph<K, L, V> {
    /// Whether the graph has a vertex under `vertex_key`.
    pub fn vertex_exist(&self, vertex_key: &K) -> (exists: bool)
        ensures
            obeys_concrete_eq::<K>() ==> exists == has_vertex(self@, *vertex_key),
    {
        match graph_utils::get_vertex_imm(&self.vertices, vertex_key) {
            Some(_) => true,
            None => false,
        }
    }

    /// Adds a vertex under `key` with `label`, if there is one, behind the
    /// vertices that the graph has. A graph that already has a vertex under
    /// `key` is left as it is, and the answer is `false`.
    pub fn add_vertex_opt_l(&mut self, key: K, label: Option<L>) -> (added: bool)
        requires
            old(self).len() < usize::MAX,
        ensures
            obeys_concrete_eq::<K>() ==> added == !has_vertex(old(self)@, key),
            added ==> final(self)@ == old(self)@.push(
                VertexView { key, label, edges: Seq::<EdgeView<K, V>>::empty() },
            ),
            added ==> final(self).len() == old(self).len() + 1,
            added ==> final(self).is_directed() == old(self).is_directed(),
            !added ==> *final(self) == *old(self),
            obeys_concrete_eq::<K>() && old(self).wf() ==> final(self).wf(),
    {
        if !self.vertex_exist(&key) {
            match label {
                Some(l) => graph_utils::add_vertex(
                    &mut self.vertices,
                    Box::new(Vertex::new_with_label(key, l)),
                ),
                None => graph_utils::add_vertex(&mut self.vertices, Box::new(Vertex::new(key))),
            }
            self.len += 1;
            proof {
                let vertex = VertexView { key, label, edges: Seq::<EdgeView<K, V>>::empty() };
                assert(self@ =~= old(self)@.push(vertex));
                if obeys_concrete_eq::<K>() && old(self).wf() {
                    lemma_push_vertex_well_formed(old(self)@, vertex);
                }
            }
            true
        } else {
            false
        }
    }

    /// Adds a vertex under `key` with `label`. A graph that already has a
    /// vertex under `key` is left as it is, and the answer is `false`.
    pub fn add_vertex_l(&mut self, key: K, label: L) -> (added: bool)
        requires
            old(self).len() < usize::MAX,
        ensures
            obeys_concrete_eq::<K>() ==> added == !has_vertex(old(self)@, key),
            added ==> final(self)@ == old(self)@.push(
                VertexView { key, label: Some(label), edges: Seq::<EdgeView<K, V>>::empty() },
            ),
            added ==> final(self).len() == old(self).len() + 1,
            added ==> final(self).is_directed() == old(self).is_directed(),
            !added ==> *final(self) == *old(self),
            obeys_concrete_eq::<K>() && old(self).wf() ==> final(self).wf(),
    {
        if !self.vertex_exist(&key) {
            graph_utils::add_vertex(
                &mut self.vertices,
                Box::new(Vertex::new_with_label(key, label)),
            );
            self.len += 1;
            proof {
                let vertex = VertexView {
                    key,
                    label: Some(label),
                    edges: Seq::<EdgeView<K, V>>::empty(),
                };
                assert(self@ =~= old(self)@.push(vertex));
                if obeys_concrete_eq::<K>() && old(self).wf() {
                    lemma_push_vertex_well_formed(old(self)@, vertex);
                }
            }
            true
        } else {
            false
        }
    }

    /// Adds a vertex under `key` without a label. A graph that already has a
    /// vertex under `key` is left as it is, and the answer is `false`.
    pub fn add_vertex(&mut self, key: K) -> (added: bool)
        requires
            old(self).len() < usize::MAX,
        ensures
            obeys_concrete_eq::<K>() ==> added == !has_vertex(old(self)@, key),
            added ==> final(self)@ == old(self)@.push(
                VertexView { key, label: None::<L>, edges: Seq::<EdgeView<K, V>>::empty() },
            ),
            added ==> final(self).len() == old(self).len() + 1,
            added ==> final(self).is_directed() == old(self).is_directed(),
            !added ==> *final(self) == *old(self),
            obeys_concrete_eq::<K>() && old(self).wf() ==> final(self).wf(),
    {
        if !self.vertex_exist(&key) {
            graph_utils::add_vertex(&mut self.vertices, Box::new(Vertex::new(key)));
            self.len += 1;
            proof {
                let vertex = VertexView {
                    key,
                    label: None::<L>,
                    edges: Seq::<EdgeView<K, V>>::empty(),
                };
                assert(self@ =~= old(self)@.push(vertex));
                if obeys_concrete_eq::<K>() && old(self).wf() {
                    lemma_push_vertex_well_formed(old(self)@, vertex);
                }
            }
            true
        } else {
            false
        }
    }

    /// The vertex under `vertex_key`, with the vertices behind it.
    pub fn get_vertex<'r>(&'r self, vertex_key: K) -> (found: Option<&'r Box<Vertex<K, L, V>>>)
        ensures
            obeys_concrete_eq::<K>() ==> match vertex_index(self@, vertex_key) {
                Some(i) => found matches Some(v) && v@ == self@[i] && v.rest() == self@.skip(
                    i + 1,
                ),
                None => found is None,
            },
    {
        graph_utils::get_vertex_imm(&self.vertices, &vertex_key)
    }

    /// The vertex under `vertex_key`, for changing it in place. The graph
    /// holds afterwards what the caller leaves in the vertex, and keeps its
    /// count as it was.
    pub fn get_vertex_mut<'r>(&'r mut self, vertex_key: K) -> (found: Option<
        &'r mut Box<Vertex<K, L, V>>,
    >)
        ensures
            final(self).len() == old(self).len(),
            final(self).is_directed() == old(self).is_directed(),
            found is None ==> *final(self) == *old(self),
            found is Some && *final(found.unwrap()) == *found.unwrap() ==> *final(self)
                == *old(self),
            obeys_concrete_eq::<K>() ==> match vertex_index(old(self)@, vertex_key) {
                Some(i) => {
                    &&& found is Some
                    &&& found.unwrap()@ == old(self)@[i]
                    &&& found.unwrap().rest() == old(self)@.skip(i + 1)
                    &&& final(self)@ == old(self)@.take(i) + seq![final(found.unwrap())@]
                        + final(found.unwrap()).rest()
                },
                None => found is None,
            },
    {
        graph_utils::get_vertex_mut(&mut self.vertices, &vertex_key)
    }

    /// Gives the vertex under `vertex_key` the label `new_label`, or none. A
    /// graph without such a vertex is left as it is, and the answer is
    /// `false`.
    pub fn set_vertex_label_opt(&mut self, vertex_key: K, new_label: Option<L>) -> (set: bool)
        ensures
            obeys_concrete_eq::<K>() ==> set == has_vertex(old(self)@, vertex_key),
            obeys_concrete_eq::<K>() ==> final(self)@ == with_label(
                old(self)@,
                vertex_key,
                new_label,
            ),
            final(self).len() == old(self).len(),
            final(self).is_directed() == old(self).is_directed(),
            !set ==> *final(self) == *old(self),
            obeys_concrete_eq::<K>() && old(self).wf() ==> final(self).wf(),
    {
        if self.vertex_exist(&vertex_key) {
            proof {
                if old(self).wf() {
                    lemma_with_label_well_formed(self@, vertex_key, new_label);
                }
            }
            graph_utils::update_vertex_label(&mut self.vertices, new_label, &vertex_key);
            true
        } else {
            false
        }
    }

    /// Gives the vertex under `vertex_key` the label `new_label`. A graph
    /// without such a vertex is left as it is, and the answer is `false`.
    pub fn set_vertex_label(&mut self, vertex_key: K, new_label: L) -> (set: bool)
        ensures
            obeys_concrete_eq::<K>() ==> set == has_vertex(old(self)@, vertex_key),
            obeys_concrete_eq::<K>() ==> final(self)@ == with_label(
                old(self)@,
                vertex_key,
                Some(new_label),
            ),
            final(self).len() == old(self).len(),
            final(self).is_directed() == old(self).is_directed(),
            !set ==> *final(self) == *old(self),
            obeys_concrete_eq::<K>() && old(self).wf() ==> final(self).wf(),
    {
        if self.vertex_exist(&vertex_key) {
            proof {
                if old(self).wf() {
                    lemma_with_label_well_formed(self@, vertex_key, Some(new_label));
                }
            }
            graph_utils::update_vertex_label(&mut self.vertices, Some(new_label), &vertex_key);
            true
        } else {
            false
        }
    }

    /// Takes the label off the vertex under `vertex_key`; a vertex without a
    /// label stays as it is. A graph without such a vertex is left as it is,
    /// and the answer is `false`.
    pub fn remove_vertex_label(&mut self, vertex_key: K) -> (cleared: bool)
        ensures
            obeys_concrete_eq::<K>() ==> cleared == has_vertex(old(self)@, vertex_key),
            obeys_concrete_eq::<K>() ==> final(self)@ == with_label(
                old(self)@,
                vertex_key,
                None::<L>,
            ),
            final(self).len() == old(self).len(),
            final(self).is_directed() == old(self).is_directed(),
            !cleared ==> *final(self) == *old(self),
            obeys_concrete_eq::<K>() && old(self).wf() ==> final(self).wf(),
    {
        if self.vertex_exist(&vertex_key) {
            proof {
                if old(self).wf() {
                    lemma_with_label_well_formed(self@, vertex_key, None::<L>);
                }
            }
            graph_utils::update_vertex_label(&mut self.vertices, None, &vertex_key);
            true
        } else {
            false
        }
    }

    /// The label of the vertex under `vertex_key`; none where that vertex
    /// has no label or the graph has no such vertex.
    pub fn get_vertex_label<'r>(&'r self, vertex_key: K) -> (label: Option<&'r L>)
        ensures
            obeys_concrete_eq::<K>() ==> match label {
                Some(l) => label_of(self@, vertex_key) == Some(*l),
                None => label_of(self@, vertex_key) is None,
            },
    {
        match graph_utils::get_vertex_imm(&self.vertices, &vertex_key) {
            Some(v) => v.get_label(),
            None => None,
        }
    }

    /// Adds an edge from the vertex under `from_key` to the vertex under
    /// `to_key`, carrying `value` if there is one. Where either vertex is
    /// missing, or the edge is there already, the graph is left as it is and
    /// the answer is `false`.
    pub fn add_edge_opt_v(&mut self, from_key: K, to_key: K, value: Option<V>) -> (added: bool)
        ensures
            obeys_concrete_eq::<K>() ==> added == (has_vertex(old(self)@, from_key) && has_vertex(
                old(self)@,
                to_key,
            ) && !has_edge(edges_of(old(self)@, from_key), to_key)),
            obeys_concrete_eq::<K>() && added ==> final(self)@ == with_edges(
                old(self)@,
                from_key,
                edges_of(old(self)@, from_key).push(EdgeView { to_key, value }),
            ),
            final(self).len() == old(self).len(),
            final(self).is_directed() == old(self).is_directed(),
            !added ==> *final(self) == *old(self),
            obeys_concrete_eq::<K>() && old(self).wf() ==> final(self).wf(),
    {
        if self.vertex_exist(&from_key) && self.vertex_exist(&to_key) {
            proof {
                let edge = EdgeView { to_key, value };
                lemma_with_edges_splits(self@, from_key, edges_of(self@, from_key).push(edge));
                if obeys_concrete_eq::<K>() && self.wf() && !has_edge(
                    edges_of(self@, from_key),
                    to_key,
                ) {
                    lemma_add_edge_well_formed(self@, from_key, edge);
                }
            }
            match graph_utils::get_vertex_mut(&mut self.vertices, &from_key) {
                Some(v) => v.add_edge_opt_v(to_key, value),
                None => false,
            }
        } else {
            false
        }
    }

    /// Adds an edge from the vertex under `from_key` to the vertex under
    /// `to_key`, carrying `value`. Where either vertex is missing, or the
    /// edge is there already, the graph is left as it is and the answer is
    /// `false`.
    pub fn add_edge_v(&mut self, from_key: K, to_key: K, value: V) -> (added: bool)
        ensures
            obeys_concrete_eq::<K>() ==> added == (has_vertex(old(self)@, from_key) && has_vertex(
                old(self)@,
                to_key,
            ) && !has_edge(edges_of(old(self)@, from_key), to_key)),
            obeys_concrete_eq::<K>() && added ==> final(self)@ == with_edges(
                old(self)@,
                from_key,
                edges_of(old(self)@, from_key).push(EdgeView { to_key, value: Some(value) }),
            ),
            final(self).len() == old(self).len(),
            final(self).is_directed() == old(self).is_directed(),
            !added ==> *final(self) == *old(self),
            obeys_concrete_eq::<K>() && old(self).wf() ==> final(self).wf(),
    {
        if self.vertex_exist(&from_key) && self.vertex_exist(&to_key) {
            proof {
                let edge = EdgeView { to_key, value: Some(value) };
                lemma_with_edges_splits(self@, from_key, edges_of(self@, from_key).push(edge));
                if obeys_concrete_eq::<K>() && self.wf() && !has_edge(
                    edges_of(self@, from_key),
                    to_key,
                ) {
                    lemma_add_edge_well_formed(self@, from_key, edge);
                }
            }
            match graph_utils::get_vertex_mut(&mut self.vertices, &from_key) {
                Some(v) => v.add_edge_v(to_key, value),
                None => false,
            }
        } else {
            false
        }
    }

    /// Adds an edge without a value from the vertex under `from_key` to the
    /// vertex under `to_key`. Where either vertex is missing, or the edge is
    /// there already, the graph is left as it is and the answer is `false`.
    pub fn add_edge(&mut self, from_key: K, to_key: K) -> (added: bool)
        ensures
            obeys_concrete_eq::<K>() ==> added == (has_vertex(old(self)@, from_key) && has_vertex(
                old(self)@,
                to_key,
            ) && !has_edge(edges_of(old(self)@, from_key), to_key)),
            obeys_concrete_eq::<K>() && added ==> final(self)@ == with_edges(
                old(self)@,
                from_key,
                edges_of(old(self)@, from_key).push(EdgeView { to_key, value: None::<V> }),
            ),
            final(self).len() == old(self).len(),
            final(self).is_directed() == old(self).is_directed(),
            !added ==> *final(self) == *old(self),
            obeys_concrete_eq::<K>() && old(self).wf() ==> final(self).wf(),
    {
        if self.vertex_exist(&from_key) && self.vertex_exist(&to_key) {
            proof {
                let edge = EdgeView { to_key, value: None::<V> };
                lemma_with_edges_splits(self@, from_key, edges_of(self@, from_key).push(edge));
                if obeys_concrete_eq::<K>() && self.wf() && !has_edge(
                    edges_of(self@, from_key),
                    to_key,
                ) {
                    lemma_add_edge_well_formed(self@, from_key, edge);
                }
            }
            match graph_utils::get_vertex_mut(&mut self.vertices, &from_key) {
                Some(v) => v.add_edge(to_key),
                None => false,
            }
        } else {
            false
        }
    }

    /// Gives the edge from the vertex under `from_key` to the vertex under
    /// `to_key` the value `new_value`, or none. Where either vertex or the
    /// edge is missing, the graph is left as it is and the answer is `false`.
    pub fn set_edge_value_opt(&mut self, from_key: K, to_key: K, new_value: Option<V>) -> (set:
        bool)
        ensures
            obeys_concrete_eq::<K>() ==> set == (has_vertex(old(self)@, from_key) && has_vertex(
                old(self)@,
                to_key,
            ) && has_edge(edges_of(old(self)@, from_key), to_key)),
            obeys_concrete_eq::<K>() && set ==> final(self)@ == with_edges(
                old(self)@,
                from_key,
                with_edge_value(edges_of(old(self)@, from_key), to_key, new_value),
            ),
            final(self).len() == old(self).len(),
            final(self).is_directed() == old(self).is_directed(),
            !set ==> *final(self) == *old(self),
            obeys_concrete_eq::<K>() && old(self).wf() ==> final(self).wf(),
    {
        if self.vertex_exist(&from_key) && self.vertex_exist(&to_key) {
            proof {
                lemma_with_edges_splits(
                    self@,
                    from_key,
                    with_edge_value(edges_of(self@, from_key), to_key, new_value),
                );
                if self.wf() {
                    lemma_set_edge_value_well_formed(self@, from_key, to_key, new_value);
                }
            }
            match graph_utils::get_vertex_mut(&mut self.vertices, &from_key) {
                Some(v) => v.set_edge_value_opt(to_key, new_value),
                None => false,
            }
        } else {
            false
        }
    }

    /// Gives the edge from the vertex under `from_key` to the vertex under
    /// `to_key` the value `new_value`. Where either vertex or the edge is
    /// missing, the graph is left as it is and the answer is `false`.
    pub fn set_edge_value(&mut self, from_key: K, to_key: K, new_value: V) -> (set: bool)
        ensures
            obeys_concrete_eq::<K>() ==> set == (has_vertex(old(self)@, from_key) && has_vertex(
                old(self)@,
                to_key,
            ) && has_edge(edges_of(old(self)@, from_key), to_key)),
            obeys_concrete_eq::<K>() && set ==> final(self)@ == with_edges(
                old(self)@,
                from_key,
                with_edge_value(edges_of(old(self)@, from_key), to_key, Some(new_value)),
            ),
            final(self).len() == old(self).len(),
            final(self).is_directed() == old(self).is_directed(),
            !set ==> *final(self) == *old(self),
            obeys_concrete_eq::<K>() && old(self).wf() ==> final(self).wf(),
    {
        if self.vertex_exist(&from_key) && self.vertex_exist(&to_key) {
            proof {
                lemma_with_edges_splits(
                    self@,
                    from_key,
                    with_edge_value(edges_of(self@, from_key), to_key, Some(new_value)),
                );
                if self.wf() {
                    lemma_set_edge_value_well_formed(self@, from_key, to_key, Some(new_value));
                }
            }
            match graph_utils::get_vertex_mut(&mut self.vertices, &from_key) {
                Some(v) => v.set_edge_value(to_key, new_value),
                None => false,
            }
        } else {
            false
        }
    }

    /// Takes the value off the edge from the vertex under `from_key` to the
    /// vertex under `to_key`; an edge without a value stays as it is. Where
    /// either vertex or the edge is missing, the graph is left as it is and
    /// the answer is `false`.
    pub fn remove_edge_value(&mut self, from_key: K, to_key: K) -> (cleared: bool)
        ensures
            obeys_concrete_eq::<K>() ==> cleared == (has_vertex(old(self)@, from_key)
                && has_vertex(old(self)@, to_key) && has_edge(
                edges_of(old(self)@, from_key),
                to_key,
            )),
            obeys_concrete_eq::<K>() && cleared ==> final(self)@ == with_edges(
                old(self)@,
                from_key,
                with_edge_value(edges_of(old(self)@, from_key), to_key, None::<V>),
            ),
            final(self).len() == old(self).len(),
            final(self).is_directed() == old(self).is_directed(),
            !cleared ==> *final(self) == *old(self),
            obeys_concrete_eq::<K>() && old(self).wf() ==> final(self).wf(),
    {
        if self.vertex_exist(&from_key) && self.vertex_exist(&to_key) {
            proof {
                lemma_with_edges_splits(
                    self@,
                    from_key,
                    with_edge_value(edges_of(self@, from_key), to_key, None::<V>),
                );
                if self.wf() {
                    lemma_set_edge_value_well_formed(self@, from_key, to_key, None::<V>);
                }
            }
            match graph_utils::get_vertex_mut(&mut self.vertices, &from_key) {
                Some(v) => v.remove_edge_value(to_key),
                None => false,
            }
        } else {
            false
        }
    }

    /// Whether the graph has an edge from the vertex under `from_key` to
    /// `to_key`.
    pub fn edge_exist(&self, from_key: K, to_key: K) -> (exists: bool)
        ensures
            obeys_concrete_eq::<K>() ==> exists == has_edge(edges_of(self@, from_key), to_key),
    {
        match graph_utils::get_vertex_imm(&self.vertices, &from_key) {
            Some(v) => v.edge_exist(&to_key),
            None => false,
        }
    }

    /// Whether the graph has both vertices and an edge from the one under
    /// `from_key` to the one under `to_key`. The graph is directed: an edge
    /// the other way round does not count.
    pub fn adjacent(&self, from_key: K, to_key: K) -> (adjacent: bool)
        ensures
            obeys_concrete_eq::<K>() ==> adjacent == (has_vertex(self@, from_key) && has_vertex(
                self@,
                to_key,
            ) && has_edge(edges_of(self@, from_key), to_key)),
    {
        if self.vertex_exist(&from_key) && self.vertex_exist(&to_key) {
            match graph_utils::get_vertex_imm(&self.vertices, &from_key) {
                Some(v) => v.edge_exist(&to_key),
                None => false,
            }
        } else {
            false
        }
    }

    /// Removes the edge from the vertex under `from_key` to the vertex under
    /// `to_key`, wherever among the edges of that vertex it stands. Where
    /// either vertex or the edge is missing, the graph is left as it is and
    /// the answer is `false`.
    pub fn remove_edge(&mut self, from_key: K, to_key: K) -> (removed: bool)
        ensures
            obeys_concrete_eq::<K>() ==> removed == (has_vertex(old(self)@, from_key)
                && has_vertex(old(self)@, to_key) && has_edge(
                edges_of(old(self)@, from_key),
                to_key,
            )),
            obeys_concrete_eq::<K>() && removed ==> final(self)@ == with_edges(
                old(self)@,
                from_key,
                without_edge(edges_of(old(self)@, from_key), to_key),
            ),
            final(self).len() == old(self).len(),
            final(self).is_directed() == old(self).is_directed(),
            !removed ==> *final(self) == *old(self),
            obeys_concrete_eq::<K>() && old(self).wf() ==> final(self).wf(),
    {
        if self.vertex_exist(&from_key) && self.vertex_exist(&to_key) {
            proof {
                lemma_with_edges_splits(
                    self@,
                    from_key,
                    without_edge(edges_of(self@, from_key), to_key),
                );
                if self.wf() {
                    lemma_remove_edge_well_formed(self@, from_key, to_key);
                }
            }
            match graph_utils::get_vertex_mut(&mut self.vertices, &from_key) {
                Some(v) => v.remove_edge(to_key),
                None => false,
            }
        } else {
            false
        }
    }

    /// Removes the vertex under `vertex_key`, wherever in the chain it
    /// stands, and with it the edges that lead to it from the vertices that
    /// stay. A graph without such a vertex is left as it is, and the answer
    /// is `false`.
    pub fn remove_vertex(&mut self, vertex_key: K) -> (removed: bool)
        ensures
            obeys_concrete_eq::<K>() ==> removed == has_vertex(old(self)@, vertex_key),
            obeys_concrete_eq::<K>() && removed ==> final(self)@ == without_edges_to(
                without_vertex(old(self)@, vertex_key),
                vertex_key,
            ),
            removed ==> final(self).len() == if old(self).len() > 0 {
                old(self).len() - 1
            } else {
                0
            },
            final(self).is_directed() == old(self).is_directed(),
            !removed ==> *final(self) == *old(self),
            obeys_concrete_eq::<K>() && old(self).wf() ==> final(self).wf(),
            obeys_concrete_eq::<K>() && old(self).wf() && removed ==> !has_vertex(
                final(self)@,
                vertex_key,
            ),
            obeys_concrete_eq::<K>() && old(self).wf() && removed ==> forall|i: int|
                0 <= i < final(self)@.len() ==> !has_edge(
                    (#[trigger] final(self)@[i]).edges,
                    vertex_key,
                ),
    {
        if self.vertex_exist(&vertex_key) {
            proof {
                lemma_vertex_index(self@, vertex_key);
                if self.wf() {
                    lemma_remove_vertex_well_formed(self@, vertex_key);
                }
            }
            graph_utils::remove_vertex(&mut self.vertices, &vertex_key);
            graph_utils::remove_edge_to(&mut self.vertices, &vertex_key);
            if self.len > 0 {
                self.len -= 1;
            }
            true
        } else {
            false
        }
    }
}

} // verus!
