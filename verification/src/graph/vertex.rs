//! Vertices: building them, their label, and their outgoing edges.

use vstd::prelude::*;
use vstd::laws_eq::obeys_concrete_eq;
use super::{Edge, EdgeIterator, Vertex, VertexIterator};
use super::{edge_chain, edge_chains};
use super::vertex_utils;
use super::model::{
    distinct_targets, has_edge, with_edge_value, without_edge, EdgeView, VertexView,
};
use super::preservation::{
    lemma_push_edge_distinct, lemma_with_edge_value_targets, lemma_without_edge,
};

verus! {

impl<K, L, V> Vertex<K, L, V> {
    /// A vertex under `key`, with no label, no edge and nothing behind it.
    pub fn new(key: K) -> (vertex: Vertex<K, L, V>)
        ensures
            vertex@ == (VertexView {
                key,
                label: None::<L>,
                edges: Seq::<EdgeView<K, V>>::empty(),
            }),
            vertex.rest() == Seq::<VertexView<K, L, V>>::empty(),
    {
        Vertex { key: key, label: None, edges: None, next: None }
    }

    /// A vertex under `key` with `label`, if there is one, no edge and
    /// nothing behind it.
    pub fn new_with_opt(key: K, label: Option<L>) -> (vertex: Vertex<K, L, V>)
        ensures
            vertex@ == (VertexView { key, label, edges: Seq::<EdgeView<K, V>>::empty() }),
            vertex.rest() == Seq::<VertexView<K, L, V>>::empty(),
    {
        Vertex { key: key, label: label, edges: None, next: None }
    }

    /// A vertex under `key` with no label, whose edges are those of `edges`
    /// in the order given. The edges are taken as they come: that no two of
    /// them lead to the same key is left to the caller.
    pub fn new_with_edges(key: K, edges: Vec<Box<Edge<K, V>>>) -> (vertex: Vertex<K, L, V>)
        ensures
            vertex@ == (VertexView { key, label: None::<L>, edges: edge_chains(edges@) }),
            vertex.rest() == Seq::<VertexView<K, L, V>>::empty(),
    {
        let mut vertex = Vertex { key: key, label: None, edges: None, next: None };
        for edge in it: edges
            invariant
                vertex.key == key,
                vertex.label == None::<L>,
                vertex.next == None::<Box<Vertex<K, L, V>>>,
                it.seq() == edges@,
                edge_chain(vertex.edges) == edge_chains(edges@.take(it.index() as int)),
        {
            assert(edges@.take(it.index() + 1).drop_last() =~= edges@.take(it.index() as int));
            vertex_utils::add_edge(&mut vertex.edges, edge);
        }
        assert(edges@.take(edges@.len() as int) =~= edges@);
        vertex
    }

    /// A vertex under `key` with `label`, no edge and nothing behind it.
    pub fn new_with_label(key: K, label: L) -> (vertex: Vertex<K, L, V>)
        ensures
            vertex@ == (VertexView {
                key,
                label: Some(label),
                edges: Seq::<EdgeView<K, V>>::empty(),
            }),
            vertex.rest() == Seq::<VertexView<K, L, V>>::empty(),
    {
        Vertex { key: key, label: Some(label), edges: None, next: None }
    }

    /// A vertex under `key` with `label`, whose edges are those of `edges` in
    /// the order given. The edges are taken as they come: that no two of them
    /// lead to the same key is left to the caller.
    pub fn new_with_label_edges(key: K, label: L, edges: Vec<Box<Edge<K, V>>>) -> (vertex: Vertex<
        K,
        L,
        V,
    >)
        ensures
            vertex@ == (VertexView { key, label: Some(label), edges: edge_chains(edges@) }),
            vertex.rest() == Seq::<VertexView<K, L, V>>::empty(),
    {
        let mut vertex = Vertex { key: key, label: Some(label), edges: None, next: None };
        for edge in it: edges
            invariant
                vertex.key == key,
                vertex.label == Some(label),
                vertex.next == None::<Box<Vertex<K, L, V>>>,
                it.seq() == edges@,
                edge_chain(vertex.edges) == edge_chains(edges@.take(it.index() as int)),
        {
            assert(edges@.take(it.index() + 1).drop_last() =~= edges@.take(it.index() as int));
            vertex_utils::add_edge(&mut vertex.edges, edge);
        }
        assert(edges@.take(edges@.len() as int) =~= edges@);
        vertex
    }

    /// The label of the vertex, if it has one.
    pub fn get_label<'r>(&'r self) -> (label: Option<&'r L>)
        ensures
            match label {
                Some(l) => self@.label == Some(*l),
                None => self@.label is None,
            },
    {
        match self.label {
            Some(ref l) => Some(l),
            None => None,
        }
    }

    /// Gives the vertex the label `new_label`, in place of any it had.
    pub fn set_label(&mut self, new_label: L)
        ensures
            final(self)@ == (VertexView {
                key: old(self)@.key,
                label: Some(new_label),
                edges: old(self)@.edges,
            }),
            final(self).rest() == old(self).rest(),
    {
        self.label = Some(new_label)
    }

    /// Takes the label off the vertex; one without a label stays as it is.
    pub fn remove_label(&mut self)
        ensures
            final(self)@ == (VertexView {
                key: old(self)@.key,
                label: None::<L>,
                edges: old(self)@.edges,
            }),
            final(self).rest() == old(self).rest(),
            old(self)@.label is None ==> *final(self) == *old(self),
    {
        self.label = None
    }

    /// A walk over the outgoing edges of the vertex, oldest first.
    pub fn edges_iter<'r>(&'r self) -> (walk: EdgeIterator<'r, K, V>)
        ensures
            walk.remaining() == self@.edges,
    {
        EdgeIterator { head: &self.edges }
    }
}

impl<K: PartialEq, L, V> Vertex<K, L, V> {
    /// Whether the vertex has an edge to `key`.
    pub fn edge_exist(&self, key: &K) -> (exists: bool)
        ensures
            obeys_concrete_eq::<K>() ==> exists == has_edge(self@.edges, *key),
    {
        match vertex_utils::get_edge_imm(&self.edges, key) {
            Some(_) => true,
            None => false,
        }
    }

    /// Adds an edge to `to_key` that carries `value`, if there is one, behind
    /// the edges that the vertex has. A vertex that already has an edge to
    /// `to_key` is left as it is, and the answer is `false`.
    pub fn add_edge_opt_v(&mut self, to_key: K, value: Option<V>) -> (added: bool)
        ensures
            obeys_concrete_eq::<K>() ==> added == !has_edge(old(self)@.edges, to_key),
            added ==> final(self)@ == (VertexView {
                key: old(self)@.key,
                label: old(self)@.label,
                edges: old(self)@.edges.push(EdgeView { to_key, value }),
            }),
            added ==> final(self).rest() == old(self).rest(),
            !added ==> *final(self) == *old(self),
            obeys_concrete_eq::<K>() && distinct_targets(old(self)@.edges) ==> distinct_targets(
                final(self)@.edges,
            ),
    {
        if !self.edge_exist(&to_key) {
            match value {
                Some(v) => vertex_utils::add_edge(
                    &mut self.edges,
                    Box::new(Edge::new_with_value(to_key, v)),
                ),
                None => vertex_utils::add_edge(&mut self.edges, Box::new(Edge::new(to_key))),
            }
            proof {
                let edge = EdgeView { to_key, value };
                assert(self@.edges =~= old(self)@.edges.push(edge));
                if obeys_concrete_eq::<K>() && distinct_targets(old(self)@.edges) {
                    lemma_push_edge_distinct(old(self)@.edges, edge);
                }
            }
            true
        } else {
            false
        }
    }

    /// Adds an edge to `to_key` that carries `value`. A vertex that already
    /// has an edge to `to_key` is left as it is, and the answer is `false`.
    pub fn add_edge_v(&mut self, to_key: K, value: V) -> (added: bool)
        ensures
            obeys_concrete_eq::<K>() ==> added == !has_edge(old(self)@.edges, to_key),
            added ==> final(self)@ == (VertexView {
                key: old(self)@.key,
                label: old(self)@.label,
                edges: old(self)@.edges.push(EdgeView { to_key, value: Some(value) }),
            }),
            added ==> final(self).rest() == old(self).rest(),
            !added ==> *final(self) == *old(self),
            obeys_concrete_eq::<K>() && distinct_targets(old(self)@.edges) ==> distinct_targets(
                final(self)@.edges,
            ),
    {
        if !self.edge_exist(&to_key) {
            vertex_utils::add_edge(&mut self.edges, Box::new(Edge::new_with_value(to_key, value)));
            proof {
                let edge = EdgeView { to_key, value: Some(value) };
                assert(self@.edges =~= old(self)@.edges.push(edge));
                if obeys_concrete_eq::<K>() && distinct_targets(old(self)@.edges) {
                    lemma_push_edge_distinct(old(self)@.edges, edge);
                }
            }
            true
        } else {
            false
        }
    }

    /// Adds an edge to `to_key` that carries no value. A vertex that already
    /// has an edge to `to_key` is left as it is, and the answer is `false`.
    pub fn add_edge(&mut self, to_key: K) -> (added: bool)
        ensures
            obeys_concrete_eq::<K>() ==> added == !has_edge(old(self)@.edges, to_key),
            added ==> final(self)@ == (VertexView {
                key: old(self)@.key,
                label: old(self)@.label,
                edges: old(self)@.edges.push(EdgeView { to_key, value: None::<V> }),
            }),
            added ==> final(self).rest() == old(self).rest(),
            !added ==> *final(self) == *old(self),
            obeys_concrete_eq::<K>() && distinct_targets(old(self)@.edges) ==> distinct_targets(
                final(self)@.edges,
            ),
    {
        if !self.edge_exist(&to_key) {
            vertex_utils::add_edge(&mut self.edges, Box::new(Edge::new(to_key)));
            proof {
                let edge = EdgeView { to_key, value: None::<V> };
                assert(self@.edges =~= old(self)@.edges.push(edge));
                if obeys_concrete_eq::<K>() && distinct_targets(old(self)@.edges) {
                    lemma_push_edge_distinct(old(self)@.edges, edge);
                }
            }
            true
        } else {
            false
        }
    }

    /// Removes the edge to `to_key`, wherever in the chain it stands. A
    /// vertex without such an edge is left as it is, and the answer is
    /// `false`.
    pub fn remove_edge(&mut self, to_key: K) -> (removed: bool)
        ensures
            obeys_concrete_eq::<K>() ==> removed == has_edge(old(self)@.edges, to_key),
            obeys_concrete_eq::<K>() ==> final(self)@ == (VertexView {
                key: old(self)@.key,
                label: old(self)@.label,
                edges: without_edge(old(self)@.edges, to_key),
            }),
            final(self)@.key == old(self)@.key,
            final(self)@.label == old(self)@.label,
            final(self).rest() == old(self).rest(),
            !removed ==> *final(self) == *old(self),
            obeys_concrete_eq::<K>() && distinct_targets(old(self)@.edges) ==> distinct_targets(
                final(self)@.edges,
            ),
    {
        if self.edge_exist(&to_key) {
            proof {
                if distinct_targets(self@.edges) {
                    lemma_without_edge(self@.edges, to_key);
                }
            }
            vertex_utils::remove_edge(&mut self.edges, &to_key);
            true
        } else {
            false
        }
    }

    /// Gives the edge to `to_key` the value `new_value`, or none. A vertex
    /// without such an edge is left as it is, and the answer is `false`.
    pub fn set_edge_value_opt(&mut self, to_key: K, new_value: Option<V>) -> (set: bool)
        ensures
            obeys_concrete_eq::<K>() ==> set == has_edge(old(self)@.edges, to_key),
            obeys_concrete_eq::<K>() ==> final(self)@ == (VertexView {
                key: old(self)@.key,
                label: old(self)@.label,
                edges: with_edge_value(old(self)@.edges, to_key, new_value),
            }),
            final(self)@.key == old(self)@.key,
            final(self)@.label == old(self)@.label,
            final(self).rest() == old(self).rest(),
            !set ==> *final(self) == *old(self),
            obeys_concrete_eq::<K>() && distinct_targets(old(self)@.edges) ==> distinct_targets(
                final(self)@.edges,
            ),
    {
        if self.edge_exist(&to_key) {
            proof {
                lemma_with_edge_value_targets(self@.edges, to_key, new_value);
            }
            vertex_utils::update_edge_value(&mut self.edges, new_value, &to_key);
            true
        } else {
            false
        }
    }

    /// Gives the edge to `to_key` the value `new_value`. A vertex without
    /// such an edge is left as it is, and the answer is `false`.
    pub fn set_edge_value(&mut self, to_key: K, new_value: V) -> (set: bool)
        ensures
            obeys_concrete_eq::<K>() ==> set == has_edge(old(self)@.edges, to_key),
            obeys_concrete_eq::<K>() ==> final(self)@ == (VertexView {
                key: old(self)@.key,
                label: old(self)@.label,
                edges: with_edge_value(old(self)@.edges, to_key, Some(new_value)),
            }),
            final(self)@.key == old(self)@.key,
            final(self)@.label == old(self)@.label,
            final(self).rest() == old(self).rest(),
            !set ==> *final(self) == *old(self),
            obeys_concrete_eq::<K>() && distinct_targets(old(self)@.edges) ==> distinct_targets(
                final(self)@.edges,
            ),
    {
        if self.edge_exist(&to_key) {
            proof {
                lemma_with_edge_value_targets(self@.edges, to_key, Some(new_value));
            }
            vertex_utils::update_edge_value(&mut self.edges, Some(new_value), &to_key);
            true
        } else {
            false
        }
    }

    /// Takes the value off the edge to `to_key`; an edge without a value
    /// stays as it is. A vertex without such an edge is left as it is, and
    /// the answer is `false`.
    pub fn remove_edge_value(&mut self, to_key: K) -> (cleared: bool)
        ensures
            obeys_concrete_eq::<K>() ==> cleared == has_edge(old(self)@.edges, to_key),
            obeys_concrete_eq::<K>() ==> final(self)@ == (VertexView {
                key: old(self)@.key,
                label: old(self)@.label,
                edges: with_edge_value(old(self)@.edges, to_key, None::<V>),
            }),
            final(self)@.key == old(self)@.key,
            final(self)@.label == old(self)@.label,
            final(self).rest() == old(self).rest(),
            !cleared ==> *final(self) == *old(self),
            obeys_concrete_eq::<K>() && distinct_targets(old(self)@.edges) ==> distinct_targets(
                final(self)@.edges,
            ),
    {
        if self.edge_exist(&to_key) {
            proof {
                lemma_with_edge_value_targets(self@.edges, to_key, None::<V>);
            }
            vertex_utils::update_edge_value(&mut self.edges, None, &to_key);
            true
        } else {
            false
        }
    }
}

impl<'s, K, L, V> VertexIterator<'s, K, L, V> {
    /// Hands out the next vertex of the walk, as its key and its label, and
    /// steps past it; nothing once the chain is used up.
    pub fn next(&mut self) -> (item: Option<(&'s K, Option<&'s L>)>)
        ensures
            match item {
                Some((key, label)) => {
                    &&& old(self).remaining().len() > 0
                    &&& *key == old(self).remaining()[0].key
                    &&& match label {
                        Some(l) => old(self).remaining()[0].label == Some(*l),
                        None => old(self).remaining()[0].label is None,
                    }
                    &&& final(self).remaining() == old(self).remaining().drop_first()
                },
                None => {
                    &&& old(self).remaining().len() == 0
                    &&& final(self).remaining() == old(self).remaining()
                },
            },
    {
        match self.head {
            Some(head) => {
                self.head = &head.next;
                Some((&head.key, head.label.as_ref()))
            },
            None => None,
        }
    }
}

} // verus!
