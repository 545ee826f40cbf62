//! Copies of edges, vertices and graphs: node by node, with everything that
//! hangs behind a node.

use vstd::prelude::*;
use super::{edge_chain, vertex_chain};
use super::{Edge, Graph, Vertex};
use super::model::{edge_cloned, edges_cloned, vertex_cloned, vertices_cloned};

verus! {

impl<K: Clone, V: Clone> Clone for Edge<K, V> {
    /// A copy of the edge and of the edges behind it, in the same order.
    fn clone(&self) -> (copy: Self)
        ensures
            edges_cloned(seq![self@] + self.rest(), seq![copy@] + copy.rest()),
        decreases self,
    {
        let copy = Edge {
            value: match &self.value {
                Some(v) => Some(v.clone()),
                None => None,
            },
            to_key: self.to_key.clone(),
            next: match &self.next {
                Some(n) => Some(Box::new((&**n).clone())),
                None => None,
            },
        };
        proof {
            let sources = seq![self@] + self.rest();
            let copies = seq![copy@] + copy.rest();
            assert forall|i: int| 0 <= i < sources.len() implies edge_cloned(
                #[trigger] sources[i],
                copies[i],
            ) by {}
        }
        copy
    }
}

impl<K: Clone, L: Clone, V: Clone> Clone for Vertex<K, L, V> {
    /// A copy of the vertex with its edges, and of the vertices behind it, in
    /// the same order.
    fn clone(&self) -> (copy: Self)
        ensures
            vertices_cloned(seq![self@] + self.rest(), seq![copy@] + copy.rest()),
        decreases self,
    {
        let copy = Vertex {
            key: self.key.clone(),
            label: match &self.label {
                Some(l) => Some(l.clone()),
                None => None,
            },
            edges: match &self.edges {
                Some(e) => Some(Box::new((&**e).clone())),
                None => None,
            },
            next: match &self.next {
                Some(n) => Some(Box::new((&**n).clone())),
                None => None,
            },
        };
        proof {
            let sources = seq![self@] + self.rest();
            let copies = seq![copy@] + copy.rest();
            assert forall|i: int| 0 <= i < sources.len() implies vertex_cloned(
                #[trigger] sources[i],
                copies[i],
            ) by {}
        }
        copy
    }
}

impl<K: Clone, L: Clone, V: Clone> Clone for Graph<K, L, V> {
    /// A copy of the graph: copies of its vertices in the same order, under
    /// the same count.
    fn clone(&self) -> (copy: Self)
        ensures
            vertices_cloned(self@, copy@),
            copy.len() == self.len(),
            copy.is_directed() == self.is_directed(),
    {
        Graph {
            vertices: match &self.vertices {
                Some(v) => Some(Box::new((&**v).clone())),
                None => None,
            },
            len: self.len,
            directed: self.directed,
        }
    }
}

} // verus!
