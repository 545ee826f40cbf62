//! A directed graph kept as two nested singly linked chains: the graph owns a
//! chain of vertices, and every vertex owns the chain of its outgoing edges.
//!
//! Vertices are told apart by their key, edges of one vertex by the key they
//! lead to. A vertex may carry a label and an edge a value. Whatever can go
//! wrong (a key that is taken, a vertex or an edge that is missing) is
//! answered with `false` or `None`, and the graph is then left untouched.
//!
//! Every operation comes with a contract over the sequence of vertices that
//! the graph stands for, see [`graph::model`]. Where an operation compares
//! keys, its contract speaks for key types whose `==` is equality of values
//! (`vstd::laws_eq::obeys_concrete_eq`), as it is for the integers. What the
//! operations guarantee together is collected in [`graph::laws`].

pub mod graph;

pub use graph::Graph;
pub use graph::{Edge, EdgeIterator};
pub use graph::{Vertex, VertexIterator};
