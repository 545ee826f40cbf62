//! Walks over a chain of vertices: find, append, relabel and unlink by key,
//! and the sweep that drops the edges to a key from every vertex.

use vstd::prelude::*;
use vstd::laws_eq::obeys_concrete_eq;
use super::Vertex;
use super::vertex_chain;
use super::vertex_utils;
use super::model::{
    lemma_vertex_index, lemma_vertex_index_cons, lemma_with_label_cons,
    lemma_without_vertex_cons, vertex_index, with_label, without_edges_to, without_vertex,
};

verus! {

/// Unlinks the first vertex of the chain whose key is `key`, the head
/// included, and leaves a chain without such a vertex as it is.
pub fn remove_vertex<K: PartialEq, L, V>(vertex: &mut Option<Box<Vertex<K, L, V>>>, key: &K)
    ensures
        obeys_concrete_eq::<K>() ==> vertex_chain(*final(vertex)) == without_vertex(
            vertex_chain(*old(vertex)),
            *key,
        ),
    decreases *old(vertex),
{
    proof {
        reveal(obeys_concrete_eq);
    }
    match vertex {
        Some(v) => {
            proof {
                lemma_without_vertex_cons(v@, v.rest(), *key);
            }
            if v.key == *key {
                let rest = v.next.take();
                *vertex = rest;
            } else {
                remove_vertex(&mut v.next, key)
            }
        },
        None => {},
    }
}

/// Drops, from every vertex of the chain, its first edge to `key`.
pub fn remove_edge_to<K: PartialEq, L, V>(vertex: &mut Option<Box<Vertex<K, L, V>>>, key: &K)
    ensures
        obeys_concrete_eq::<K>() ==> vertex_chain(*final(vertex)) == without_edges_to(
            vertex_chain(*old(vertex)),
            *key,
        ),
    decreases *old(vertex),
{
    match vertex {
        Some(v) => {
            if v.edge_exist(key) {
                vertex_utils::remove_edge(&mut v.edges, key);
            }
            remove_edge_to(&mut v.next, key);
        },
        None => {},
    }
}

/// Finds the first vertex of the chain whose key is `key`, for changing it in
/// place. What the chain holds afterwards is what the caller leaves in the
/// vertex that was handed out.
pub fn get_vertex_mut<'r, K: PartialEq, L, V>(
    vertex: &'r mut Option<Box<Vertex<K, L, V>>>,
    key: &K,
) -> (found: Option<&'r mut Box<Vertex<K, L, V>>>)
    ensures
        found is None ==> *final(vertex) == *old(vertex),
        found is Some && *final(found.unwrap()) == *found.unwrap() ==> *final(vertex)
            == *old(vertex),
        obeys_concrete_eq::<K>() ==> match vertex_index(vertex_chain(*old(vertex)), *key) {
            Some(i) => {
                &&& found is Some
                &&& found.unwrap()@ == vertex_chain(*old(vertex))[i]
                &&& found.unwrap().rest() == vertex_chain(*old(vertex)).skip(i + 1)
                &&& vertex_chain(*final(vertex)) == vertex_chain(*old(vertex)).take(i) + seq![
                    final(found.unwrap())@,
                ] + final(found.unwrap()).rest()
            },
            None => found is None,
        },
    decreases *old(vertex),
{
    proof {
        reveal(obeys_concrete_eq);
    }
    match vertex {
        Some(v) => {
            proof {
                lemma_vertex_index_cons(v@, v.rest(), *key);
                lemma_vertex_index(v.rest(), *key);
            }
            if v.key == *key {
                Some(v)
            } else {
                get_vertex_mut(&mut v.next, key)
            }
        },
        None => None,
    }
}

/// Finds the first vertex of the chain whose key is `key`.
pub fn get_vertex_imm<'r, K: PartialEq, L, V>(
    vertex: &'r Option<Box<Vertex<K, L, V>>>,
    key: &K,
) -> (found: Option<&'r Box<Vertex<K, L, V>>>)
    ensures
        obeys_concrete_eq::<K>() ==> match vertex_index(vertex_chain(*vertex), *key) {
            Some(i) => found matches Some(v) && v@ == vertex_chain(*vertex)[i] && v.rest()
                == vertex_chain(*vertex).skip(i + 1),
            None => found is None,
        },
    decreases vertex,
{
    proof {
        reveal(obeys_concrete_eq);
    }
    match vertex {
        Some(v) => {
            proof {
                lemma_vertex_index_cons(v@, v.rest(), *key);
                lemma_vertex_index(v.rest(), *key);
            }
            if v.key == *key {
                Some(v)
            } else {
                get_vertex_imm(&v.next, key)
            }
        },
        None => None,
    }
}

/// Replaces the label of the first vertex of the chain whose key is `key` by
/// `label`, and leaves a chain without such a vertex as it is.
pub fn update_vertex_label<K: PartialEq, L, V>(
    vertex: &mut Option<Box<Vertex<K, L, V>>>,
    label: Option<L>,
    key: &K,
)
    ensures
        obeys_concrete_eq::<K>() ==> vertex_chain(*final(vertex)) == with_label(
            vertex_chain(*old(vertex)),
            *key,
            label,
        ),
    decreases *old(vertex),
{
    proof {
        reveal(obeys_concrete_eq);
    }
    match vertex {
        Some(v) => {
            proof {
                lemma_with_label_cons(v@, v.rest(), *key, label);
            }
            if v.key == *key {
                v.label = label;
            } else {
                update_vertex_label(&mut v.next, label, key)
            }
        },
        None => {},
    }
}

/// Hangs `new_vertex`, with whatever follows it, behind the last vertex of
/// the chain. Whether the chain already holds the same key is not looked at.
pub fn add_vertex<K, L, V>(
    vertex: &mut Option<Box<Vertex<K, L, V>>>,
    new_vertex: Box<Vertex<K, L, V>>,
)
    ensures
        vertex_chain(*final(vertex)) == vertex_chain(*old(vertex)) + vertex_chain(
            Some(new_vertex),
        ),
    decreases *old(vertex),
{
    match vertex {
        Some(v) => add_vertex(&mut v.next, new_vertex),
        None => {
            *vertex = Some(new_vertex);
        },
    }
}

/// The number of vertices of the chain.
pub fn chain_len<K, L, V>(vertex: &Option<Box<Vertex<K, L, V>>>) -> (len: usize)
    requires
        vertex_chain(*vertex).len() <= usize::MAX,
    ensures
        len == vertex_chain(*vertex).len(),
    decreases vertex,
{
    match vertex {
        Some(v) => 1 + chain_len(&v.next),
        None => 0,
    }
}

} // verus!
