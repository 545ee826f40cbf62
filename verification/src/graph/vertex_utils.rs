//! Walks over a chain of edges: find, append, update and unlink by target key.

use vstd::prelude::*;
use vstd::laws_eq::obeys_concrete_eq;
use super::Edge;
use super::edge_chain;
use super::model::{
    edge_index, lemma_edge_index, lemma_edge_index_cons, lemma_with_edge_value_cons,
    lemma_without_edge_cons, with_edge_value, without_edge,
};

verus! {

/// Replaces the value of the first edge of the chain that leads to `to_key`
/// by `value`, and leaves a chain without such an edge as it is.
pub fn update_edge_value<K: PartialEq, V>(
    edge: &mut Option<Box<Edge<K, V>>>,
    value: Option<V>,
    to_key: &K,
)
    ensures
        obeys_concrete_eq::<K>() ==> edge_chain(*final(edge)) == with_edge_value(
            edge_chain(*old(edge)),
            *to_key,
            value,
        ),
    decreases *old(edge),
{
    proof {
        reveal(obeys_concrete_eq);
    }
    match edge {
        Some(e) => {
            proof {
                lemma_with_edge_value_cons(e@, e.rest(), *to_key, value);
            }
            if e.to_key == *to_key {
                e.value = value;
            } else {
                update_edge_value(&mut e.next, value, to_key)
            }
        },
        None => {},
    }
}

/// Unlinks the first edge of the chain that leads to `to_key`, the head
/// included, and leaves a chain without such an edge as it is.
pub fn remove_edge<K: PartialEq, V>(edge: &mut Option<Box<Edge<K, V>>>, to_key: &K)
    ensures
        obeys_concrete_eq::<K>() ==> edge_chain(*final(edge)) == without_edge(
            edge_chain(*old(edge)),
            *to_key,
        ),
    decreases *old(edge),
{
    proof {
        reveal(obeys_concrete_eq);
    }
    match edge {
        Some(e) => {
            proof {
                lemma_without_edge_cons(e@, e.rest(), *to_key);
            }
            if e.to_key == *to_key {
                let rest = e.next.take();
                *edge = rest;
            } else {
                remove_edge(&mut e.next, to_key)
            }
        },
        None => {},
    }
}

/// Finds the first edge of the chain that leads to `to_key`.
pub fn get_edge_imm<'r, K: PartialEq, V>(edge: &'r Option<Box<Edge<K, V>>>, to_key: &K) -> (found:
    Option<&'r Box<Edge<K, V>>>)
    ensures
        obeys_concrete_eq::<K>() ==> match edge_index(edge_chain(*edge), *to_key) {
            Some(i) => found matches Some(e) && e@ == edge_chain(*edge)[i] && e.rest()
                == edge_chain(*edge).skip(i + 1),
            None => found is None,
        },
    decreases edge,
{
    proof {
        reveal(obeys_concrete_eq);
    }
    match edge {
        Some(e) => {
            proof {
                lemma_edge_index_cons(e@, e.rest(), *to_key);
                lemma_edge_index(e.rest(), *to_key);
            }
            if e.to_key == *to_key {
                Some(e)
            } else {
                get_edge_imm(&e.next, to_key)
            }
        },
        None => None,
    }
}

/// Hangs `new_edge`, with whatever follows it, behind the last edge of the
/// chain. Whether the chain already leads to the same key is not looked at.
pub fn add_edge<K, V>(edge: &mut Option<Box<Edge<K, V>>>, new_edge: Box<Edge<K, V>>)
    ensures
        edge_chain(*final(edge)) == edge_chain(*old(edge)) + edge_chain(Some(new_edge)),
    decreases *old(edge),
{
    match edge {
        Some(e) => add_edge(&mut e.next, new_edge),
        None => {
            *edge = Some(new_edge);
        },
    }
}

} // verus!
