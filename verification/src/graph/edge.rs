//! Building edges, and walking a chain of them.

use vstd::prelude::*;
use super::{Edge, EdgeIterator};
use super::model::EdgeView;

verus! {

impl<K, V> Edge<K, V> {
    /// An edge to `to_key` that carries no value and has nothing behind it.
    pub fn new(to_key: K) -> (edge: Edge<K, V>)
        ensures
            edge@ == (EdgeView { to_key, value: None::<V> }),
            edge.rest() == Seq::<EdgeView<K, V>>::empty(),
    {
        Edge { value: None, to_key: to_key, next: None }
    }

    /// An edge to `to_key` that carries `value`, if there is one, and has
    /// nothing behind it.
    pub fn new_with_opt(to_key: K, value: Option<V>) -> (edge: Edge<K, V>)
        ensures
            edge@ == (EdgeView { to_key, value }),
            edge.rest() == Seq::<EdgeView<K, V>>::empty(),
    {
        Edge { value: value, to_key: to_key, next: None }
    }

    /// An edge to `to_key` that carries `value` and has nothing behind it.
    pub fn new_with_value(to_key: K, value: V) -> (edge: Edge<K, V>)
        ensures
            edge@ == (EdgeView { to_key, value: Some(value) }),
            edge.rest() == Seq::<EdgeView<K, V>>::empty(),
    {
        Edge { value: Some(value), to_key: to_key, next: None }
    }
}

impl<'s, K, V> EdgeIterator<'s, K, V> {
    /// Hands out the next edge of the walk, as its target key and its value,
    /// and steps past it; nothing once the chain is used up.
    pub fn next(&mut self) -> (item: Option<(&'s K, Option<&'s V>)>)
        ensures
            match item {
                Some((to_key, value)) => {
                    &&& old(self).remaining().len() > 0
                    &&& *to_key == old(self).remaining()[0].to_key
                    &&& match value {
                        Some(v) => old(self).remaining()[0].value == Some(*v),
                        None => old(self).remaining()[0].value is None,
                    }
                    &&& final(self).remaining() == old(self).remaining().drop_first()
                },
                None => {
                    &&& old(self).remaining().len() == 0
                    &&& final(self).remaining() == old(self).remaining()
                },
            },
    {
        match self.head {
            Some(head) => {
                self.head = &head.next;
                Some((&head.to_key, head.value.as_ref()))
            },
            None => None,
        }
    }
}

} // verus!
