//! Skeleton of an ordered associative container over pool storage.
//!
//! Only construction and the colour test exist; whether ordered storage is
//! needed by any consumer at all is an open question, so no insertion or
//! lookup is offered.

use vstd::prelude::*;

use crate::pool::PoolType;

verus! {

/// Node colour of a red-black tree.
#[derive(Clone, Copy, Debug, PartialEq, Eq, Structural)]
pub enum Color {
    Red,
    Black,
}

/// One tree node: a key, its value, child arena indices, and a colour.
pub struct Node<K, V> {
    pub key: K,
    pub value: V,
    pub left: Option<usize>,
    pub right: Option<usize>,
    pub color: Color,
}

/// A red-black tree keyed by `K`, its nodes drawn from pool storage.
pub struct RedBlackTree<K, V> {
    root: Option<Node<K, V>>,
    pool_type: PoolType,
    tag: u32,
}

impl<K, V> RedBlackTree<K, V> {
    /// The root node, if any.
    pub closed spec fn root_spec(self) -> Option<Node<K, V>> {
        self.root
    }

    /// The tag the tree's allocations are made under.
    pub closed spec fn tag_spec(self) -> u32 {
        self.tag
    }

    /// The pool kind the tree's allocations are made from.
    pub closed spec fn pool_type_spec(self) -> PoolType {
        self.pool_type
    }

    /// An empty tree that will draw its nodes from the given pool kind under
    /// `tag`.
    pub fn new(pool_type: PoolType, tag: u32) -> (t: RedBlackTree<K, V>)
        ensures
            t.root_spec() is None,
            t.tag_spec() == tag,
            t.pool_type_spec() == pool_type,
    {
        RedBlackTree { root: None, pool_type, tag }
    }

    /// Whether an optional node is red; an absent node counts as black.
    pub fn is_red(node: &Option<Node<K, V>>) -> (r: bool)
        ensures
            r == match node {
                Option::Some(n) => n.color == Color::Red,
                Option::None => false,
            },
    {
        match node {
            Some(n) => n.color == Color::Red,
            None => false,
        }
    }
}

} // verus!
