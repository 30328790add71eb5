//! The items a traversal yields.
use vstd::prelude::*;
use crate::protocol::value::Value;
use crate::utils::items::{Edge, Node, find_property, property_lookup};

verus! {

/// One item yielded by a traversal.
pub enum TraversalValue {
    Node(Node),
    Edge(Edge),
    Count(u64),
    Value(Value),
    Empty,
}

/// The property `key` of an item: only nodes and edges have properties.
pub open spec fn item_property(item: TraversalValue, key: Seq<char>) -> Option<Value> {
    match item {
        TraversalValue::Node(n) => match n.properties {
            Some(p) => property_lookup(p@, key),
            None => None,
        },
        TraversalValue::Edge(e) => match e.properties {
            Some(p) => property_lookup(p@, key),
            None => None,
        },
        _ => None,
    }
}

impl TraversalValue {
    /// The value of property `key`, or `None` when the item has no such
    /// property.
    pub fn check_property(&self, key: &str) -> (r: Option<&Value>)
        ensures
            match r {
                Some(v) => item_property(*self, key@) == Some(*v),
                None => item_property(*self, key@) is None,
            },
    {
        match self {
            TraversalValue::Node(n) => match &n.properties {
                Some(p) => find_property(p, key),
                None => None,
            },
            TraversalValue::Edge(e) => match &e.properties {
                Some(p) => find_property(p, key),
                None => None,
            },
            _ => None,
        }
    }

    /// The ID of a node or an edge; 0 for any other item.
    pub fn id(&self) -> (r: u128)
        ensures
            r == (match *self {
                TraversalValue::Node(n) => n.id,
                TraversalValue::Edge(e) => e.id,
                _ => 0,
            }),
    {
        match self {
            TraversalValue::Node(n) => n.id,
            TraversalValue::Edge(e) => e.id,
            _ => 0,
        }
    }
}

} // verus!
