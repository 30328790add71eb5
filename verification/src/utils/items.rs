//! Nodes and edges of the graph, and the fixed layout of an adjacency entry.
use vstd::prelude::*;
use crate::engine::types::GraphError;
use crate::protocol::value::Value;
use crate::utils::text::str_equal;

verus! {

/// The value stored under `key` in a property list: the first pair whose
/// key it is.
pub open spec fn property_lookup(props: Seq<(String, Value)>, key: Seq<char>) -> Option<Value>
    decreases props.len(),
{
    if props.len() == 0 {
        None
    } else if props[0].0@ == key {
        Some(props[0].1)
    } else {
        property_lookup(props.drop_first(), key)
    }
}

/// Looks up `key` in a property list.
pub fn find_property<'a>(props: &'a Vec<(String, Value)>, key: &str) -> (r: Option<&'a Value>)
    ensures
        match r {
            Some(v) => property_lookup(props@, key@) == Some(*v),
            None => property_lookup(props@, key@) is None,
        },
{
    let mut i: usize = 0;
    assert(props@.skip(0) =~= props@);
    while i < props.len()
        invariant
            i <= props.len(),
            property_lookup(props@, key@) == property_lookup(props@.skip(i as int), key@),
        decreases props.len() - i,
    {
        assert(props@.skip(i as int)[0] == props@[i as int]);
        assert(props@.skip(i as int).drop_first() =~= props@.skip(i + 1));
        if str_equal(props[i].0.as_str(), key) {
            return Some(&props[i].1);
        }
        i = i + 1;
    }
    None
}

/// A node of the graph: an ID, a label and optional properties.
pub struct Node {
    pub id: u128,
    pub label: String,
    pub properties: Option<Vec<(String, Value)>>,
}

impl Node {
    /// The number of fields a node has besides its properties.
    pub const NUM_PROPERTIES: usize = 2;
}

/// An edge of the graph between two nodes.
pub struct Edge {
    pub id: u128,
    pub label: String,
    pub from_node: u128,
    pub to_node: u128,
    pub properties: Option<Vec<(String, Value)>>,
}

impl Edge {
    /// The number of fields an edge has besides its properties.
    pub const NUM_PROPERTIES: usize = 4;
}

/// An entry of an adjacency list: the edge and the node at its other end, as
/// big-endian bytes.
pub struct DirectedEdge {
    pub edge_id: [u8; 16],
    pub other_node_id: [u8; 16],
}

/// The 32 stored bytes of an adjacency entry.
pub open spec fn directed_edge_bytes(e: DirectedEdge) -> Seq<u8> {
    e.edge_id@ + e.other_node_id@
}

impl DirectedEdge {
    /// The 32 bytes under which the entry is stored: the edge ID, then the
    /// ID of the node at the other end.
    pub fn encode(&self) -> (r: [u8; 32])
        ensures
            r@ == directed_edge_bytes(*self),
    {
        let mut buf = [0u8; 32];
        let mut i: usize = 0;
        while i < 16
            invariant
                i <= 16,
                forall|j: int| 0 <= j < i ==> buf@[j] == self.edge_id@[j],
                forall|j: int| 16 <= j < 16 + i ==> buf@[j] == self.other_node_id@[j - 16],
            decreases 16 - i,
        {
            buf[i] = self.edge_id[i];
            buf[16 + i] = self.other_node_id[i];
            i = i + 1;
        }
        assert(buf@ =~= directed_edge_bytes(*self));
        buf
    }

    /// Reads an entry back from the first 32 of the stored bytes; fewer
    /// than 32 bytes are refused with a slice length error.
    pub fn decode(bytes: &[u8]) -> (r: Result<DirectedEdge, GraphError>)
        ensures
            bytes@.len() < 32 <==> r matches Err(GraphError::SliceLengthError),
            r matches Ok(e) ==> e.edge_id@ == bytes@.subrange(0, 16) && e.other_node_id@ == bytes@.subrange(16, 32),
            r is Err ==> r matches Err(GraphError::SliceLengthError),
    {
        if bytes.len() < 32 {
            return Err(GraphError::SliceLengthError);
        }
        let mut edge_id = [0u8; 16];
        let mut other_node_id = [0u8; 16];
        let mut i: usize = 0;
        while i < 16
            invariant
                i <= 16,
                bytes@.len() >= 32,
                forall|j: int| 0 <= j < i ==> edge_id@[j] == bytes@[j],
                forall|j: int| 0 <= j < i ==> other_node_id@[j] == bytes@[16 + j],
            decreases 16 - i,
        {
            edge_id[i] = bytes[i];
            other_node_id[i] = bytes[16 + i];
            i = i + 1;
        }
        assert(edge_id@ =~= bytes@.subrange(0, 16));
        assert(other_node_id@ =~= bytes@.subrange(16, 32));
        Ok(DirectedEdge { edge_id, other_node_id })
    }
}

/// Decoding the bytes an adjacency entry was encoded into gives the entry back.
pub proof fn lemma_directed_edge_roundtrip(e: DirectedEdge, bytes: Seq<u8>)
    requires
        bytes == directed_edge_bytes(e),
    ensures
        bytes.subrange(0, 16) == e.edge_id@,
        bytes.subrange(16, 32) == e.other_node_id@,
{
    assert(bytes.subrange(0, 16) =~= e.edge_id@);
    assert(bytes.subrange(16, 32) =~= e.other_node_id@);
}

} // verus!
