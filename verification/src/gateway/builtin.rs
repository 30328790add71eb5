//! The built-in routes of the gateway: their parameters, and which nodes
//! they answer with.
use vstd::prelude::*;
use crate::utils::items::Node;
use crate::utils::text::str_equal;

verus! {

/// Parameters of the node-details route.
pub struct NodeDetailsQuery {
    pub id: String,
}

/// Parameters of the node-connections route.
pub struct NodeConnectionsQuery {
    pub node_id: String,
}

/// Parameters of the nodes-by-label route.
pub struct NodesByLabelQuery {
    pub label: String,
    pub limit: Option<usize>,
}

/// Options of the gateway.
pub struct GatewayOpts {}

impl GatewayOpts {
    /// The number of workers when none is configured.
    pub const DEFAULT_POOL_SIZE: usize = 8;
}

/// The nodes of `nodes`, in order, whose label is `label`, stopping once
/// `limit` of them were taken; the limit is checked after each node taken,
/// so a limit of 0 still takes the first one.
pub open spec fn nodes_with_label(nodes: Seq<Node>, label: Seq<char>, limit: Option<usize>) -> Seq<Node>
    decreases nodes.len(),
{
    if nodes.len() == 0 {
        Seq::empty()
    } else {
        let rest = nodes_with_label(nodes.drop_last(), label, limit);
        let full = match limit {
            Some(l) => rest.len() >= l && rest.len() >= 1,
            None => false,
        };
        if nodes.last().label@ == label && !full {
            rest.push(nodes.last())
        } else {
            rest
        }
    }
}

/// Selects the nodes with a label, at most `limit` of them, in the order
/// the store yields them.
pub fn select_nodes_by_label(nodes: Vec<Node>, label: &str, limit: Option<usize>) -> (r: Vec<Node>)
    ensures
        r@ == nodes_with_label(nodes@, label@, limit),
{
    let mut out: Vec<Node> = Vec::new();
    let ghost all = nodes@;
    for node in it: nodes.into_iter()
        invariant
            it.seq() == all,
            out@ == nodes_with_label(all.take(it.index()), label@, limit),
    {
        assert(all.take(it.index() + 1).drop_last() =~= all.take(it.index()));
        assert(all.take(it.index() + 1).last() == node);
        let full = match limit {
            Some(l) => out.len() >= l && out.len() >= 1,
            None => false,
        };
        if str_equal(node.label.as_str(), label) && !full {
            out.push(node);
        }
    }
    assert(all.take(all.len() as int) =~= all);
    out
}

} // verus!
