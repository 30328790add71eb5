//! The tools an MCP client calls to walk and filter the graph.
use vstd::prelude::*;
use crate::engine::traversal_value::{TraversalValue, item_property};
use crate::protocol::value::{Rank, Value, compare_values, value_order};

verus! {

/// Which kind of item an edge step leads to.
#[derive(Debug, Clone, Copy, PartialEq, Eq, Structural)]
pub enum EdgeType {
    Node,
    Vec,
}

/// The arguments of one tool call.
pub enum ToolArgs {
    OutStep { edge_label: String, edge_type: EdgeType, filter: Option<FilterTraversal> },
    OutEStep { edge_label: String, filter: Option<FilterTraversal> },
    InStep { edge_label: String, edge_type: EdgeType, filter: Option<FilterTraversal> },
    InEStep { edge_label: String, filter: Option<FilterTraversal> },
    NFromType { node_type: String },
    EFromType { edge_type: String },
    FilterItems {
        properties: Option<Vec<(String, String)>>,
        filter_traversals: Option<Vec<ToolArgs>>,
    },
}

/// One condition on a property: `<property key> <operator> <value>`, with
/// equality when no operator is given.
pub struct FilterProperties {
    pub key: String,
    pub value: Value,
    pub operator: Option<Operator>,
}

/// A comparison operator of a filter.
#[derive(Debug, Clone, Copy, PartialEq, Eq, Structural)]
pub enum Operator {
    Eq,
    Neq,
    Gt,
    Lt,
    Gte,
    Lte,
}

/// Whether `a <op> b` holds.
pub open spec fn operator_holds(op: Operator, a: Value, b: Value) -> bool {
    let r = value_order(a, b);
    match op {
        Operator::Eq => r == Some(Rank::Equal),
        Operator::Neq => r != Some(Rank::Equal),
        Operator::Gt => r == Some(Rank::Greater),
        Operator::Lt => r == Some(Rank::Less),
        Operator::Gte => r == Some(Rank::Greater) || r == Some(Rank::Equal),
        Operator::Lte => r == Some(Rank::Less) || r == Some(Rank::Equal),
    }
}

impl Operator {
    /// Applies the operator to `value1` and `value2`.
    pub fn execute(&self, value1: &Value, value2: &Value) -> (r: bool)
        ensures
            r == operator_holds(*self, *value1, *value2),
    {
        let o = compare_values(value1, value2);
        match self {
            Operator::Eq => o == Some(Rank::Equal),
            Operator::Neq => o != Some(Rank::Equal),
            Operator::Gt => o == Some(Rank::Greater),
            Operator::Lt => o == Some(Rank::Less),
            Operator::Gte => o == Some(Rank::Greater) || o == Some(Rank::Equal),
            Operator::Lte => o == Some(Rank::Less) || o == Some(Rank::Equal),
        }
    }
}

/// Conditions on the items of a traversal: the properties must meet one of
/// the groups (all of its conditions), and each traversal must reach
/// something from the item.
pub struct FilterTraversal {
    pub properties: Option<Vec<Vec<FilterProperties>>>,
    pub filter_traversals: Option<Vec<ToolArgs>>,
}

/// Whether a property value meets a condition: under the operator, or equal
/// when there is none.
pub open spec fn value_meets(v: Value, target: Value, operator: Option<Operator>) -> bool {
    match operator {
        Some(op) => operator_holds(op, v, target),
        None => operator_holds(Operator::Eq, v, target),
    }
}

/// Comparison of a stored value with the value of a filter.
pub trait FilterValues {
    fn compare(&self, value: &Value, operator: Option<Operator>) -> bool;
}

impl FilterValues for Value {
    fn compare(&self, value: &Value, operator: Option<Operator>) -> (r: bool)
        ensures
            r == value_meets(*self, *value, operator),
    {
        match operator {
            Some(op) => op.execute(self, value),
            None => Operator::Eq.execute(self, value),
        }
    }
}

/// Whether an item meets every condition of a group.
pub open spec fn meets_all(item: TraversalValue, group: Seq<FilterProperties>) -> bool {
    forall|i: int|
        0 <= i < group.len() ==> match item_property(item, #[trigger] group[i].key@) {
            Some(v) => value_meets(v, group[i].value, group[i].operator),
            None => false,
        }
}

/// Whether an item meets some group of conditions.
pub open spec fn meets_any(item: TraversalValue, groups: Seq<Vec<FilterProperties>>) -> bool {
    exists|j: int| 0 <= j < groups.len() && meets_all(item, #[trigger] groups[j]@)
}

/// The items of `items`, in order, that meet some group of `groups`.
pub open spec fn items_meeting(items: Seq<TraversalValue>, groups: Seq<Vec<FilterProperties>>) -> Seq<TraversalValue>
    decreases items.len(),
{
    if items.len() == 0 {
        Seq::empty()
    } else {
        let rest = items_meeting(items.drop_last(), groups);
        if meets_any(items.last(), groups) {
            rest.push(items.last())
        } else {
            rest
        }
    }
}

/// Checks one group of conditions against an item.
fn check_group(item: &TraversalValue, group: &Vec<FilterProperties>) -> (r: bool)
    ensures
        r == meets_all(*item, group@),
{
    let mut i: usize = 0;
    while i < group.len()
        invariant
            i <= group.len(),
            forall|k: int|
                0 <= k < i ==> match item_property(*item, #[trigger] group@[k].key@) {
                    Some(v) => value_meets(v, group@[k].value, group@[k].operator),
                    None => false,
                },
        decreases group.len() - i,
    {
        let f = &group[i];
        match item.check_property(f.key.as_str()) {
            Some(v) => {
                if !v.compare(&f.value, f.operator) {
                    return false;
                }
            },
            None => {
                return false;
            },
        }
        i = i + 1;
    }
    true
}

/// Checks whether an item meets some group of conditions.
fn check_groups(item: &TraversalValue, groups: &Vec<Vec<FilterProperties>>) -> (r: bool)
    ensures
        r == meets_any(*item, groups@),
{
    let mut j: usize = 0;
    while j < groups.len()
        invariant
            j <= groups.len(),
            forall|k: int| 0 <= k < j ==> !meets_all(*item, #[trigger] groups@[k]@),
        decreases groups.len() - j,
    {
        if check_group(item, &groups[j]) {
            return true;
        }
        j = j + 1;
    }
    false
}

/// Keeps, in order, the items that meet the property conditions of a
/// filter; all items when it has none.
pub fn filter_items_by_properties(items: Vec<TraversalValue>, filter: &FilterTraversal) -> (r: Vec<TraversalValue>)
    ensures
        r@ == (match filter.properties {
            Some(groups) => items_meeting(items@, groups@),
            None => items@,
        }),
{
    match &filter.properties {
        None => items,
        Some(groups) => {
            let mut out: Vec<TraversalValue> = Vec::new();
            let ghost all = items@;
            for item in it: items.into_iter()
                invariant
                    it.seq() == all,
                    out@ == items_meeting(all.take(it.index()), groups@),
            {
                assert(all.take(it.index() + 1).drop_last() =~= all.take(it.index()));
                assert(all.take(it.index() + 1).last() == item);
                if check_groups(&item, groups) {
                    out.push(item);
                }
            }
            assert(all.take(all.len() as int) =~= all);
            out
        },
    }
}

} // verus!
