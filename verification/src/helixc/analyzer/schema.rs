//! The schema as the analyzer sees it: which types exist, their fields,
//! and the checks made on the schema itself.
use vstd::prelude::*;
use crate::helixc::parser::ast::{Field, Schema};

verus! {

/// Whether a node type of name `n` is declared.
pub open spec fn node_declared(s: Schema, n: Seq<char>) -> bool {
    exists|i: int| 0 <= i < s.node_schemas@.len() && #[trigger] s.node_schemas@[i].name.1@ == n
}

/// Whether a vector type of name `n` is declared.
pub open spec fn vector_declared(s: Schema, n: Seq<char>) -> bool {
    exists|i: int| 0 <= i < s.vector_schemas@.len() && #[trigger] s.vector_schemas@[i].name@ == n
}

/// Whether an edge type of name `n` is declared.
pub open spec fn edge_declared(s: Schema, n: Seq<char>) -> bool {
    exists|i: int| 0 <= i < s.edge_schemas@.len() && #[trigger] s.edge_schemas@[i].name.1@ == n
}

/// Whether a list of fields has one named `f`.
pub open spec fn has_field(fields: Seq<Field>, f: Seq<char>) -> bool {
    exists|j: int| 0 <= j < fields.len() && #[trigger] fields[j].name@ == f
}

/// Whether a node type named `n` has a field named `f`.
pub open spec fn node_has_field(s: Schema, n: Seq<char>, f: Seq<char>) -> bool {
    exists|i: int| 0 <= i < s.node_schemas@.len() && #[trigger] s.node_schemas@[i].name.1@ == n
        && has_field(s.node_schemas@[i].fields@, f)
}

/// Whether a vector type named `n` has a field named `f`.
pub open spec fn vector_has_field(s: Schema, n: Seq<char>, f: Seq<char>) -> bool {
    exists|i: int| 0 <= i < s.vector_schemas@.len() && #[trigger] s.vector_schemas@[i].name@ == n
        && has_field(s.vector_schemas@[i].fields@, f)
}

/// Whether an edge type named `n` has a property named `f`.
pub open spec fn edge_has_field(s: Schema, n: Seq<char>, f: Seq<char>) -> bool {
    exists|i: int| 0 <= i < s.edge_schemas@.len() && #[trigger] s.edge_schemas@[i].name.1@ == n
        && (s.edge_schemas@[i].properties matches Some(ps) && has_field(ps@, f))
}

/// Whether edge `i` is the first edge type named `n`.
pub open spec fn first_edge(s: Schema, n: Seq<char>, i: int) -> bool {
    &&& 0 <= i < s.edge_schemas@.len()
    &&& s.edge_schemas@[i].name.1@ == n
    &&& forall|j: int| 0 <= j < i ==> #[trigger] s.edge_schemas@[j].name.1@ != n
}

/// Whether `fields` has a field named `f`.
pub fn find_field(fields: &Vec<Field>, f: &str) -> (r: bool)
    ensures
        r == has_field(fields@, f@),
{
    let mut j: usize = 0;
    while j < fields.len()
        invariant
            j <= fields@.len(),
            forall|k: int| 0 <= k < j ==> #[trigger] fields@[k].name@ != f@,
        decreases fields.len() - j,
    {
        if crate::utils::text::str_equal(fields[j].name.as_str(), f) {
            return true;
        }
        j = j + 1;
    }
    false
}

/// Whether a node type named `n` is declared.
pub fn is_node_type(s: &Schema, n: &str) -> (r: bool)
    ensures
        r == node_declared(*s, n@),
{
    let mut i: usize = 0;
    while i < s.node_schemas.len()
        invariant
            i <= s.node_schemas@.len(),
            forall|k: int| 0 <= k < i ==> #[trigger] s.node_schemas@[k].name.1@ != n@,
        decreases s.node_schemas.len() - i,
    {
        if crate::utils::text::str_equal(s.node_schemas[i].name.1.as_str(), n) {
            return true;
        }
        i = i + 1;
    }
    false
}

/// Whether a vector type named `n` is declared.
pub fn is_vector_type(s: &Schema, n: &str) -> (r: bool)
    ensures
        r == vector_declared(*s, n@),
{
    let mut i: usize = 0;
    while i < s.vector_schemas.len()
        invariant
            i <= s.vector_schemas@.len(),
            forall|k: int| 0 <= k < i ==> #[trigger] s.vector_schemas@[k].name@ != n@,
        decreases s.vector_schemas.len() - i,
    {
        if crate::utils::text::str_equal(s.vector_schemas[i].name.as_str(), n) {
            return true;
        }
        i = i + 1;
    }
    false
}

/// The index of the first edge type named `n`, if there is one.
pub fn find_edge(s: &Schema, n: &str) -> (r: Option<usize>)
    ensures
        match r {
            Some(i) => first_edge(*s, n@, i as int),
            None => !edge_declared(*s, n@),
        },
{
    let mut i: usize = 0;
    while i < s.edge_schemas.len()
        invariant
            i <= s.edge_schemas@.len(),
            forall|k: int| 0 <= k < i ==> #[trigger] s.edge_schemas@[k].name.1@ != n@,
        decreases s.edge_schemas.len() - i,
    {
        if crate::utils::text::str_equal(s.edge_schemas[i].name.1.as_str(), n) {
            return Some(i);
        }
        i = i + 1;
    }
    None
}

/// Whether a node type named `n` has a field named `f`.
pub fn node_field_exists(s: &Schema, n: &str, f: &str) -> (r: bool)
    ensures
        r == node_has_field(*s, n@, f@),
{
    let mut i: usize = 0;
    while i < s.node_schemas.len()
        invariant
            i <= s.node_schemas@.len(),
            forall|k: int| 0 <= k < i && #[trigger] s.node_schemas@[k].name.1@ == n@
                ==> !has_field(s.node_schemas@[k].fields@, f@),
        decreases s.node_schemas.len() - i,
    {
        if crate::utils::text::str_equal(s.node_schemas[i].name.1.as_str(), n)
            && find_field(&s.node_schemas[i].fields, f) {
            return true;
        }
        i = i + 1;
    }
    false
}

/// Whether a vector type named `n` has a field named `f`.
pub fn vector_field_exists(s: &Schema, n: &str, f: &str) -> (r: bool)
    ensures
        r == vector_has_field(*s, n@, f@),
{
    let mut i: usize = 0;
    while i < s.vector_schemas.len()
        invariant
            i <= s.vector_schemas@.len(),
            forall|k: int| 0 <= k < i && #[trigger] s.vector_schemas@[k].name@ == n@
                ==> !has_field(s.vector_schemas@[k].fields@, f@),
        decreases s.vector_schemas.len() - i,
    {
        if crate::utils::text::str_equal(s.vector_schemas[i].name.as_str(), n)
            && find_field(&s.vector_schemas[i].fields, f) {
            return true;
        }
        i = i + 1;
    }
    false
}

/// Whether an edge type named `n` has a property named `f`.
pub fn edge_field_exists(s: &Schema, n: &str, f: &str) -> (r: bool)
    ensures
        r == edge_has_field(*s, n@, f@),
{
    let mut i: usize = 0;
    while i < s.edge_schemas.len()
        invariant
            i <= s.edge_schemas@.len(),
            forall|k: int| 0 <= k < i && #[trigger] s.edge_schemas@[k].name.1@ == n@
                ==> !(s.edge_schemas@[k].properties matches Some(ps) && has_field(ps@, f@)),
        decreases s.edge_schemas.len() - i,
    {
        if crate::utils::text::str_equal(s.edge_schemas[i].name.1.as_str(), n) {
            match &s.edge_schemas[i].properties {
                Some(ps) => {
                    if find_field(ps, f) {
                        return true;
                    }
                },
                None => {},
            }
        }
        i = i + 1;
    }
    false
}

} // verus!
