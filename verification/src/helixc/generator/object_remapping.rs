//! Object remappings: how generated code gives each field of an object
//! step its value.
use vstd::prelude::*;
use crate::helixc::generator::utils::GenRef;

verus! {

/// Where a remapped traversal starts: from the element being remapped, or
/// from another variable.
#[derive(Debug)]
pub enum TraversalSource {
    NestedFrom(String),
    FromVar(String),
}

/// How one field of an object remapping gets its value.
#[derive(Debug)]
pub enum RemappingType {
    /// A literal value.
    ValueRemapping { variable_name: String, field_name: String, value: GenRef },
    /// What a traversal gives; `to_value` where it ends in a count or a
    /// comparison, so that it gives one value.
    TraversalRemapping { variable_name: String, new_field: String, source: TraversalSource, to_value: bool },
    /// A property of the element, fetched from it; `single` where it is
    /// fetched as one value rather than collected.
    PropertyRemapping { variable_name: String, new_field: String, property: String, single: bool },
    /// The value of a variable in scope.
    IdentifierRemapping { variable_name: String, field_name: String, identifier_value: String },
    /// A nested object.
    ObjectRemapping { variable_name: String, field_name: String, remapping: Remapping },
    /// Nothing, for a field whose value was refused.
    Empty,
}

/// The remapping of an object step on the variable `variable_name`.
#[derive(Debug)]
pub struct Remapping {
    pub variable_name: String,
    pub is_inner: bool,
    pub remappings: Vec<RemappingType>,
    pub should_spread: bool,
}

} // verus!
