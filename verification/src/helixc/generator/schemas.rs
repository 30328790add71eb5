//! Generated schema types.
use vstd::prelude::*;
use crate::helixc::generator::utils::{GeneratedType, GeneratedValue};
use crate::helixc::parser::ast::FieldPrefix;

verus! {

/// A property of a generated schema type.
#[derive(Debug)]
pub struct SchemaProperty {
    pub name: String,
    pub field_type: GeneratedType,
    pub default_value: Option<GeneratedValue>,
    pub is_optional: bool,
    pub is_index: FieldPrefix,
}

/// A generated node type.
#[derive(Debug)]
pub struct NodeSchema {
    pub name: String,
    pub properties: Vec<SchemaProperty>,
}

/// A generated edge type.
#[derive(Debug)]
pub struct EdgeSchema {
    pub name: String,
    pub from: String,
    pub to: String,
    pub properties: Vec<SchemaProperty>,
}

/// A generated vector type.
#[derive(Debug)]
pub struct VectorSchema {
    pub name: String,
    pub properties: Vec<SchemaProperty>,
}

} // verus!
