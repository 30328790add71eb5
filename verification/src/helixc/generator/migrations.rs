//! Generated migrations between schema versions.
use vstd::prelude::*;
use crate::helixc::generator::utils::{GeneratedValue, Separator};
use crate::helixc::parser::ast::FieldType;

verus! {

/// A migration from one schema version to another.
#[derive(Debug)]
pub struct GeneratedMigration {
    pub from_version: String,
    pub to_version: String,
    pub body: Vec<GeneratedMigrationItemMapping>,
}

/// How the items of one type move to the new version.
#[derive(Debug)]
pub struct GeneratedMigrationItemMapping {
    pub from_item: String,
    pub to_item: String,
    pub remappings: Vec<Separator<GeneratedMigrationPropertyMapping>>,
    pub should_spread: bool,
}

/// How one property of a migrated item gets its value.
#[derive(Debug)]
pub enum GeneratedMigrationPropertyMapping {
    FieldAdditionFromOldField { old_field: GeneratedValue, new_field: GeneratedValue },
    FieldAdditionFromValue { new_field: GeneratedValue, value: GeneratedValue },
    FieldTypeCast { field: GeneratedValue, cast: FieldType },
}

} // verus!
