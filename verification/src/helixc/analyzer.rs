pub mod types;
pub mod error_codes;
pub mod diagnostic;
pub mod schema;
pub mod schema_check;
pub mod scope;
pub mod graph_step;
pub mod checks;
pub mod items;
pub mod infer;
pub mod query_check;
pub mod migration_check;
pub mod analyzer;
pub mod utils;
pub mod remapping;
