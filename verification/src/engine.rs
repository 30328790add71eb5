pub mod config;
pub mod traversal_value;
pub mod types;
