pub mod utils;
pub mod migrations;
pub mod queries;
pub mod return_values;
pub mod schemas;
pub mod statements;
pub mod object_remapping;
