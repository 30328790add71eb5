pub mod builtin;
pub mod embedding;
pub mod mcp;
pub mod router;
pub mod tools;
