pub mod location;
pub mod parser;
pub mod analyzer;
pub mod generator;
