pub mod ast;
pub mod lexer;
pub mod cursor;
pub mod definitions;
pub mod values;
pub mod expressions;
pub mod helix_parser;
pub mod field_type;
pub mod field_type_eq;
