//! Errors of the graph engine.
use vstd::prelude::*;

verus! {

/// An error of a graph operation.
pub enum GraphError {
    New(String),
    StorageError(String),
    ConversionError(String),
    DecodeError(String),
    ConfigFileNotFound,
    SliceLengthError,
}

} // verus!
