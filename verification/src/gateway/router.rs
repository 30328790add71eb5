//! Errors of the router.
use vstd::prelude::*;
use vstd::string::StringExecFns;
use crate::utils::text::push_str;

verus! {

/// An error of the router: of input or output (with the error's text), or
/// of the graph.
pub enum RouterError {
    Io(String),
    New(String),
}

impl RouterError {
    /// The text of the error.
    pub fn message(&self) -> (r: String)
        ensures
            r@ == (match *self {
                RouterError::Io(e) => "IO error: "@ + e@,
                RouterError::New(m) => "Graph error: "@ + m@,
            }),
    {
        match self {
            RouterError::Io(e) => {
                let mut s = String::from_str("IO error: ");
                push_str(&mut s, e.as_str());
                s
            },
            RouterError::New(m) => {
                let mut s = String::from_str("Graph error: ");
                push_str(&mut s, m.as_str());
                s
            },
        }
    }
}

} // verus!
