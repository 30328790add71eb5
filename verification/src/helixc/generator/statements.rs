//! The loop forms of generated code.
use vstd::prelude::*;
use crate::helixc::generator::utils::GenRef;

verus! {

/// What an identifier in generated code stands for.
#[derive(Debug, Clone, Copy, PartialEq, Eq, Structural)]
pub enum IdentifierType {
    Primitive,
    Traversal,
    Empty,
}

/// What a generated loop binds for each element.
#[derive(Debug, Clone)]
pub enum ForVariable {
    ObjectDestructure(Vec<GenRef>),
    Identifier(GenRef),
    Empty,
}

/// What a generated loop runs over: a variable, or a query parameter.
#[derive(Debug, Clone)]
pub enum ForLoopInVariable {
    Identifier(GenRef),
    Parameter(GenRef),
    Empty,
}

impl ForLoopInVariable {
    /// The code of the collection: that of the variable or parameter, or
    /// nothing.
    pub fn inner(&self) -> (r: String)
        ensures
            r@ == match *self {
                ForLoopInVariable::Identifier(g) => crate::helixc::generator::utils::gen_ref_text(g),
                ForLoopInVariable::Parameter(g) => crate::helixc::generator::utils::gen_ref_text(g),
                ForLoopInVariable::Empty => Seq::<char>::empty(),
            },
    {
        match self {
            ForLoopInVariable::Identifier(g) => g.to_text(),
            ForLoopInVariable::Parameter(g) => g.to_text(),
            ForLoopInVariable::Empty => String::new(),
        }
    }
}

} // verus!
