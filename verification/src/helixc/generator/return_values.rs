//! How generated code returns a query's values.
use vstd::prelude::*;
use crate::helixc::generator::utils::GeneratedValue;

verus! {

/// The shape of a returned value.
#[derive(Debug, Clone)]
pub enum ReturnType {
    Literal(GeneratedValue),
    NamedLiteral(GeneratedValue),
    NamedExpr(GeneratedValue),
    SingleExpr(GeneratedValue),
    UnnamedExpr,
    HashMap,
    Array,
}

} // verus!
