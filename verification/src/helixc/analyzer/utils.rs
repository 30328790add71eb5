//! How a query's variables and parameters are named in generated code.
use vstd::prelude::*;
use crate::helixc::generator::utils::{GenRef, GeneratedValue};
use crate::helixc::parser::ast::Query;
use crate::utils::text::{owned, push_str, str_equal};

verus! {

/// Whether `name` names a parameter of the query.
pub open spec fn names_param(q: Query, name: Seq<char>) -> bool {
    exists|i: int| 0 <= i < q.parameters@.len() && #[trigger] q.parameters@[i].name.1@ == name
}

/// Whether `name` names a parameter of the query.
pub fn is_param(q: &Query, name: &str) -> (r: bool)
    ensures
        r == names_param(*q, name@),
{
    let mut i: usize = 0;
    while i < q.parameters.len()
        invariant
            i <= q.parameters@.len(),
            forall|j: int| 0 <= j < i ==> #[trigger] q.parameters@[j].name.1@ != name@,
        decreases q.parameters.len() - i,
    {
        if str_equal(q.parameters[i].name.1.as_str(), name) {
            assert(q.parameters@[i as int].name.1@ == name@);
            return true;
        }
        i = i + 1;
    }
    false
}

/// `a` followed by `b`.
fn joined(a: &str, b: &str) -> (r: String)
    ensures
        r@ == a@ + b@,
{
    let mut t = owned(a);
    push_str(&mut t, b);
    t
}

/// The generated value that stands for `name`: a parameter is read from
/// `data`, a variable by its name; by reference when `should_ref`, else a
/// clone.
pub fn gen_identifier_or_param(original_query: &Query, name: &str, should_ref: bool, _should_clone: bool) -> (r: GeneratedValue)
    ensures
        names_param(*original_query, name@) ==> if should_ref {
            r matches GeneratedValue::Parameter(GenRef::Ref(t)) && t@ == "data."@ + name@
        } else {
            r matches GeneratedValue::Parameter(GenRef::Std(t)) && t@ == "data."@ + name@ + ".clone()"@
        },
        !names_param(*original_query, name@) ==> if should_ref {
            r matches GeneratedValue::Identifier(GenRef::Ref(t)) && t@ == name@
        } else {
            r matches GeneratedValue::Identifier(GenRef::Std(t)) && t@ == name@ + ".clone()"@
        },
{
    if is_param(original_query, name) {
        if should_ref {
            GeneratedValue::Parameter(GenRef::Ref(joined("data.", name)))
        } else {
            {
                let mut t = joined("data.", name);
                push_str(&mut t, ".clone()");
                GeneratedValue::Parameter(GenRef::Std(t))
            }
        }
    } else {
        if should_ref {
            GeneratedValue::Identifier(GenRef::Ref(owned(name)))
        } else {
            GeneratedValue::Identifier(GenRef::Std(joined(name, ".clone()")))
        }
    }
}

/// The generated value that stands for the ID held by `name`: a
/// parameter dereferenced from `data`, else the variable's `id()`.
pub fn gen_id_access_or_param(original_query: &Query, name: &str) -> (r: GeneratedValue)
    ensures
        names_param(*original_query, name@) ==> (r matches GeneratedValue::Parameter(GenRef::DeRef(t))
            && t@ == "data."@ + name@),
        !names_param(*original_query, name@) ==> (r matches GeneratedValue::Identifier(GenRef::Std(t))
            && t@ == name@ + ".id()"@),
{
    if is_param(original_query, name) {
        GeneratedValue::Parameter(GenRef::DeRef(joined("data.", name)))
    } else {
        GeneratedValue::Identifier(GenRef::Std(joined(name, ".id()")))
    }
}

} // verus!
