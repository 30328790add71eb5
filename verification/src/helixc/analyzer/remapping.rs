//! How the fields of an object step are remapped in generated code.
use vstd::prelude::*;
use crate::helixc::analyzer::checks::{check_identifier, field_on, has_field_on};
use crate::helixc::analyzer::diagnostic::Diagnostic;
use crate::helixc::analyzer::error_codes::ErrorCode;
use crate::helixc::analyzer::graph_step::elem_of;
use crate::helixc::analyzer::infer::check_traversal;
use crate::helixc::analyzer::items::{extends, lemma_extends_refl, lemma_extends_trans};
use crate::helixc::analyzer::scope::{in_scope, lookup, query_error, scope_flat, wrapped2};
use crate::helixc::analyzer::types::{Type, flat_type};
use crate::helixc::generator::object_remapping::{Remapping, RemappingType, TraversalSource};
use crate::helixc::generator::utils::GenRef;
use crate::helixc::parser::ast::{ExpressionType, FieldAddition, FieldValueType, Query, Schema, StartNode, StepType, Traversal};
use crate::protocol::value_text::value_text;
use crate::utils::decimal::{i128_text, signed_numeral};
use crate::utils::text::owned;

verus! {

/// Whether no field of an object, nested objects included, holds an
/// `EXISTS` expression, which a remapping cannot give yet.
pub open spec fn remappable(obj: Seq<FieldAddition>) -> bool
    decreases obj,
{
    forall|j: int| 0 <= j < obj.len() ==> match #[trigger] obj[j].value.value {
        FieldValueType::Expression(e) => !(e.expr is Exists),
        FieldValueType::Fields(sub) => {
            &&& decreases_to!(obj => sub@)
            &&& remappable(sub@)
        },
        _ => true,
    }
}

/// Whether `src` is where a remapped traversal starting at `start` starts,
/// for the variable `var`: the variable itself where the traversal starts
/// at it or is anonymous, else the variable it starts at.
pub open spec fn source_of(start: StartNode, var: Seq<char>, src: TraversalSource) -> bool {
    match start {
        StartNode::Identifier(n) => if n@ == var {
            src matches TraversalSource::NestedFrom(v) && v@ == var
        } else {
            src matches TraversalSource::FromVar(v) && v@ == n@
        },
        _ => src matches TraversalSource::NestedFrom(v) && v@ == var,
    }
}

/// Whether a traversal ends in a count or a comparison.
pub open spec fn ends_in_value(tr: Traversal) -> bool {
    tr.steps@.len() > 0 && (tr.steps@.last().step is Count || tr.steps@.last().step is BooleanOperation)
}

/// Whether `r` is a literal remapping of the field `key` with the text `t`.
pub open spec fn literal_remap(r: RemappingType, var: Seq<char>, key: Seq<char>, t: Seq<char>) -> bool {
    match r {
        RemappingType::ValueRemapping { variable_name, field_name, value } => {
            &&& variable_name@ == var
            &&& field_name@ == key
            &&& match value {
                GenRef::Literal(v) => v@ == t,
                _ => false,
            }
        },
        _ => false,
    }
}

/// Whether `r` remaps the field `key` from the name `n`: the variable `n`
/// where it is in scope, else the property `n` of the element where it has
/// one (fetched as one value where `single`), else nothing.
pub open spec fn name_remap(
    s: Schema,
    scope: Seq<(String, Type)>,
    parent: Type,
    r: RemappingType,
    var: Seq<char>,
    key: Seq<char>,
    n: Seq<char>,
    single: bool,
) -> bool {
    if in_scope(scope, n) {
        r matches RemappingType::IdentifierRemapping { variable_name, field_name, identifier_value }
            && variable_name@ == var && field_name@ == key && identifier_value@ == n
    } else if field_on(s, parent, n) {
        r matches RemappingType::PropertyRemapping { variable_name, new_field, property, single: sg }
            && variable_name@ == var && new_field@ == key && property@ == n && sg == single
    } else {
        r is Empty
    }
}

/// Whether `r` is how the field `fa` of an object on the variable `var`,
/// whose elements have type `parent`, is remapped.
pub open spec fn remapped(s: Schema, scope: Seq<(String, Type)>, parent: Type, var: Seq<char>, fa: FieldAddition, r: RemappingType) -> bool {
    let key = fa.key@;
    match fa.value.value {
        FieldValueType::Traversal(tr) => r matches RemappingType::TraversalRemapping { variable_name, new_field, source, to_value }
            && variable_name@ == var && new_field@ == key && source_of(tr.start, var, source) && to_value == ends_in_value(*tr),
        FieldValueType::Expression(e) => match e.expr {
            ExpressionType::Traversal(tr) => r matches RemappingType::TraversalRemapping { variable_name, new_field, source, to_value }
                && variable_name@ == var && new_field@ == key && source_of(tr.start, var, source) && !to_value,
            ExpressionType::BooleanLiteral(b) => literal_remap(r, var, key, if b { "true"@ } else { "false"@ }),
            ExpressionType::FloatLiteral(f) => literal_remap(r, var, key, f@),
            ExpressionType::StringLiteral(t) => literal_remap(r, var, key, t@),
            ExpressionType::IntegerLiteral(i) => literal_remap(r, var, key, signed_numeral(i as int)),
            ExpressionType::Identifier(n) => name_remap(s, scope, parent, r, var, key, n@, true),
            _ => r is Empty,
        },
        FieldValueType::Literal(v) => literal_remap(r, var, key, value_text(v)),
        FieldValueType::Identifier(n) => name_remap(s, scope, parent, r, var, key, n@, false),
        FieldValueType::Fields(sub) => r matches RemappingType::ObjectRemapping { variable_name, field_name, remapping }
            && variable_name@ == var && field_name@ == key && remapping.variable_name@ == var && remapping.is_inner
            && !remapping.should_spread && remapping.remappings@.len() == sub@.len(),
        FieldValueType::Empty => r is Empty,
    }
}

/// Remaps a name in a field of an object: the variable in scope, else the
/// property of the element, else an error (E202).
fn remap_name(
    s: &Schema,
    q: &Query,
    scope: &Vec<(String, Type)>,
    fa: &FieldAddition,
    n: &String,
    single: bool,
    var_name: &str,
    parent: &Type,
    diags: &mut Vec<Diagnostic>,
) -> (r: RemappingType)
    requires
        scope_flat(scope@),
        elem_of(*parent) is Some,
    ensures
        extends(old(diags)@, final(diags)@),
        name_remap(*s, scope@, *parent, r, var_name@, fa.key@, n@, single),
{
    let _ = check_identifier(q, &fa.value.loc, n.as_str(), diags);
    let ghost mid = diags@;
    proof { assert(diags@.subrange(0, old(diags)@.len() as int) == old(diags)@); }
    if lookup(scope, n.as_str()).is_some() {
        proof { lemma_extends_refl(diags@); }
        RemappingType::IdentifierRemapping { variable_name: owned(var_name), field_name: fa.key.clone(), identifier_value: n.clone() }
    } else if has_field_on(s, parent, n.as_str()) {
        proof { lemma_extends_refl(diags@); }
        RemappingType::PropertyRemapping { variable_name: owned(var_name), new_field: fa.key.clone(), property: n.clone(), single }
    } else {
        let name = parent.get_type_name();
        query_error(diags, q, &fa.value.loc, ErrorCode::E202, wrapped2("`", n.as_str(), "` is not a field of type `", name.as_str(), "` or is not a variable in scope"), "check the schema field names or declare the variable");
        assert(diags@.subrange(0, mid.len() as int) =~= mid);
        proof { lemma_extends_trans(old(diags)@, mid, diags@); }
        RemappingType::Empty
    }
}

/// The remapping of the field `fa` to the literal written `text`.
fn literal(var_name: &str, fa: &FieldAddition, text: String) -> (r: RemappingType)
    ensures
        literal_remap(r, var_name@, fa.key@, text@),
{
    RemappingType::ValueRemapping { variable_name: owned(var_name), field_name: fa.key.clone(), value: GenRef::Literal(text) }
}

/// Where a remapped traversal starts (see `source_of`).
fn source_for(start: &StartNode, var_name: &str) -> (r: TraversalSource)
    ensures
        source_of(*start, var_name@, r),
{
    match start {
        StartNode::Identifier(n) => {
            if crate::utils::text::str_equal(n.as_str(), var_name) {
                TraversalSource::NestedFrom(owned(var_name))
            } else {
                TraversalSource::FromVar(n.clone())
            }
        },
        _ => TraversalSource::NestedFrom(owned(var_name)),
    }
}

/// Remaps the fields of an object step on the variable `var_name`, whose
/// elements have type `parent`: each field, in order, as `remapped` says.
/// A traversal in a field is checked from the element; a name in a field
/// that is neither a variable in scope nor a property of the element is
/// reported (E202), as is an expression that cannot be remapped (E601) and
/// a field without a value (E645). Object steps stand only on nodes, edges
/// and vectors, so `parent` is one of those; an `EXISTS` expression cannot
/// be remapped (see `remappable`).
pub fn parse_object_remapping(
    s: &Schema,
    q: &Query,
    scope: &Vec<(String, Type)>,
    obj: &Vec<FieldAddition>,
    is_inner: bool,
    var_name: &str,
    parent: &Type,
    diags: &mut Vec<Diagnostic>,
) -> (r: Remapping)
    requires
        scope_flat(scope@),
        flat_type(*parent),
        elem_of(*parent) is Some,
        remappable(obj@),
    ensures
        extends(old(diags)@, final(diags)@),
        r.remappings@.len() == obj@.len(),
        r.variable_name@ == var_name@,
        r.is_inner == is_inner,
        !r.should_spread,
        forall|i: int| 0 <= i < obj@.len() ==> #[trigger] remapped(*s, scope@, *parent, var_name@, obj@[i], r.remappings@[i]),
    decreases obj,
{
    let mut remappings: Vec<RemappingType> = Vec::new();
    proof { lemma_extends_refl(diags@); }
    let mut i: usize = 0;
    while i < obj.len()
        invariant
            i <= obj@.len(),
            scope_flat(scope@),
            flat_type(*parent),
            elem_of(*parent) is Some,
            remappable(obj@),
            extends(old(diags)@, diags@),
            remappings@.len() == i,
            forall|k: int| 0 <= k < i ==> #[trigger] remapped(*s, scope@, *parent, var_name@, obj@[k], remappings@[k]),
        decreases obj.len() - i,
    {
        let ghost before = diags@;
        let fa = &obj[i];
        let rm = match &fa.value.value {
            FieldValueType::Traversal(tr) => {
                let _ = check_traversal(s, q, scope, tr, Some(parent), diags);
                let n = tr.steps.len();
                let to_value = n > 0 && match &tr.steps[n - 1].step {
                    StepType::Count | StepType::BooleanOperation(_) => true,
                    _ => false,
                };
                RemappingType::TraversalRemapping { variable_name: owned(var_name), new_field: fa.key.clone(), source: source_for(&tr.start, var_name), to_value }
            },
            FieldValueType::Expression(e) => match &e.expr {
                ExpressionType::Traversal(tr) => {
                    let _ = check_traversal(s, q, scope, tr, Some(parent), diags);
                    RemappingType::TraversalRemapping { variable_name: owned(var_name), new_field: fa.key.clone(), source: source_for(&tr.start, var_name), to_value: false }
                },
                ExpressionType::BooleanLiteral(b) => {
                    proof { lemma_extends_refl(diags@); }
                    literal(var_name, fa, owned(if *b { "true" } else { "false" }))
                },
                ExpressionType::FloatLiteral(f) => {
                    proof { lemma_extends_refl(diags@); }
                    literal(var_name, fa, f.clone())
                },
                ExpressionType::StringLiteral(t) => {
                    proof { lemma_extends_refl(diags@); }
                    literal(var_name, fa, t.clone())
                },
                ExpressionType::IntegerLiteral(n) => {
                    proof { lemma_extends_refl(diags@); }
                    literal(var_name, fa, i128_text(*n as i128))
                },
                ExpressionType::Identifier(n) => remap_name(s, q, scope, fa, n, true, var_name, parent, diags),
                _ => {
                    query_error(diags, q, &e.loc, ErrorCode::E601, owned("invalid expression"), "invalid expression");
                    assert(diags@.subrange(0, before.len() as int) =~= before);
                    RemappingType::Empty
                },
            },
            FieldValueType::Literal(v) => {
                proof { lemma_extends_refl(diags@); }
                literal(var_name, fa, v.to_text())
            },
            FieldValueType::Identifier(n) => remap_name(s, q, scope, fa, n, false, var_name, parent, diags),
            FieldValueType::Fields(sub) => {
                proof {
                    assert(decreases_to!(obj@[i as int].value.value => sub@));
                }
                let remapping = parse_object_remapping(s, q, scope, sub, true, var_name, parent, diags);
                RemappingType::ObjectRemapping { variable_name: owned(var_name), field_name: fa.key.clone(), remapping }
            },
            FieldValueType::Empty => {
                query_error(diags, q, &obj[0].loc, ErrorCode::E645, owned("field value is empty"), "field value must be a literal, identifier, traversal, or object");
                assert(diags@.subrange(0, before.len() as int) =~= before);
                RemappingType::Empty
            },
        };
        proof {
            reveal_strlit("true");
            reveal_strlit("false");
            lemma_extends_trans(old(diags)@, before, diags@);
        }
        remappings.push(rm);
        proof {
            assert forall|k: int| 0 <= k < i + 1 implies #[trigger] remapped(*s, scope@, *parent, var_name@, obj@[k], remappings@[k]) by {
                if k < i {
                    assert(remappings@[k] == remappings@.drop_last()[k]);
                }
            }
        }
        i = i + 1;
    }
    Remapping { variable_name: owned(var_name), is_inner, remappings, should_spread: false }
}

} // verus!
