//! Generated queries and their parameters.
use vstd::prelude::*;
use crate::helixc::generator::return_values::ReturnType;
use crate::helixc::generator::utils::{GenRef, GeneratedType, GeneratedValue, convertible, describes, generated_type_of};
use crate::helixc::parser::ast::{FieldType, Parameter as QueryParameter};
use crate::utils::text::push_str;

verus! {

/// A parameter of a generated query: its name, type, and whether it may be
/// left out.
#[derive(Debug)]
pub struct Parameter {
    pub name: String,
    pub field_type: GeneratedType,
    pub is_optional: bool,
}

/// A generated query: its name, its parameters, the structures that its
/// object parameters are made of, how it returns its values, whether it
/// changes the graph, and, for an MCP query, the name of the value that its
/// handler returns.
#[derive(Debug)]
pub struct GeneratedQuery {
    pub name: String,
    pub parameters: Vec<Parameter>,
    pub sub_parameters: Vec<(String, Vec<Parameter>)>,
    pub return_values: Vec<ReturnType>,
    pub is_mut: bool,
    pub mcp_handler: Option<String>,
}

/// The name under which a return value is returned, if it has one.
pub open spec fn return_name(rt: ReturnType) -> Option<Seq<char>> {
    match rt {
        ReturnType::Literal(GeneratedValue::Literal(GenRef::Literal(x))) => Some(x@),
        ReturnType::NamedLiteral(GeneratedValue::Literal(GenRef::Literal(x))) => Some(x@),
        ReturnType::NamedExpr(GeneratedValue::Literal(GenRef::Literal(x))) => Some(x@),
        ReturnType::SingleExpr(GeneratedValue::Literal(GenRef::Literal(x))) => Some(x@),
        _ => None,
    }
}

/// The name under which a return value is returned, if it has one.
pub fn return_name_of(rt: &ReturnType) -> (r: Option<String>)
    ensures
        match r {
            Some(n) => return_name(*rt) == Some(n@),
            None => return_name(*rt) is None,
        },
{
    match rt {
        ReturnType::Literal(GeneratedValue::Literal(GenRef::Literal(x)))
        | ReturnType::NamedLiteral(GeneratedValue::Literal(GenRef::Literal(x)))
        | ReturnType::NamedExpr(GeneratedValue::Literal(GenRef::Literal(x)))
        | ReturnType::SingleExpr(GeneratedValue::Literal(GenRef::Literal(x))) => Some(x.clone()),
        _ => None,
    }
}

/// Whether the first `n` fields of an object type can be generated.
pub open spec fn object_ok(fs: Seq<(String, FieldType)>, n: int) -> bool
    decreases fs, n,
{
    if n <= 0 || n > fs.len() {
        true
    } else {
        object_ok(fs, n - 1) && field_ok(fs[n - 1].1)
    }
}

/// Whether a field of an object parameter can be generated: a nested
/// object, an array of objects, or a type that generated code can give.
pub open spec fn field_ok(ft: FieldType) -> bool
    decreases ft,
{
    match ft {
        FieldType::Object(o) => object_ok(o@, o@.len() as int),
        FieldType::Array(inner) => match *inner {
            FieldType::Object(o) => object_ok(o@, o@.len() as int),
            _ => convertible(ft),
        },
        _ => convertible(ft),
    }
}

/// The name of the structure generated for an object named `name`.
pub open spec fn data_name(name: Seq<char>) -> Seq<char> {
    name + "Data"@
}

/// Whether `gt` is the generated type of a parameter or field named `name`
/// of type `ft`: its structure for an object, a `Vec` of it for an array of
/// objects, and the type of its values otherwise.
pub open spec fn param_type_ok(gt: GeneratedType, ft: FieldType, name: Seq<char>) -> bool {
    match ft {
        FieldType::Object(_) => gt matches GeneratedType::Variable(GenRef::Std(s)) && s@ == data_name(name),
        FieldType::Array(inner) => match *inner {
            FieldType::Object(_) => gt matches GeneratedType::Vec(b) && (*b matches GeneratedType::Object(GenRef::Std(s)) && s@ == data_name(name)),
            _ => describes(gt, ft),
        },
        _ => describes(gt, ft),
    }
}

/// Whether `a` holds `b` first.
pub open spec fn prefix_of<T>(b: Seq<T>, a: Seq<T>) -> bool {
    b.len() <= a.len() && a.subrange(0, b.len() as int) == b
}

proof fn lemma_prefix_trans<T>(a: Seq<T>, b: Seq<T>, c: Seq<T>)
    requires
        prefix_of(a, b),
        prefix_of(b, c),
    ensures
        prefix_of(a, c),
{
    assert(c.subrange(0, a.len() as int) =~= b.subrange(0, a.len() as int));
}

proof fn lemma_prefix_refl<T>(a: Seq<T>)
    ensures
        prefix_of(a, a),
{
    assert(a.subrange(0, a.len() as int) =~= a);
}

/// `name` followed by `Data`.
fn data_name_of(name: &String) -> (r: String)
    ensures
        r@ == data_name(name@),
{
    let mut s = name.clone();
    push_str(&mut s, "Data");
    s
}

/// Adds to `sub_parameters` the structures of an object type named `name`
/// with fields `obj`: those of its nested objects first, then its own, made
/// of one parameter per field.
pub fn unwrap_object(name: String, obj: &Vec<(String, FieldType)>, sub_parameters: &mut Vec<(String, Vec<Parameter>)>)
    requires
        object_ok(obj@, obj@.len() as int),
    ensures
        prefix_of(old(sub_parameters)@, final(sub_parameters)@),
        final(sub_parameters)@.len() > old(sub_parameters)@.len(),
        final(sub_parameters)@.last().0@ == name@,
        final(sub_parameters)@.last().1@.len() == obj@.len(),
        forall|i: int| 0 <= i < obj@.len() ==> {
            let p = #[trigger] final(sub_parameters)@.last().1@[i];
            &&& p.name@ == obj@[i].0@
            &&& !p.is_optional
            &&& param_type_ok(p.field_type, obj@[i].1, obj@[i].0@)
        },
    decreases obj,
{
    let mut params: Vec<Parameter> = Vec::new();
    proof { lemma_prefix_refl(sub_parameters@); }
    let mut i: usize = 0;
    while i < obj.len()
        invariant
            i <= obj@.len(),
            object_ok(obj@, obj@.len() as int),
            prefix_of(old(sub_parameters)@, sub_parameters@),
            params@.len() == i,
            forall|j: int| 0 <= j < i ==> {
                let p = #[trigger] params@[j];
                &&& p.name@ == obj@[j].0@
                &&& !p.is_optional
                &&& param_type_ok(p.field_type, obj@[j].1, obj@[j].0@)
            },
        decreases obj.len() - i,
    {
        proof {
            lemma_object_ok_field(obj@, obj@.len() as int, i as int);
        }
        let field_name = &obj[i].0;
        let field_type = &obj[i].1;
        let ghost before = sub_parameters@;
        let p = match field_type {
            FieldType::Object(inner) => {
                proof {
                    assert(decreases_to!(*obj => obj@[i as int]));
                    assert(decreases_to!(obj@[i as int] => obj@[i as int].1->Object_0));
                }
                unwrap_object(data_name_of(field_name), inner, sub_parameters);
                Parameter { name: field_name.clone(), field_type: GeneratedType::Variable(GenRef::Std(data_name_of(field_name))), is_optional: false }
            },
            FieldType::Array(elem) => match &**elem {
                FieldType::Object(inner) => {
                    proof {
                        assert(decreases_to!(*obj => obj@[i as int]));
                        assert(decreases_to!(obj@[i as int] => *obj@[i as int].1->Array_0));
                        assert(decreases_to!(*obj@[i as int].1->Array_0 => (*obj@[i as int].1->Array_0)->Object_0));
                    }
                    unwrap_object(data_name_of(field_name), inner, sub_parameters);
                    Parameter {
                        name: field_name.clone(),
                        field_type: GeneratedType::Vec(Box::new(GeneratedType::Object(GenRef::Std(data_name_of(field_name))))),
                        is_optional: false,
                    }
                },
                _ => {
                    proof { lemma_prefix_refl(sub_parameters@); }
                    Parameter { name: field_name.clone(), field_type: generated_type_of(field_type), is_optional: false }
                },
            },
            _ => {
                proof { lemma_prefix_refl(sub_parameters@); }
                Parameter { name: field_name.clone(), field_type: generated_type_of(field_type), is_optional: false }
            },
        };
        params.push(p);
        proof { lemma_prefix_trans(old(sub_parameters)@, before, sub_parameters@); }
        i = i + 1;
    }
    let ghost before = sub_parameters@;
    sub_parameters.push((name, params));
    proof {
        assert(sub_parameters@.subrange(0, before.len() as int) =~= before);
        lemma_prefix_trans(old(sub_parameters)@, before, sub_parameters@);
    }
}

/// A field of an object that can be generated can be generated itself.
proof fn lemma_object_ok_field(fs: Seq<(String, FieldType)>, n: int, i: int)
    requires
        object_ok(fs, n),
        0 <= i < n <= fs.len(),
    ensures
        field_ok(fs[i].1),
    decreases n,
{
    if i < n - 1 {
        lemma_object_ok_field(fs, n - 1, i);
    }
}

/// The fields of the object type that a parameter of type `ft` holds: its
/// own type, or that of the elements of an array; none for other types.
pub open spec fn object_fields_of(ft: FieldType) -> Option<Seq<(String, FieldType)>> {
    match ft {
        FieldType::Object(o) => Some(o@),
        FieldType::Array(e) => match *e {
            FieldType::Object(o) => Some(o@),
            _ => None,
        },
        _ => None,
    }
}

impl Parameter {
    /// Adds the generated parameter for a query parameter to `parameters`,
    /// and to `sub_parameters` the structures of its object types.
    pub fn unwrap_param(
        param: &QueryParameter,
        parameters: &mut Vec<Parameter>,
        sub_parameters: &mut Vec<(String, Vec<Parameter>)>,
    )
        requires
            field_ok(param.param_type.1),
        ensures
            final(parameters)@.len() == old(parameters)@.len() + 1,
            final(parameters)@.drop_last() == old(parameters)@,
            final(parameters)@.last().name@ == param.name.1@,
            final(parameters)@.last().is_optional == param.is_optional,
            param_type_ok(final(parameters)@.last().field_type, param.param_type.1, param.name.1@),
            prefix_of(old(sub_parameters)@, final(sub_parameters)@),
            object_fields_of(param.param_type.1) is None ==> final(sub_parameters)@ == old(sub_parameters)@,
            object_fields_of(param.param_type.1) matches Some(fs) ==> {
                &&& final(sub_parameters)@.len() > old(sub_parameters)@.len()
                &&& final(sub_parameters)@.last().0@ == data_name(param.name.1@)
                &&& final(sub_parameters)@.last().1@.len() == fs.len()
                &&& forall|i: int| 0 <= i < fs.len() ==> {
                    let p = #[trigger] final(sub_parameters)@.last().1@[i];
                    &&& p.name@ == fs[i].0@
                    &&& !p.is_optional
                    &&& param_type_ok(p.field_type, fs[i].1, fs[i].0@)
                }
            },
    {
        let name = &param.name.1;
        let p = match &param.param_type.1 {
            FieldType::Object(obj) => {
                unwrap_object(data_name_of(name), obj, sub_parameters);
                Parameter { name: name.clone(), field_type: GeneratedType::Variable(GenRef::Std(data_name_of(name))), is_optional: param.is_optional }
            },
            FieldType::Array(elem) => match &**elem {
                FieldType::Object(obj) => {
                    unwrap_object(data_name_of(name), obj, sub_parameters);
                    Parameter {
                        name: name.clone(),
                        field_type: GeneratedType::Vec(Box::new(GeneratedType::Object(GenRef::Std(data_name_of(name))))),
                        is_optional: param.is_optional,
                    }
                },
                _ => {
                    proof { lemma_prefix_refl(sub_parameters@); }
                    Parameter { name: name.clone(), field_type: generated_type_of(&param.param_type.1), is_optional: param.is_optional }
                },
            },
            _ => {
                proof { lemma_prefix_refl(sub_parameters@); }
                Parameter { name: name.clone(), field_type: generated_type_of(&param.param_type.1), is_optional: param.is_optional }
            },
        };
        parameters.push(p);
        assert(parameters@.drop_last() =~= old(parameters)@);
    }
}

} // verus!
