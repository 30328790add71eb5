//! The types that the analyzer gives to expressions.
use vstd::prelude::*;
use crate::helixc::parser::ast::FieldType;
use crate::helixc::parser::field_type::field_type_text;
use crate::utils::text::{owned, push_str};

verus! {

/// The type of an expression: one or many nodes, edges or vectors of a
/// schema type, a scalar, an object, a boolean, or unknown.
#[derive(Debug)]
pub enum Type {
    Node(Option<String>),
    Nodes(Option<String>),
    Edge(Option<String>),
    Edges(Option<String>),
    Vector(Option<String>),
    Vectors(Option<String>),
    Scalar(FieldType),
    Object(Vec<(String, Type)>),
    Anonymous(Box<Type>),
    Boolean,
    Unknown,
}

/// The kind of a type, as a word.
pub open spec fn kind_name(t: Type) -> Seq<char>
    decreases t,
{
    match t {
        Type::Node(_) => "node"@,
        Type::Nodes(_) => "nodes"@,
        Type::Edge(_) => "edge"@,
        Type::Edges(_) => "edges"@,
        Type::Vector(_) => "vector"@,
        Type::Vectors(_) => "vectors"@,
        Type::Scalar(_) => "scalar"@,
        Type::Object(_) => "object"@,
        Type::Boolean => "boolean"@,
        Type::Unknown => "unknown"@,
        Type::Anonymous(inner) => kind_name(*inner),
    }
}

/// Whether a type has a name: every type but an element type without its
/// schema name.
pub open spec fn has_type_name(t: Type) -> bool
    decreases t,
{
    match t {
        Type::Node(n) => n is Some,
        Type::Nodes(n) => n is Some,
        Type::Edge(n) => n is Some,
        Type::Edges(n) => n is Some,
        Type::Vector(n) => n is Some,
        Type::Vectors(n) => n is Some,
        Type::Anonymous(inner) => has_type_name(*inner),
        _ => true,
    }
}

/// The names of the first `n` fields, joined by `, `.
pub open spec fn joined_field_names(fields: Seq<(String, Type)>, n: int) -> Seq<char>
    decreases n,
{
    if n <= 0 || n > fields.len() {
        Seq::empty()
    } else if n == 1 {
        fields[0].0@
    } else {
        joined_field_names(fields, n - 1) + ", "@ + fields[n - 1].0@
    }
}

/// The name of a type: the schema name of an element type, how a scalar
/// type is written, `object(fields)`, `boolean` or `unknown`.
pub open spec fn name_of_type(t: Type) -> Seq<char>
    decreases t,
{
    match t {
        Type::Node(n) => n.unwrap()@,
        Type::Nodes(n) => n.unwrap()@,
        Type::Edge(n) => n.unwrap()@,
        Type::Edges(n) => n.unwrap()@,
        Type::Vector(n) => n.unwrap()@,
        Type::Vectors(n) => n.unwrap()@,
        Type::Scalar(ft) => field_type_text(ft),
        Type::Anonymous(inner) => name_of_type(*inner),
        Type::Boolean => "boolean"@,
        Type::Unknown => "unknown"@,
        Type::Object(fields) => "object("@ + joined_field_names(fields@, fields@.len() as int) + ")"@,
    }
}

/// A type without its `Anonymous` layers.
pub open spec fn base_type(t: Type) -> Type
    decreases t,
{
    match t {
        Type::Anonymous(inner) => base_type(*inner),
        _ => t,
    }
}

/// Whether a type is a scalar of a numeric type.
pub open spec fn numeric_type(t: Type) -> bool {
    match t {
        Type::Scalar(ft) => ft is I8 || ft is I16 || ft is I32 || ft is I64 || ft is U8
            || ft is U16 || ft is U32 || ft is U64 || ft is U128 || ft is F32 || ft is F64,
        _ => false,
    }
}

/// Whether a type is a scalar of an integer type.
pub open spec fn integer_type(t: Type) -> bool {
    match t {
        Type::Scalar(ft) => ft is I8 || ft is I16 || ft is I32 || ft is I64 || ft is U8
            || ft is U16 || ft is U32 || ft is U64 || ft is U128,
        _ => false,
    }
}

/// The type of a value of a field or parameter type: a scalar for the
/// scalar types, the element's type for an array, and unknown for the rest.
pub open spec fn type_of_field_type(ft: FieldType) -> Type
    decreases ft,
{
    match ft {
        FieldType::Array(inner) => type_of_field_type(*inner),
        FieldType::Identifier(_) => Type::Unknown,
        FieldType::Object(_) => Type::Unknown,
        _ => Type::Scalar(ft),
    }
}

/// Whether a type can be copied field by field: it is no object, and a
/// scalar of it has a type that holds no other type or name.
pub open spec fn flat_type(t: Type) -> bool {
    &&& !(t is Object)
    &&& !(t is Anonymous)
    &&& (t matches Type::Scalar(ft) ==> !(ft is Array || ft is Identifier || ft is Object))
}

/// The type of a field type's values is flat.
pub proof fn lemma_field_type_flat(ft: FieldType)
    ensures
        flat_type(type_of_field_type(ft)),
    decreases ft,
{
    match ft {
        FieldType::Array(inner) => lemma_field_type_flat(*inner),
        _ => {},
    }
}

/// A copy of an optional name.
pub fn copy_name(n: &Option<String>) -> (r: Option<String>)
    ensures
        r == *n,
{
    match n {
        Some(s) => Some(s.clone()),
        None => None,
    }
}

impl Type {
    /// The kind of the type, as a word.
    pub fn kind_str(&self) -> (r: &'static str)
        ensures
            r@ == kind_name(*self),
        decreases self,
    {
        match self {
            Type::Node(_) => "node",
            Type::Nodes(_) => "nodes",
            Type::Edge(_) => "edge",
            Type::Edges(_) => "edges",
            Type::Vector(_) => "vector",
            Type::Vectors(_) => "vectors",
            Type::Scalar(_) => "scalar",
            Type::Object(_) => "object",
            Type::Boolean => "boolean",
            Type::Unknown => "unknown",
            Type::Anonymous(inner) => inner.kind_str(),
        }
    }

    /// The name of the type.
    pub fn get_type_name(&self) -> (r: String)
        requires
            has_type_name(*self),
        ensures
            r@ == name_of_type(*self),
        decreases self,
    {
        match self {
            Type::Node(Some(n)) => n.clone(),
            Type::Nodes(Some(n)) => n.clone(),
            Type::Edge(Some(n)) => n.clone(),
            Type::Edges(Some(n)) => n.clone(),
            Type::Vector(Some(n)) => n.clone(),
            Type::Vectors(Some(n)) => n.clone(),
            Type::Scalar(ft) => ft.to_text(),
            Type::Anonymous(inner) => inner.get_type_name(),
            Type::Boolean => owned("boolean"),
            Type::Unknown => owned("unknown"),
            Type::Object(fields) => {
                let mut s = owned("object(");
                let mut i: usize = 0;
                while i < fields.len()
                    invariant
                        i <= fields@.len(),
                        s@ == "object("@ + joined_field_names(fields@, i as int),
                    decreases fields.len() - i,
                {
                    if i > 0 {
                        push_str(&mut s, ", ");
                    }
                    push_str(&mut s, fields[i].0.as_str());
                    assert(s@ =~= "object("@ + joined_field_names(fields@, i + 1));
                    i = i + 1;
                }
                push_str(&mut s, ")");
                s
            },
            _ => owned("unknown"),
        }
    }

    /// The type without its `Anonymous` layers.
    pub fn base(&self) -> (r: &Type)
        ensures
            *r == base_type(*self),
        decreases self,
    {
        match self {
            Type::Anonymous(inner) => inner.base(),
            _ => self,
        }
    }

    /// An owned copy of the type without its `Anonymous` layers, where that
    /// is an element type, a scalar, a boolean or unknown.
    pub fn cloned_base(&self) -> (r: Type)
        requires
            flat_type(base_type(*self)),
        ensures
            r == base_type(*self),
        decreases self,
    {
        match self {
            Type::Anonymous(inner) => inner.cloned_base(),
            _ => self.copy_flat(),
        }
    }

    /// A copy of a type that can be copied field by field.
    pub fn copy_flat(&self) -> (r: Type)
        requires
            flat_type(*self),
        ensures
            r == *self,
    {
        match self {
            Type::Node(n) => Type::Node(copy_name(n)),
            Type::Nodes(n) => Type::Nodes(copy_name(n)),
            Type::Edge(n) => Type::Edge(copy_name(n)),
            Type::Edges(n) => Type::Edges(copy_name(n)),
            Type::Vector(n) => Type::Vector(copy_name(n)),
            Type::Vectors(n) => Type::Vectors(copy_name(n)),
            Type::Scalar(ft) => Type::Scalar(scalar_copy(ft)),
            Type::Boolean => Type::Boolean,
            _ => Type::Unknown,
        }
    }

    /// Whether the type is a numeric scalar.
    pub fn is_numeric(&self) -> (r: bool)
        ensures
            r == numeric_type(*self),
    {
        match self {
            Type::Scalar(ft) => match ft {
                FieldType::I8 | FieldType::I16 | FieldType::I32 | FieldType::I64 | FieldType::U8
                | FieldType::U16 | FieldType::U32 | FieldType::U64 | FieldType::U128
                | FieldType::F32 | FieldType::F64 => true,
                _ => false,
            },
            _ => false,
        }
    }

    /// Whether the type is an integer scalar.
    pub fn is_integer(&self) -> (r: bool)
        ensures
            r == integer_type(*self),
    {
        match self {
            Type::Scalar(ft) => match ft {
                FieldType::I8 | FieldType::I16 | FieldType::I32 | FieldType::I64 | FieldType::U8
                | FieldType::U16 | FieldType::U32 | FieldType::U64 | FieldType::U128 => true,
                _ => false,
            },
            _ => false,
        }
    }

    /// The type of a value of a field or parameter type.
    pub fn from_field_type(ft: &FieldType) -> (r: Type)
        ensures
            r == type_of_field_type(*ft),
        decreases ft,
    {
        match ft {
            FieldType::Array(inner) => Type::from_field_type(inner),
            FieldType::Identifier(_) => Type::Unknown,
            FieldType::Object(_) => Type::Unknown,
            _ => Type::Scalar(scalar_copy(ft)),
        }
    }
}

/// A copy of a type that holds no other type or name.
pub fn scalar_copy(ft: &FieldType) -> (r: FieldType)
    ensures
        !(*ft is Array || *ft is Identifier || *ft is Object) ==> r == *ft,
{
    match ft {
        FieldType::String => FieldType::String,
        FieldType::F32 => FieldType::F32,
        FieldType::F64 => FieldType::F64,
        FieldType::I8 => FieldType::I8,
        FieldType::I16 => FieldType::I16,
        FieldType::I32 => FieldType::I32,
        FieldType::I64 => FieldType::I64,
        FieldType::U8 => FieldType::U8,
        FieldType::U16 => FieldType::U16,
        FieldType::U32 => FieldType::U32,
        FieldType::U64 => FieldType::U64,
        FieldType::U128 => FieldType::U128,
        FieldType::Boolean => FieldType::Boolean,
        FieldType::Uuid => FieldType::Uuid,
        FieldType::Date => FieldType::Date,
        _ => FieldType::String,
    }
}

} // verus!
