//! The pieces that generated code is written from.
use vstd::prelude::*;
use crate::helixc::parser::ast::FieldType;
use crate::utils::text::{owned, push_str};

verus! {

/// A piece of generated code: a name as it stands, a string literal, or a
/// name taken by reference or dereferenced.
#[derive(Debug, Clone)]
pub enum GenRef {
    Std(String),
    Literal(String),
    Ref(String),
    DeRef(String),
}

/// How a piece of generated code is written.
pub open spec fn gen_ref_text(g: GenRef) -> Seq<char> {
    match g {
        GenRef::Std(s) => s@,
        GenRef::Literal(s) => seq!['"'] + s@ + seq!['"'],
        GenRef::Ref(s) => seq!['&'] + s@,
        GenRef::DeRef(s) => seq!['*'] + s@,
    }
}

impl GenRef {
    /// How the piece is written.
    pub fn to_text(&self) -> (r: String)
        ensures
            r@ == gen_ref_text(*self),
    {
        match self {
            GenRef::Std(s) => s.clone(),
            GenRef::Literal(s) => {
                let mut t = owned("\"");
                push_str(&mut t, s.as_str());
                push_str(&mut t, "\"");
                proof { reveal_strlit("\""); }
                t
            },
            GenRef::Ref(s) => {
                let mut t = owned("&");
                push_str(&mut t, s.as_str());
                proof { reveal_strlit("&"); }
                t
            },
            GenRef::DeRef(s) => {
                let mut t = owned("*");
                push_str(&mut t, s.as_str());
                proof { reveal_strlit("*"); }
                t
            },
        }
    }

    /// The name or text inside the piece.
    pub fn inner(&self) -> (r: &String)
        ensures
            *r == match *self {
                GenRef::Std(s) => s,
                GenRef::Literal(s) => s,
                GenRef::Ref(s) => s,
                GenRef::DeRef(s) => s,
            },
    {
        match self {
            GenRef::Std(s) => s,
            GenRef::Literal(s) => s,
            GenRef::Ref(s) => s,
            GenRef::DeRef(s) => s,
        }
    }
}

/// The Rust types that generated code uses for field types.
#[derive(Debug, Clone, Copy, PartialEq, Eq, Structural)]
pub enum RustType {
    String,
    F32,
    F64,
    I8,
    I16,
    I32,
    I64,
    U8,
    U16,
    U32,
    U64,
    U128,
    Bool,
    Uuid,
    Date,
}

/// The type that generated code gives a value.
#[derive(Debug)]
pub enum GeneratedType {
    RustType(RustType),
    Vec(Box<GeneratedType>),
    Variable(GenRef),
    Object(GenRef),
}

/// A value in generated code.
#[derive(Debug, Clone)]
pub enum GeneratedValue {
    Literal(GenRef),
    Identifier(GenRef),
    Primitive(GenRef),
    Parameter(GenRef),
    Unknown,
}

/// An item of generated code and what follows it.
#[derive(Debug, Clone)]
pub enum Separator<T> {
    Comma(T),
    Semicolon(T),
    Period(T),
    Newline(T),
    Empty(T),
}

/// The Rust type of a scalar field type.
pub open spec fn rust_type_of(ft: FieldType) -> Option<RustType> {
    match ft {
        FieldType::String => Some(RustType::String),
        FieldType::F32 => Some(RustType::F32),
        FieldType::F64 => Some(RustType::F64),
        FieldType::I8 => Some(RustType::I8),
        FieldType::I16 => Some(RustType::I16),
        FieldType::I32 => Some(RustType::I32),
        FieldType::I64 => Some(RustType::I64),
        FieldType::U8 => Some(RustType::U8),
        FieldType::U16 => Some(RustType::U16),
        FieldType::U32 => Some(RustType::U32),
        FieldType::U64 => Some(RustType::U64),
        FieldType::U128 => Some(RustType::U128),
        FieldType::Boolean => Some(RustType::Bool),
        FieldType::Uuid => Some(RustType::Uuid),
        FieldType::Date => Some(RustType::Date),
        _ => None,
    }
}

/// Whether generated code can give a type to values of `ft`: any type but
/// an object, inside arrays too.
pub open spec fn convertible(ft: FieldType) -> bool
    decreases ft,
{
    match ft {
        FieldType::Array(inner) => convertible(*inner),
        FieldType::Object(_) => false,
        _ => true,
    }
}

/// Whether `gt` is the generated type of values of `ft`: the Rust type of a
/// scalar, a `Vec` of an array's elements, or the schema type of a name.
pub open spec fn describes(gt: GeneratedType, ft: FieldType) -> bool
    decreases ft,
{
    match ft {
        FieldType::Array(inner) => gt matches GeneratedType::Vec(b) && describes(*b, *inner),
        FieldType::Identifier(id) => gt matches GeneratedType::Variable(GenRef::Std(s)) && s@ == id@,
        FieldType::Object(_) => false,
        _ => gt matches GeneratedType::RustType(rt) && Some(rt) == rust_type_of(ft),
    }
}

/// The generated type of values of `ft`.
pub fn generated_type_of(ft: &FieldType) -> (r: GeneratedType)
    requires
        convertible(*ft),
    ensures
        describes(r, *ft),
    decreases ft,
{
    match ft {
        FieldType::String => GeneratedType::RustType(RustType::String),
        FieldType::F32 => GeneratedType::RustType(RustType::F32),
        FieldType::F64 => GeneratedType::RustType(RustType::F64),
        FieldType::I8 => GeneratedType::RustType(RustType::I8),
        FieldType::I16 => GeneratedType::RustType(RustType::I16),
        FieldType::I32 => GeneratedType::RustType(RustType::I32),
        FieldType::I64 => GeneratedType::RustType(RustType::I64),
        FieldType::U8 => GeneratedType::RustType(RustType::U8),
        FieldType::U16 => GeneratedType::RustType(RustType::U16),
        FieldType::U32 => GeneratedType::RustType(RustType::U32),
        FieldType::U64 => GeneratedType::RustType(RustType::U64),
        FieldType::U128 => GeneratedType::RustType(RustType::U128),
        FieldType::Boolean => GeneratedType::RustType(RustType::Bool),
        FieldType::Uuid => GeneratedType::RustType(RustType::Uuid),
        FieldType::Date => GeneratedType::RustType(RustType::Date),
        FieldType::Array(inner) => GeneratedType::Vec(Box::new(generated_type_of(inner))),
        FieldType::Identifier(id) => GeneratedType::Variable(GenRef::Std(id.clone())),
        FieldType::Object(_) => GeneratedType::RustType(RustType::String),
    }
}

} // verus!
