//! How field types are written, copied and compared.
use vstd::prelude::*;
use crate::helixc::parser::ast::FieldType;
use crate::utils::text::{owned, push_str};

verus! {

/// How a type is written: its name, `Array(inner)`, or
/// `{name: type...}` for an object.
pub open spec fn field_type_text(ft: FieldType) -> Seq<char>
    decreases ft,
{
    match ft {
        FieldType::String => "String"@,
        FieldType::F32 => "F32"@,
        FieldType::F64 => "F64"@,
        FieldType::I8 => "I8"@,
        FieldType::I16 => "I16"@,
        FieldType::I32 => "I32"@,
        FieldType::I64 => "I64"@,
        FieldType::U8 => "U8"@,
        FieldType::U16 => "U16"@,
        FieldType::U32 => "U32"@,
        FieldType::U64 => "U64"@,
        FieldType::U128 => "U128"@,
        FieldType::Boolean => "Boolean"@,
        FieldType::Uuid => "ID"@,
        FieldType::Date => "Date"@,
        FieldType::Array(inner) => "Array("@ + field_type_text(*inner) + ")"@,
        FieldType::Identifier(s) => s@,
        FieldType::Object(fields) => "{"@ + object_fields_text(fields@, fields@.len() as int) + "}"@,
    }
}

/// The first `n` fields of an object type, each written `name: type`.
pub open spec fn object_fields_text(fields: Seq<(String, FieldType)>, n: int) -> Seq<char>
    decreases fields, n,
{
    if n <= 0 || n > fields.len() {
        Seq::empty()
    } else {
        object_fields_text(fields, n - 1) + fields[n - 1].0@ + ": "@ + field_type_text(fields[n - 1].1)
    }
}

impl FieldType {
    /// How the type is written.
    pub fn to_text(&self) -> (r: String)
        ensures
            r@ == field_type_text(*self),
        decreases self,
    {
        match self {
            FieldType::String => owned("String"),
            FieldType::F32 => owned("F32"),
            FieldType::F64 => owned("F64"),
            FieldType::I8 => owned("I8"),
            FieldType::I16 => owned("I16"),
            FieldType::I32 => owned("I32"),
            FieldType::I64 => owned("I64"),
            FieldType::U8 => owned("U8"),
            FieldType::U16 => owned("U16"),
            FieldType::U32 => owned("U32"),
            FieldType::U64 => owned("U64"),
            FieldType::U128 => owned("U128"),
            FieldType::Boolean => owned("Boolean"),
            FieldType::Uuid => owned("ID"),
            FieldType::Date => owned("Date"),
            FieldType::Array(inner) => {
                let mut s = owned("Array(");
                let t = inner.to_text();
                push_str(&mut s, t.as_str());
                push_str(&mut s, ")");
                s
            },
            FieldType::Identifier(name) => name.clone(),
            FieldType::Object(fields) => {
                let mut s = owned("{");
                let mut i: usize = 0;
                while i < fields.len()
                    invariant
                        i <= fields@.len(),
                        *self == FieldType::Object(*fields),
                        s@ == "{"@ + object_fields_text(fields@, i as int),
                    decreases fields.len() - i,
                {
                    proof {
                        assert(decreases_to!(*self => self->Object_0@[i as int]));
                        assert(decreases_to!(*self => self->Object_0@[i as int].1));
                    }
                    push_str(&mut s, fields[i].0.as_str());
                    push_str(&mut s, ": ");
                    let t = fields[i].1.to_text();
                    push_str(&mut s, t.as_str());
                    assert(s@ =~= "{"@ + object_fields_text(fields@, i + 1));
                    i = i + 1;
                }
                push_str(&mut s, "}");
                s
            },
        }
    }

    /// Whether the type is `F32` or `F64`.
    pub fn is_float_type(&self) -> (r: bool)
        ensures
            r == (*self is F32 || *self is F64),
    {
        match self {
            FieldType::F32 | FieldType::F64 => true,
            _ => false,
        }
    }

    /// Whether the type is one of the integer types.
    pub fn is_int_type(&self) -> (r: bool)
        ensures
            r == (*self is I8 || *self is I16 || *self is I32 || *self is I64 || *self is U8
                || *self is U16 || *self is U32 || *self is U64 || *self is U128),
    {
        match self {
            FieldType::I8 | FieldType::I16 | FieldType::I32 | FieldType::I64 | FieldType::U8
            | FieldType::U16 | FieldType::U32 | FieldType::U64 | FieldType::U128 => true,
            _ => false,
        }
    }
}

} // verus!
