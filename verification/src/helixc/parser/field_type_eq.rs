//! When two field types count as the same: every integer type is one type,
//! and both float types are another.
use vstd::prelude::*;
use crate::helixc::parser::ast::FieldType;
use crate::utils::text::str_equal;
use vstd::std_specs::cmp::PartialEqSpecImpl;

verus! {

/// Whether `t` is one of the integer types.
pub open spec fn is_int_family(t: FieldType) -> bool {
    t is I8 || t is I16 || t is I32 || t is I64 || t is U8 || t is U16 || t is U32 || t is U64 || t is U128
}

/// Whether `t` is one of the float types.
pub open spec fn is_float_family(t: FieldType) -> bool {
    t is F32 || t is F64
}

/// Whether two field types count as the same: both integer types, both
/// float types, the same other plain type, arrays of types that count as
/// the same, the same name, or objects with the same field names in order
/// whose types count as the same.
pub open spec fn same_field_type(a: FieldType, b: FieldType) -> bool
    decreases a,
{
    match (a, b) {
        (FieldType::String, FieldType::String) => true,
        (FieldType::Boolean, FieldType::Boolean) => true,
        (FieldType::Uuid, FieldType::Uuid) => true,
        (FieldType::Date, FieldType::Date) => true,
        (FieldType::Array(x), FieldType::Array(y)) => same_field_type(*x, *y),
        (FieldType::Identifier(x), FieldType::Identifier(y)) => x@ == y@,
        (FieldType::Object(x), FieldType::Object(y)) => {
            &&& x@.len() == y@.len()
            &&& forall|i: int| #![trigger x@[i]] 0 <= i < x@.len() ==> {
                &&& x@[i].0@ == y@[i].0@
                &&& same_field_type(x@[i].1, y@[i].1)
            }
        },
        _ => (is_int_family(a) && is_int_family(b)) || (is_float_family(a) && is_float_family(b)),
    }
}

/// Whether two field types count as the same (see `same_field_type`).
pub fn same_field_type_exec(a: &FieldType, b: &FieldType) -> (r: bool)
    ensures
        r == same_field_type(*a, *b),
    decreases a,
{
    match (a, b) {
        (FieldType::String, FieldType::String) => true,
        (FieldType::Boolean, FieldType::Boolean) => true,
        (FieldType::Uuid, FieldType::Uuid) => true,
        (FieldType::Date, FieldType::Date) => true,
        (FieldType::Array(x), FieldType::Array(y)) => same_field_type_exec(x, y),
        (FieldType::Identifier(x), FieldType::Identifier(y)) => str_equal(x.as_str(), y.as_str()),
        (FieldType::Object(x), FieldType::Object(y)) => {
            if x.len() != y.len() {
                return false;
            }
            let mut i: usize = 0;
            while i < x.len()
                invariant
                    i <= x@.len(),
                    x@.len() == y@.len(),
                    *a == FieldType::Object(*x),
                    *b == FieldType::Object(*y),
                    forall|k: int| #![trigger x@[k]] 0 <= k < i ==> {
                        &&& x@[k].0@ == y@[k].0@
                        &&& same_field_type(x@[k].1, y@[k].1)
                    },
                decreases x.len() - i,
            {
                proof {
                    assert(decreases_to!(*a => (*a)->Object_0@[i as int]));
                    assert(decreases_to!(*a => (*a)->Object_0@[i as int].1));
                    assert((*a)->Object_0 == *x);
                }
                let names = str_equal(x[i].0.as_str(), y[i].0.as_str());
                let types = same_field_type_exec(&x[i].1, &y[i].1);
                assert(names == (x@[i as int].0@ == y@[i as int].0@));
                assert(types == same_field_type(x@[i as int].1, y@[i as int].1));
                if !names || !types {
                    assert(!same_field_type(*a, *b));
                    return false;
                }
                i = i + 1;
            }
            true
        },
        _ => {
            let ai = match a {
                FieldType::I8 | FieldType::I16 | FieldType::I32 | FieldType::I64 | FieldType::U8
                | FieldType::U16 | FieldType::U32 | FieldType::U64 | FieldType::U128 => true,
                _ => false,
            };
            let bi = match b {
                FieldType::I8 | FieldType::I16 | FieldType::I32 | FieldType::I64 | FieldType::U8
                | FieldType::U16 | FieldType::U32 | FieldType::U64 | FieldType::U128 => true,
                _ => false,
            };
            let af = match a {
                FieldType::F32 | FieldType::F64 => true,
                _ => false,
            };
            let bf = match b {
                FieldType::F32 | FieldType::F64 => true,
                _ => false,
            };
            (ai && bi) || (af && bf)
        },
    }
}

impl PartialEq for FieldType {
    fn eq(&self, other: &Self) -> (r: bool) {
        same_field_type_exec(self, other)
    }
}

impl PartialEqSpecImpl for FieldType {
    open spec fn obeys_eq_spec() -> bool {
        true
    }

    open spec fn eq_spec(&self, other: &Self) -> bool {
        same_field_type(*self, *other)
    }
}

} // verus!
