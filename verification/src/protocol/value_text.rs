//! How property values are written as text.
use vstd::prelude::*;
use crate::protocol::value::Value;
use crate::utils::decimal::{i128_text, signed_numeral, u128_text, numeral};
use crate::utils::text::{owned, push_str};

verus! {

/// How a value is written: a text as it is, a number in base ten, `true`
/// or `false`, an array as `[a, b]`, an object as `{k: v, ...}`, and
/// nothing for the empty value.
pub open spec fn value_text(v: Value) -> Seq<char>
    decreases v,
{
    match v {
        Value::String(s) => s@,
        Value::I8(x) => signed_numeral(x as int),
        Value::I16(x) => signed_numeral(x as int),
        Value::I32(x) => signed_numeral(x as int),
        Value::I64(x) => signed_numeral(x as int),
        Value::U8(x) => signed_numeral(x as int),
        Value::U16(x) => signed_numeral(x as int),
        Value::U32(x) => signed_numeral(x as int),
        Value::U64(x) => signed_numeral(x as int),
        Value::U128(x) => numeral(x as nat),
        Value::Boolean(b) => if b { "true"@ } else { "false"@ },
        Value::Array(items) => "["@ + items_text(items@, items@.len() as int) + "]"@,
        Value::Object(fields) => "{"@ + entries_text(fields@, fields@.len() as int) + "}"@,
        Value::Empty => Seq::empty(),
    }
}

/// The first `n` items, written and joined by `, `.
pub open spec fn items_text(items: Seq<Value>, n: int) -> Seq<char>
    decreases items, n,
{
    if n <= 0 || n > items.len() {
        Seq::empty()
    } else if n == 1 {
        value_text(items[0])
    } else {
        items_text(items, n - 1) + ", "@ + value_text(items[n - 1])
    }
}

/// The first `n` entries, each written `key: value`, joined by `, `.
pub open spec fn entries_text(fields: Seq<(String, Value)>, n: int) -> Seq<char>
    decreases fields, n,
{
    if n <= 0 || n > fields.len() {
        Seq::empty()
    } else if n == 1 {
        fields[0].0@ + ": "@ + value_text(fields[0].1)
    } else {
        entries_text(fields, n - 1) + ", "@ + fields[n - 1].0@ + ": "@ + value_text(fields[n - 1].1)
    }
}

impl Value {
    /// How the value is written.
    pub fn to_text(&self) -> (r: String)
        ensures
            r@ == value_text(*self),
        decreases self,
    {
        match self {
            Value::String(s) => s.clone(),
            Value::I8(x) => i128_text(*x as i128),
            Value::I16(x) => i128_text(*x as i128),
            Value::I32(x) => i128_text(*x as i128),
            Value::I64(x) => i128_text(*x as i128),
            Value::U8(x) => i128_text(*x as i128),
            Value::U16(x) => i128_text(*x as i128),
            Value::U32(x) => i128_text(*x as i128),
            Value::U64(x) => i128_text(*x as i128),
            Value::U128(x) => u128_text(*x),
            Value::Boolean(b) => if *b { owned("true") } else { owned("false") },
            Value::Array(items) => {
                let mut s = owned("[");
                let mut i: usize = 0;
                while i < items.len()
                    invariant
                        i <= items@.len(),
                        *self == Value::Array(*items),
                        s@ == "["@ + items_text(items@, i as int),
                    decreases items.len() - i,
                {
                    proof {
                        assert(decreases_to!(*self => self->Array_0@[i as int]));
                    }
                    if i > 0 {
                        push_str(&mut s, ", ");
                    }
                    let t = items[i].to_text();
                    push_str(&mut s, t.as_str());
                    assert(s@ =~= "["@ + items_text(items@, i + 1));
                    i = i + 1;
                }
                push_str(&mut s, "]");
                s
            },
            Value::Object(fields) => {
                let mut s = owned("{");
                let mut i: usize = 0;
                while i < fields.len()
                    invariant
                        i <= fields@.len(),
                        *self == Value::Object(*fields),
                        s@ == "{"@ + entries_text(fields@, i as int),
                    decreases fields.len() - i,
                {
                    proof {
                        assert(decreases_to!(*self => self->Object_0@[i as int].1));
                    }
                    if i > 0 {
                        push_str(&mut s, ", ");
                    }
                    push_str(&mut s, fields[i].0.as_str());
                    push_str(&mut s, ": ");
                    let t = fields[i].1.to_text();
                    push_str(&mut s, t.as_str());
                    assert(s@ =~= "{"@ + entries_text(fields@, i + 1));
                    i = i + 1;
                }
                push_str(&mut s, "}");
                s
            },
            Value::Empty => String::new(),
        }
    }
}

} // verus!
