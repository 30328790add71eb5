//! Property values of nodes, edges and query parameters, and how they compare.
use vstd::prelude::*;
use crate::utils::text::chars_of;

verus! {

/// A property value.
#[derive(Debug)]
pub enum Value {
    String(String),
    I8(i8),
    I16(i16),
    I32(i32),
    I64(i64),
    U8(u8),
    U16(u16),
    U32(u32),
    U64(u64),
    U128(u128),
    Boolean(bool),
    Array(Vec<Value>),
    Object(Vec<(String, Value)>),
    Empty,
}

/// The result of comparing two values that can be compared.
#[derive(Debug, Clone, Copy, PartialEq, Eq, Structural)]
pub enum Rank {
    Less,
    Equal,
    Greater,
}

/// The integer a numeric value stands for.
pub open spec fn numeric_value(v: Value) -> Option<int> {
    match v {
        Value::I8(x) => Some(x as int),
        Value::I16(x) => Some(x as int),
        Value::I32(x) => Some(x as int),
        Value::I64(x) => Some(x as int),
        Value::U8(x) => Some(x as int),
        Value::U16(x) => Some(x as int),
        Value::U32(x) => Some(x as int),
        Value::U64(x) => Some(x as int),
        Value::U128(x) => Some(x as int),
        _ => None,
    }
}

/// Three-way comparison of two integers.
pub open spec fn int_order(a: int, b: int) -> Rank {
    if a < b {
        Rank::Less
    } else if a == b {
        Rank::Equal
    } else {
        Rank::Greater
    }
}

/// Lexicographic comparison of two texts by their characters' code points.
pub open spec fn text_order(a: Seq<char>, b: Seq<char>) -> Rank
    decreases a.len(),
{
    if a.len() == 0 && b.len() == 0 {
        Rank::Equal
    } else if a.len() == 0 {
        Rank::Less
    } else if b.len() == 0 {
        Rank::Greater
    } else if (a[0] as u32) < (b[0] as u32) {
        Rank::Less
    } else if (a[0] as u32) > (b[0] as u32) {
        Rank::Greater
    } else {
        text_order(a.drop_first(), b.drop_first())
    }
}

/// How two values compare: numbers of any width by their value, texts
/// lexicographically, booleans with `false` first, and two empty values as
/// equal; `None` for any other pair, which is unordered and unequal.
pub open spec fn value_order(a: Value, b: Value) -> Option<Rank> {
    if numeric_value(a) is Some && numeric_value(b) is Some {
        Some(int_order(numeric_value(a)->0, numeric_value(b)->0))
    } else {
        match (a, b) {
            (Value::String(x), Value::String(y)) => Some(text_order(x@, y@)),
            (Value::Boolean(x), Value::Boolean(y)) => Some(
                int_order(if x { 1int } else { 0int }, if y { 1int } else { 0int }),
            ),
            (Value::Empty, Value::Empty) => Some(Rank::Equal),
            _ => None,
        }
    }
}

/// Whether two values are equal.
pub open spec fn value_eq(a: Value, b: Value) -> bool {
    value_order(a, b) == Some(Rank::Equal)
}

/// The opposite of a comparison's result.
pub open spec fn flipped(r: Rank) -> Rank {
    match r {
        Rank::Less => Rank::Greater,
        Rank::Equal => Rank::Equal,
        Rank::Greater => Rank::Less,
    }
}

proof fn lemma_text_order_flip(a: Seq<char>, b: Seq<char>)
    ensures
        text_order(b, a) == flipped(text_order(a, b)),
    decreases a.len(),
{
    if a.len() > 0 && b.len() > 0 && (a[0] as u32) == (b[0] as u32) {
        lemma_text_order_flip(a.drop_first(), b.drop_first());
    }
}

/// Comparing two values the other way round gives the opposite result:
/// `a` is less than `b` exactly when `b` is greater than `a`, and equal
/// exactly when `b` is equal to `a`; an unordered pair stays unordered.
pub proof fn law_compare_flips(a: Value, b: Value)
    ensures
        value_order(b, a) == match value_order(a, b) {
            Some(r) => Some(flipped(r)),
            None => None::<Rank>,
        },
{
    match (a, b) {
        (Value::String(x), Value::String(y)) => lemma_text_order_flip(x@, y@),
        _ => {},
    }
}

proof fn lemma_text_order_refl(a: Seq<char>)
    ensures
        text_order(a, a) == Rank::Equal,
    decreases a.len(),
{
    if a.len() > 0 {
        lemma_text_order_refl(a.drop_first());
    }
}

/// Every number, text, boolean and the empty value is equal to itself.
pub proof fn law_value_equals_itself(a: Value)
    requires
        numeric_value(a) is Some || a is String || a is Boolean || a is Empty,
    ensures
        value_eq(a, a),
{
    match a {
        Value::String(x) => lemma_text_order_refl(x@),
        _ => {},
    }
}

/// Lexicographic comparison of two character sequences.
pub fn compare_chars(a: &Vec<char>, b: &Vec<char>) -> (r: Rank)
    ensures
        r == text_order(a@, b@),
{
    let mut i: usize = 0;
    assert(a@.skip(0) =~= a@);
    assert(b@.skip(0) =~= b@);
    while i < a.len() && i < b.len()
        invariant
            i <= a.len(),
            i <= b.len(),
            text_order(a@, b@) == text_order(a@.skip(i as int), b@.skip(i as int)),
        decreases a.len() - i,
    {
        let x = a[i] as u32;
        let y = b[i] as u32;
        assert(a@.skip(i as int)[0] == a@[i as int]);
        assert(b@.skip(i as int)[0] == b@[i as int]);
        if x < y {
            return Rank::Less;
        }
        if x > y {
            return Rank::Greater;
        }
        assert(a@.skip(i as int).drop_first() =~= a@.skip(i + 1));
        assert(b@.skip(i as int).drop_first() =~= b@.skip(i + 1));
        i = i + 1;
    }
    if i == a.len() && i == b.len() {
        Rank::Equal
    } else if i == a.len() {
        Rank::Less
    } else {
        Rank::Greater
    }
}

/// Three-way comparison of two `i128` values.
fn order_i128(a: i128, b: i128) -> (r: Rank)
    ensures
        r == int_order(a as int, b as int),
{
    if a < b {
        Rank::Less
    } else if a == b {
        Rank::Equal
    } else {
        Rank::Greater
    }
}

/// A numeric value as an integer, split into sign-free and signed storage:
/// `(Some(x), None)` for a non-negative value held in `u128`, `(None,
/// Some(y))` for one that fits `i128`.
fn numeric_parts(v: &Value) -> (r: Option<(bool, u128, i128)>)
    ensures
        match r {
            Some((is_unsigned, u, s)) => numeric_value(*v) is Some && (if is_unsigned {
                numeric_value(*v)->0 == u as int
            } else {
                numeric_value(*v)->0 == s as int
            }),
            None => numeric_value(*v) is None,
        },
{
    match v {
        Value::I8(x) => Some((false, 0, *x as i128)),
        Value::I16(x) => Some((false, 0, *x as i128)),
        Value::I32(x) => Some((false, 0, *x as i128)),
        Value::I64(x) => Some((false, 0, *x as i128)),
        Value::U8(x) => Some((true, *x as u128, 0)),
        Value::U16(x) => Some((true, *x as u128, 0)),
        Value::U32(x) => Some((true, *x as u128, 0)),
        Value::U64(x) => Some((true, *x as u128, 0)),
        Value::U128(x) => Some((true, *x, 0)),
        _ => None,
    }
}

/// Compares two values as `value_order` says.
pub fn compare_values(a: &Value, b: &Value) -> (r: Option<Rank>)
    ensures
        r == value_order(*a, *b),
{
    match (numeric_parts(a), numeric_parts(b)) {
        (Some((ua, xa, sa)), Some((ub, xb, sb))) => {
            if ua && ub {
                if xa < xb {
                    Some(Rank::Less)
                } else if xa == xb {
                    Some(Rank::Equal)
                } else {
                    Some(Rank::Greater)
                }
            } else if !ua && !ub {
                Some(order_i128(sa, sb))
            } else if ua {
                // a is unsigned, b is signed
                if sb < 0 {
                    Some(Rank::Greater)
                } else {
                    let bb = sb as u128;
                    if xa < bb {
                        Some(Rank::Less)
                    } else if xa == bb {
                        Some(Rank::Equal)
                    } else {
                        Some(Rank::Greater)
                    }
                }
            } else {
                if sa < 0 {
                    Some(Rank::Less)
                } else {
                    let aa = sa as u128;
                    if aa < xb {
                        Some(Rank::Less)
                    } else if aa == xb {
                        Some(Rank::Equal)
                    } else {
                        Some(Rank::Greater)
                    }
                }
            }
        },
        (Some(_), None) | (None, Some(_)) => match (a, b) {
            _ => None,
        },
        (None, None) => match (a, b) {
            (Value::String(x), Value::String(y)) => {
                let cx = chars_of(x.as_str());
                let cy = chars_of(y.as_str());
                Some(compare_chars(&cx, &cy))
            },
            (Value::Boolean(x), Value::Boolean(y)) => {
                let ix: i128 = if *x { 1 } else { 0 };
                let iy: i128 = if *y { 1 } else { 0 };
                Some(order_i128(ix, iy))
            },
            (Value::Empty, Value::Empty) => Some(Rank::Equal),
            _ => None,
        },
    }
}

} // verus!
