//! Checks of single names: variables, identifiers, fields of element
//! types, and the values given to fields of added items.
use vstd::prelude::*;
use crate::helixc::analyzer::diagnostic::Diagnostic;
use crate::helixc::analyzer::error_codes::ErrorCode;
use crate::helixc::analyzer::graph_step::{ElemKind, elem_of};
use crate::helixc::analyzer::schema::{
    edge_field_exists, edge_has_field, node_field_exists, node_has_field, vector_field_exists,
    vector_has_field,
};
use crate::helixc::analyzer::scope::{codes, in_query, in_scope, lookup, query_error, scope_flat, wrapped, wrapped2};
use crate::helixc::analyzer::types::Type;
use crate::helixc::location::Loc;
use crate::helixc::parser::ast::{FieldType, Query, Schema};
use crate::protocol::value::Value;
use crate::utils::text::{owned, push_str, str_equal};

verus! {

/// The words that cannot name a variable.
pub open spec fn reserved_word(n: Seq<char>) -> bool {
    n == "true"@ || n == "false"@ || n == "NONE"@ || n == "String"@ || n == "Boolean"@
        || n == "F32"@ || n == "F64"@ || n == "I8"@ || n == "I16"@ || n == "I32"@ || n == "I64"@
        || n == "U8"@ || n == "U16"@ || n == "U32"@ || n == "U64"@ || n == "U128"@ || n == "Uuid"@
        || n == "Date"@
}

/// Checks that `n` may name a variable: E105 where it is a reserved word.
pub fn check_identifier(q: &Query, loc: &Loc, n: &str, diags: &mut Vec<Diagnostic>) -> (r: bool)
    ensures
        r == !reserved_word(n@),
        codes(final(diags)@) == codes(old(diags)@) + if r { Seq::empty() } else { seq![ErrorCode::E105] },
        final(diags)@.len() >= old(diags)@.len(),
        final(diags)@.subrange(0, old(diags)@.len() as int) == old(diags)@,
{
    let bad = str_equal(n, "true") || str_equal(n, "false") || str_equal(n, "NONE")
        || str_equal(n, "String") || str_equal(n, "Boolean") || str_equal(n, "F32")
        || str_equal(n, "F64") || str_equal(n, "I8") || str_equal(n, "I16") || str_equal(n, "I32")
        || str_equal(n, "I64") || str_equal(n, "U8") || str_equal(n, "U16") || str_equal(n, "U32")
        || str_equal(n, "U64") || str_equal(n, "U128") || str_equal(n, "Uuid") || str_equal(n, "Date");
    if bad {
        query_error(diags, q, loc, ErrorCode::E105, wrapped("`", n, "` is not a valid identifier"), "use a valid identifier");
        assert(codes(diags@) =~= codes(old(diags)@) + seq![ErrorCode::E105]);
        false
    } else {
        assert(codes(diags@) =~= codes(old(diags)@) + Seq::<ErrorCode>::empty());
        assert(diags@.subrange(0, old(diags)@.len() as int) =~= old(diags)@);
        true
    }
}

/// Checks that a variable named `n` is in scope: E301 where it is not.
/// Gives its type where it is.
pub fn check_variable(q: &Query, loc: &Loc, scope: &Vec<(String, Type)>, n: &str, diags: &mut Vec<Diagnostic>) -> (r: Option<Type>)
    requires
        scope_flat(scope@),
    ensures
        r == crate::helixc::analyzer::scope::scope_lookup(scope@, n@),
        r is Some <==> in_scope(scope@, n@),
        r matches Some(t) ==> crate::helixc::analyzer::types::flat_type(t),
        codes(final(diags)@) == codes(old(diags)@) + if r is Some { Seq::empty() } else { seq![ErrorCode::E301] },
        final(diags)@.len() >= old(diags)@.len(),
        final(diags)@.subrange(0, old(diags)@.len() as int) == old(diags)@,
{
    let t = lookup(scope, n);
    if t.is_none() {
        query_error(diags, q, loc, ErrorCode::E301, wrapped("variable named `", n, "` is not in scope"), "declare it in the current scope or fix the typo");
        assert(codes(diags@) =~= codes(old(diags)@) + seq![ErrorCode::E301]);
    } else {
        assert(codes(diags@) =~= codes(old(diags)@) + Seq::<ErrorCode>::empty());
        assert(diags@.subrange(0, old(diags)@.len() as int) =~= old(diags)@);
    }
    t
}

/// Whether elements of type `cur` have a field named `f`: `id` always,
/// otherwise a field of the schema type that `cur` names.
pub open spec fn field_on(s: Schema, cur: Type, f: Seq<char>) -> bool {
    f == "id"@ || match elem_of(cur) {
        Some((k, n)) => {
            if k == ElemKind::Node || k == ElemKind::Nodes {
                node_has_field(s, n, f)
            } else if k == ElemKind::Edge || k == ElemKind::Edges {
                edge_has_field(s, n, f)
            } else {
                vector_has_field(s, n, f)
            }
        },
        None => false,
    }
}

/// The codes of a property access `f` on elements of type `cur`: E104 on a
/// type without properties, E202 for a field that the type lacks.
pub open spec fn access_codes(s: Schema, cur: Type, f: Seq<char>) -> Seq<ErrorCode> {
    if elem_of(cur) is None {
        seq![ErrorCode::E104]
    } else if field_on(s, cur, f) {
        Seq::empty()
    } else {
        seq![ErrorCode::E202]
    }
}

/// Whether elements of type `cur` have a field named `f`.
pub fn has_field_on(s: &Schema, cur: &Type, f: &str) -> (r: bool)
    ensures
        r == field_on(*s, *cur, f@),
{
    if str_equal(f, "id") {
        return true;
    }
    match cur {
        Type::Node(Some(n)) | Type::Nodes(Some(n)) => node_field_exists(s, n.as_str(), f),
        Type::Edge(Some(n)) | Type::Edges(Some(n)) => edge_field_exists(s, n.as_str(), f),
        Type::Vector(Some(n)) | Type::Vectors(Some(n)) => vector_field_exists(s, n.as_str(), f),
        _ => false,
    }
}

/// The word for the kind of an element type, in messages.
pub open spec fn elem_word(cur: Type) -> Seq<char> {
    match cur {
        Type::Node(Some(_)) | Type::Nodes(Some(_)) => "node"@,
        Type::Edge(Some(_)) | Type::Edges(Some(_)) => "edge"@,
        Type::Vector(Some(_)) | Type::Vectors(Some(_)) => "vector"@,
        _ => "item"@,
    }
}

/// The schema name of an element type, in messages.
pub open spec fn elem_name(cur: Type) -> Seq<char> {
    match cur {
        Type::Node(Some(n)) | Type::Nodes(Some(n)) | Type::Edge(Some(n)) | Type::Edges(Some(n))
        | Type::Vector(Some(n)) | Type::Vectors(Some(n)) => n@,
        _ => "unknown"@,
    }
}

/// The message of an access to a field `f` that elements of type `cur` lack.
pub open spec fn not_a_field_message(cur: Type, f: Seq<char>) -> Seq<char> {
    "`"@ + f + "` is not a field of "@ + elem_word(cur) + " `"@ + elem_name(cur) + "`"@
}

/// The word and name of an element type, for messages.
fn elem_words(cur: &Type) -> (r: (&'static str, String))
    ensures
        r.0@ == elem_word(*cur),
        r.1@ == elem_name(*cur),
{
    match cur {
        Type::Node(Some(n)) | Type::Nodes(Some(n)) => ("node", n.clone()),
        Type::Edge(Some(n)) | Type::Edges(Some(n)) => ("edge", n.clone()),
        Type::Vector(Some(n)) | Type::Vectors(Some(n)) => ("vector", n.clone()),
        _ => ("item", owned("unknown")),
    }
}

/// Checks a property access `f` on elements of type `cur`.
pub fn check_access(s: &Schema, q: &Query, loc: &Loc, cur: &Type, f: &str, diags: &mut Vec<Diagnostic>)
    ensures
        codes(final(diags)@) == codes(old(diags)@) + access_codes(*s, *cur, f@),
        final(diags)@.len() >= old(diags)@.len(),
        final(diags)@.subrange(0, old(diags)@.len() as int) == old(diags)@,
        elem_of(*cur) is Some && !field_on(*s, *cur, f@) ==> final(diags)@.last().message@
            == in_query(not_a_field_message(*cur, f@), *q),
        elem_of(*cur) is None ==> final(diags)@.last().message@
            == in_query("cannot access properties on this type"@, *q),
{
    let is_elem = match cur {
        Type::Node(Some(_)) | Type::Nodes(Some(_)) | Type::Edge(Some(_)) | Type::Edges(Some(_))
        | Type::Vector(Some(_)) | Type::Vectors(Some(_)) => true,
        _ => false,
    };
    if !is_elem {
        query_error(diags, q, loc, ErrorCode::E104, owned("cannot access properties on this type"), "property access is only valid on nodes, edges and vectors");
        assert(codes(diags@) =~= codes(old(diags)@) + seq![ErrorCode::E104]);
    } else if has_field_on(s, cur, f) {
        assert(codes(diags@) =~= codes(old(diags)@) + Seq::<ErrorCode>::empty());
        assert(diags@.subrange(0, old(diags)@.len() as int) =~= old(diags)@);
    } else {
        let (word, name) = elem_words(cur);
        let mut prefix = owned("` is not a field of ");
        push_str(&mut prefix, word);
        push_str(&mut prefix, " `");
        let msg = wrapped2("`", f, prefix.as_str(), name.as_str(), "`");
        assert(msg@ =~= not_a_field_message(*cur, f@));
        query_error(diags, q, loc, ErrorCode::E202, msg, "check the schema field names");
        assert(codes(diags@) =~= codes(old(diags)@) + seq![ErrorCode::E202]);
    }
}

/// Whether chrono reads the text as a calendar date (`NaiveDate`).
pub uninterp spec fn naive_date_parses(s: Seq<char>) -> bool;

/// Whether chrono reads the text as a date and time in UTC (`DateTime<Utc>`).
pub uninterp spec fn utc_datetime_parses(s: Seq<char>) -> bool;

/// Whether chrono has a UTC date and time `secs` seconds after the Unix
/// epoch: from -262143-01-01 00:00:00 to +262142-12-31 23:59:59, the range
/// of its calendar dates.
pub open spec fn timestamp_representable(secs: i64) -> bool {
    -8_334_601_228_800 <= secs <= 8_210_266_876_799
}

/// `s.parse::<chrono::NaiveDate>()` succeeds: which texts it reads (a
/// `%Y-%m-%d` date) is named, not stated.
#[verifier::external_body]
pub(crate) fn parses_as_naive_date(s: &str) -> (r: bool)
    ensures
        r == naive_date_parses(s@),
{
    s.parse::<chrono::NaiveDate>().is_ok()
}

/// `s.parse::<chrono::DateTime<chrono::Utc>>()` succeeds: which texts it
/// reads (a relaxed RFC 3339) is named, not stated.
#[verifier::external_body]
pub(crate) fn parses_as_utc_datetime(s: &str) -> (r: bool)
    ensures
        r == utc_datetime_parses(s@),
{
    s.parse::<chrono::DateTime<chrono::Utc>>().is_ok()
}

/// `chrono::DateTime::from_timestamp(secs, 0)` is `Some`: exactly for the
/// seconds whose day falls between `NaiveDate::MIN` and `NaiveDate::MAX`.
#[verifier::external_body]
pub(crate) fn timestamp_exists(secs: i64) -> (r: bool)
    ensures
        r == timestamp_representable(secs),
{
    chrono::DateTime::from_timestamp(secs, 0).is_some()
}

/// The index of the first of the first `n` entries of an object value
/// with key `k`, or -1 where none has it.
pub open spec fn key_index(vs: Seq<(String, Value)>, k: Seq<char>, n: int) -> int
    decreases n,
{
    if n <= 0 {
        -1
    } else if key_index(vs, k, n - 1) >= 0 {
        key_index(vs, k, n - 1)
    } else if vs[n - 1].0@ == k {
        n - 1
    } else {
        -1
    }
}

/// Whether `v` is a literal value that a field of type `ft` accepts: a
/// date takes a text that chrono reads as a date or a date and time, or a
/// timestamp in chrono's range; an array takes an array whose items each
/// fit its item type; an object takes an object with as many entries as it
/// has fields, where the first entry under each field's name fits the
/// field's type.
pub open spec fn literal_fits(ft: FieldType, v: Value) -> bool
    decreases ft,
{
    if ft is Array && v is Array {
        forall|i: int| #![trigger v->Array_0@[i]] 0 <= i < v->Array_0@.len() ==> literal_fits(*ft->Array_0, v->Array_0@[i])
    } else if ft is Object && v is Object {
        &&& ft->Object_0@.len() == v->Object_0@.len()
        &&& forall|i: int| #![trigger ft->Object_0@[i]] 0 <= i < ft->Object_0@.len() ==> {
            let j = key_index(v->Object_0@, ft->Object_0@[i].0@, v->Object_0@.len() as int);
            j >= 0 && literal_fits(ft->Object_0@[i].1, v->Object_0@[j].1)
        }
    } else {
    match (ft, v) {
        (FieldType::String, Value::String(_)) => true,
        (FieldType::Boolean, Value::Boolean(_)) => true,
        (FieldType::Date, Value::String(d)) => naive_date_parses(d@) || utc_datetime_parses(d@),
        (FieldType::Date, Value::I64(t)) => timestamp_representable(t),
        (FieldType::Date, Value::U64(t)) => timestamp_representable(t as i64),
        _ => (ft is I8 || ft is I16 || ft is I32 || ft is I64 || ft is U8 || ft is U16 || ft is U32
            || ft is U64 || ft is U128) && (v is I8 || v is I16 || v is I32 || v is I64 || v is U8
            || v is U16 || v is U32 || v is U64 || v is U128),
    }
}
}

/// What `literal_fits` says of an array value for an array type.
proof fn lemma_fits_array(x: FieldType, y: Value)
    requires
        x is Array,
        y is Array,
    ensures
        literal_fits(x, y) == (forall|i: int| #![trigger y->Array_0@[i]] 0 <= i < y->Array_0@.len()
            ==> literal_fits(*x->Array_0, y->Array_0@[i])),
{
}

/// A key first found at `j` (or not found in all entries when `j` is the
/// length) is where `key_index` puts it.
proof fn lemma_key_index_found(vs: Seq<(String, Value)>, k: Seq<char>, j: int)
    requires
        0 <= j <= vs.len(),
        key_index(vs, k, j) == -1,
        j < vs.len() ==> vs[j].0@ == k,
    ensures
        key_index(vs, k, vs.len() as int) == if j < vs.len() { j } else { -1 },
    decreases vs.len() - j,
{
    if j < vs.len() {
        lemma_key_index_stays(vs, k, j + 1);
    }
}

/// Once found, the first index of a key stays as more entries are seen.
proof fn lemma_key_index_stays(vs: Seq<(String, Value)>, k: Seq<char>, n: int)
    requires
        0 < n <= vs.len(),
        key_index(vs, k, n) >= 0,
    ensures
        key_index(vs, k, vs.len() as int) == key_index(vs, k, n),
    decreases vs.len() - n,
{
    if n < vs.len() {
        lemma_key_index_stays(vs, k, n + 1);
    }
}

/// What `literal_fits` says of an object value for an object type.
proof fn lemma_fits_object(x: FieldType, y: Value)
    requires
        x is Object,
        y is Object,
    ensures
        literal_fits(x, y) == object_fits(x->Object_0@, y->Object_0@),
{
}

/// Whether an object value with entries `vs` fits an object type with
/// fields `fs` (see `literal_fits`).
pub open spec fn object_fits(fs: Seq<(String, FieldType)>, vs: Seq<(String, Value)>) -> bool {
    &&& fs.len() == vs.len()
    &&& forall|i: int| #![trigger fs[i]] 0 <= i < fs.len() ==> {
        let j = key_index(vs, fs[i].0@, vs.len() as int);
        j >= 0 && literal_fits(fs[i].1, vs[j].1)
    }
}

/// Whether a literal value fits a field type.
pub fn literal_fits_exec(ft: &FieldType, v: &Value) -> (r: bool)
    ensures
        r == literal_fits(*ft, *v),
    decreases ft,
{
    match (ft, v) {
        (FieldType::Array(inner), Value::Array(vs)) => {
            let mut i: usize = 0;
            while i < vs.len()
                invariant
                    i <= vs@.len(),
                    *ft == FieldType::Array(*inner),
                    *v == Value::Array(*vs),
                    forall|k: int| #![trigger vs@[k]] 0 <= k < i ==> literal_fits(**inner, vs@[k]),
                decreases vs.len() - i,
            {
                proof { assert(decreases_to!(*ft => *(*ft)->Array_0)); }
                if !literal_fits_exec(inner, &vs[i]) {
                    assert(!literal_fits(**inner, vs@[i as int]));
                    assert(vs@[i as int] == v->Array_0@[i as int]);
                    proof { lemma_fits_array(*ft, *v); }
                    return false;
                }
                i = i + 1;
            }
            return true;
        },
        (FieldType::Object(fs), Value::Object(vs)) => {
            proof { lemma_fits_object(*ft, *v); }
            if fs.len() != vs.len() {
                return false;
            }
            let mut i: usize = 0;
            while i < fs.len()
                invariant
                    i <= fs@.len(),
                    fs@.len() == vs@.len(),
                    *ft == FieldType::Object(*fs),
                    *v == Value::Object(*vs),
                    forall|k: int| #![trigger fs@[k]] 0 <= k < i ==> {
                        let j = key_index(vs@, fs@[k].0@, vs@.len() as int);
                        j >= 0 && literal_fits(fs@[k].1, vs@[j].1)
                    },
                decreases fs.len() - i,
            {
                let mut j: usize = 0;
                while j < vs.len() && !str_equal(vs[j].0.as_str(), fs[i].0.as_str())
                    invariant
                        j <= vs@.len(),
                        i < fs@.len(),
                        key_index(vs@, fs@[i as int].0@, j as int) == -1,
                    decreases vs.len() - j,
                {
                    j = j + 1;
                }
                proof { lemma_key_index_found(vs@, fs@[i as int].0@, j as int); }
                if j == vs.len() {
                    proof { lemma_fits_object(*ft, *v); }
                    return false;
                }
                proof {
                    assert(decreases_to!(*ft => (*ft)->Object_0@[i as int]));
                    assert(decreases_to!(*ft => (*ft)->Object_0@[i as int].1));
                }
                if !literal_fits_exec(&fs[i].1, &vs[j].1) {
                    proof { lemma_fits_object(*ft, *v); }
                    return false;
                }
                i = i + 1;
            }
            return true;
        },
        _ => {},
    }
    let int_type = ft.is_int_type();
    let int_value = match v {
        Value::I8(_) | Value::I16(_) | Value::I32(_) | Value::I64(_) | Value::U8(_) | Value::U16(_)
        | Value::U32(_) | Value::U64(_) | Value::U128(_) => true,
        _ => false,
    };
    match (ft, v) {
        (FieldType::String, Value::String(_)) => true,
        (FieldType::Boolean, Value::Boolean(_)) => true,
        (FieldType::Date, Value::String(d)) => parses_as_naive_date(d.as_str()) || parses_as_utc_datetime(d.as_str()),
        (FieldType::Date, Value::I64(t)) => timestamp_exists(*t),
        (FieldType::Date, Value::U64(t)) => timestamp_exists(*t as i64),
        _ => int_type && int_value,
    }
}

} // verus!
