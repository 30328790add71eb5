//! Checks of the items that a query adds or searches: their types, the
//! fields they are given, and the variables they name.
use vstd::prelude::*;
use crate::helixc::analyzer::checks::{check_identifier, check_variable, literal_fits, literal_fits_exec, reserved_word};
use crate::helixc::analyzer::diagnostic::Diagnostic;
use crate::helixc::analyzer::error_codes::ErrorCode;
use crate::helixc::analyzer::schema::{
    find_edge, first_edge, is_node_type, is_vector_type, node_declared, edge_declared, vector_declared,
};
use crate::helixc::analyzer::scope::{codes, in_query, in_scope, query_error, scope_flat, wrapped, wrapped2};
use crate::helixc::analyzer::types::{Type, flat_type};
use crate::helixc::location::Loc;
use crate::helixc::parser::ast::{
    AddEdge, AddNode, AddVector, BM25Search, BatchAddVector, EvaluatesToNumberType, EvaluatesToString, Field, IdType, Query, Schema, SearchVector, ValueType, VectorData,
};
use crate::protocol::value::Value;
use crate::utils::decimal::{i128_text, numeral, signed_numeral};
use crate::utils::text::{owned, push_str, str_equal};

verus! {

/// Whether `b` continues `a`: it holds `a`'s diagnostics first.
pub open spec fn extends(a: Seq<Diagnostic>, b: Seq<Diagnostic>) -> bool {
    a.len() <= b.len() && b.subrange(0, a.len() as int) == a
}

pub proof fn lemma_extends_refl(a: Seq<Diagnostic>)
    ensures
        extends(a, a),
{
    assert(a.subrange(0, a.len() as int) =~= a);
}

pub proof fn lemma_extends_trans(a: Seq<Diagnostic>, b: Seq<Diagnostic>, c: Seq<Diagnostic>)
    requires
        extends(a, b),
        extends(b, c),
    ensures
        extends(a, c),
{
    assert(c.subrange(0, a.len() as int) =~= b.subrange(0, a.len() as int));
}

/// Every list of diagnostics continues the empty one.
pub proof fn lemma_extends_empty(a: Seq<Diagnostic>)
    ensures
        extends(Seq::empty(), a),
{
    assert(a.subrange(0, 0) =~= Seq::<Diagnostic>::empty());
}

/// Whether a diagnostic with code `c` was reported after `before`: `after`
/// holds one beyond the first `before.len()`.
pub open spec fn reported(before: Seq<Diagnostic>, after: Seq<Diagnostic>, c: ErrorCode) -> bool {
    exists|j: int| before.len() <= j < after.len() && #[trigger] after[j].error_code == c
}

/// A report stays reported as more diagnostics follow.
pub proof fn lemma_reported_extends(a: Seq<Diagnostic>, b: Seq<Diagnostic>, c: Seq<Diagnostic>, code: ErrorCode)
    requires
        extends(a, b),
        extends(b, c),
    ensures
        reported(a, b, code) ==> reported(a, c, code),
        reported(b, c, code) ==> reported(a, c, code),
{
    if reported(a, b, code) {
        let j = choose|j: int| a.len() <= j < b.len() && #[trigger] b[j].error_code == code;
        assert(c[j] == c.subrange(0, b.len() as int)[j]);
    }
}

/// Every report stays reported as more diagnostics follow.
pub proof fn lemma_reported_extends_all(a: Seq<Diagnostic>, b: Seq<Diagnostic>, c: Seq<Diagnostic>)
    requires
        extends(a, b),
        extends(b, c),
    ensures
        forall|code: ErrorCode| reported(a, b, code) ==> #[trigger] reported(a, c, code),
{
    assert forall|code: ErrorCode| reported(a, b, code) implies #[trigger] reported(a, c, code) by {
        lemma_reported_extends(a, b, c, code);
    }
}

/// The diagnostic at `j`, beyond `a`, is reported.
pub proof fn lemma_reported_at(a: Seq<Diagnostic>, b: Seq<Diagnostic>, j: int)
    requires
        a.len() <= j < b.len(),
    ensures
        reported(a, b, b[j].error_code),
{
}

/// The kinds of item whose fields are given.
#[derive(Debug, Clone, Copy, PartialEq, Eq, Structural)]
pub enum ItemKind {
    Node,
    Edge,
    Vector,
}

/// Whether node type `i` is the first one named `n`.
pub open spec fn first_node(s: Schema, n: Seq<char>, i: int) -> bool {
    &&& 0 <= i < s.node_schemas@.len()
    &&& s.node_schemas@[i].name.1@ == n
    &&& forall|j: int| 0 <= j < i ==> #[trigger] s.node_schemas@[j].name.1@ != n
}

/// Whether vector type `i` is the first one named `n`.
pub open spec fn first_vector(s: Schema, n: Seq<char>, i: int) -> bool {
    &&& 0 <= i < s.vector_schemas@.len()
    &&& s.vector_schemas@[i].name@ == n
    &&& forall|j: int| 0 <= j < i ==> #[trigger] s.vector_schemas@[j].name@ != n
}

/// The fields of the first declaration of the type named `n` of kind
/// `kind`; `None` where there is none, or an edge type without properties.
pub open spec fn declared_item_fields(s: Schema, kind: ItemKind, n: Seq<char>) -> Option<Seq<Field>> {
    match kind {
        ItemKind::Node => if exists|i: int| first_node(s, n, i) {
            Some(s.node_schemas@[choose|i: int| first_node(s, n, i)].fields@)
        } else {
            None
        },
        ItemKind::Vector => if exists|i: int| first_vector(s, n, i) {
            Some(s.vector_schemas@[choose|i: int| first_vector(s, n, i)].fields@)
        } else {
            None
        },
        ItemKind::Edge => if exists|i: int| first_edge(s, n, i) {
            match s.edge_schemas@[choose|i: int| first_edge(s, n, i)].properties {
                Some(ps) => Some(ps@),
                None => None,
            }
        } else {
            None
        },
    }
}

/// The first field named `f` of a list.
pub open spec fn field_lookup(fs: Seq<Field>, f: Seq<char>) -> Option<Field>
    decreases fs.len(),
{
    if fs.len() == 0 {
        None
    } else if fs[0].name@ == f {
        Some(fs[0])
    } else {
        field_lookup(fs.drop_first(), f)
    }
}

/// The fields that the schema gives a node, edge or vector type named
/// `n`: those of its first declaration.
pub(crate) fn declared_fields<'a>(s: &'a Schema, kind: ItemKind, n: &str) -> (r: Option<&'a Vec<Field>>)
    ensures
        match r {
            Some(fs) => declared_item_fields(*s, kind, n@) == Some(fs@),
            None => declared_item_fields(*s, kind, n@) is None,
        },
{
    match kind {
        ItemKind::Node => {
            let mut i: usize = 0;
            while i < s.node_schemas.len()
                invariant
                    i <= s.node_schemas@.len(),
                    kind == ItemKind::Node,
                    forall|j: int| 0 <= j < i ==> #[trigger] s.node_schemas@[j].name.1@ != n@,
                decreases s.node_schemas.len() - i,
            {
                if str_equal(s.node_schemas[i].name.1.as_str(), n) {
                    proof {
                        assert(first_node(*s, n@, i as int));
                        let c = choose|c: int| first_node(*s, n@, c);
                        assert(c == i) by {
                            if c < i {
                                assert(s.node_schemas@[c].name.1@ != n@);
                            } else if c > i {
                                assert(s.node_schemas@[i as int].name.1@ != n@);
                            }
                        }
                    }
                    return Some(&s.node_schemas[i].fields);
                }
                i = i + 1;
            }
            None
        },
        ItemKind::Vector => {
            let mut i: usize = 0;
            while i < s.vector_schemas.len()
                invariant
                    i <= s.vector_schemas@.len(),
                    kind == ItemKind::Vector,
                    forall|j: int| 0 <= j < i ==> #[trigger] s.vector_schemas@[j].name@ != n@,
                decreases s.vector_schemas.len() - i,
            {
                if str_equal(s.vector_schemas[i].name.as_str(), n) {
                    proof {
                        assert(first_vector(*s, n@, i as int));
                        let c = choose|c: int| first_vector(*s, n@, c);
                        assert(c == i) by {
                            if c < i {
                                assert(s.vector_schemas@[c].name@ != n@);
                            } else if c > i {
                                assert(s.vector_schemas@[i as int].name@ != n@);
                            }
                        }
                    }
                    return Some(&s.vector_schemas[i].fields);
                }
                i = i + 1;
            }
            None
        },
        ItemKind::Edge => {
            match find_edge(s, n) {
                Some(i) => {
                    proof {
                        let c = choose|c: int| first_edge(*s, n@, c);
                        assert(c == i) by {
                            if c < i {
                                assert(s.edge_schemas@[c].name.1@ != n@);
                            } else if c > i {
                                assert(s.edge_schemas@[i as int].name.1@ != n@);
                            }
                        }
                    }
                    match &s.edge_schemas[i].properties {
                        Some(ps) => Some(ps),
                        None => None,
                    }
                },
                None => {
                    proof {
                        if exists|c: int| first_edge(*s, n@, c) {
                            let c = choose|c: int| first_edge(*s, n@, c);
                            assert(s.edge_schemas@[c].name.1@ == n@);
                        }
                    }
                    None
                },
            }
        },
    }
}

/// The field named `f` among `fields`.
pub(crate) fn field_named<'a>(fields: &'a Vec<Field>, f: &str) -> (r: Option<&'a Field>)
    ensures
        r matches Some(fd) ==> fd.name@ == f@,
        match r {
            Some(fd) => field_lookup(fields@, f@) == Some(*fd),
            None => field_lookup(fields@, f@) is None,
        },
{
    let mut j: usize = 0;
    assert(fields@.skip(0) =~= fields@);
    while j < fields.len()
        invariant
            j <= fields@.len(),
            field_lookup(fields@, f@) == field_lookup(fields@.skip(j as int), f@),
        decreases fields.len() - j,
    {
        assert(fields@.skip(j as int)[0] == fields@[j as int]);
        assert(fields@.skip(j as int).drop_first() =~= fields@.skip(j + 1));
        if str_equal(fields[j].name.as_str(), f) {
            return Some(&fields[j]);
        }
        j = j + 1;
    }
    None
}

/// How a value is written in messages: a text as it is, a number in base
/// ten, a boolean as `true` or `false`, anything else as `value`.
pub open spec fn value_text(v: Value) -> Seq<char> {
    match v {
        Value::String(s) => s@,
        Value::I8(x) => signed_numeral(x as int),
        Value::I16(x) => signed_numeral(x as int),
        Value::I32(x) => signed_numeral(x as int),
        Value::I64(x) => signed_numeral(x as int),
        Value::U8(x) => signed_numeral(x as int),
        Value::U16(x) => signed_numeral(x as int),
        Value::U32(x) => signed_numeral(x as int),
        Value::U64(x) => signed_numeral(x as int),
        Value::U128(x) => numeral(x as nat),
        Value::Boolean(b) => if b { "true"@ } else { "false"@ },
        _ => "value"@,
    }
}

/// A value as written in messages.
fn value_words(v: &Value) -> (r: String)
    ensures
        r@ == value_text(*v),
{
    match v {
        Value::String(s) => s.clone(),
        Value::I8(x) => i128_text(*x as i128),
        Value::I16(x) => i128_text(*x as i128),
        Value::I32(x) => i128_text(*x as i128),
        Value::I64(x) => i128_text(*x as i128),
        Value::U8(x) => i128_text(*x as i128),
        Value::U16(x) => i128_text(*x as i128),
        Value::U32(x) => i128_text(*x as i128),
        Value::U64(x) => i128_text(*x as i128),
        Value::U128(x) => crate::utils::decimal::u128_text(*x),
        Value::Boolean(b) => if *b { owned("true") } else { owned("false") },
        _ => owned("value"),
    }
}

/// Whether a diagnostic with code `c` and message `msg` was reported after
/// `before`.
pub open spec fn reported_with(before: Seq<Diagnostic>, after: Seq<Diagnostic>, c: ErrorCode, msg: Seq<char>) -> bool {
    exists|j: int| before.len() <= j < after.len() && #[trigger] after[j].error_code == c && after[j].message@ == msg
}

/// A report with its message stays reported as more diagnostics follow.
pub proof fn lemma_reported_with_extends(a: Seq<Diagnostic>, b: Seq<Diagnostic>, c: Seq<Diagnostic>, code: ErrorCode, msg: Seq<char>)
    requires
        extends(a, b),
        extends(b, c),
    ensures
        reported_with(a, b, code, msg) ==> reported_with(a, c, code, msg),
        reported_with(b, c, code, msg) ==> reported_with(a, c, code, msg),
{
    if reported_with(a, b, code, msg) {
        let j = choose|j: int| a.len() <= j < b.len() && #[trigger] b[j].error_code == code && b[j].message@ == msg;
        assert(c[j] == c.subrange(0, b.len() as int)[j]);
    }
}

/// The message, before the query's name, for a field `name` that items of
/// kind `kind` and type `ty` lack.
pub open spec fn unknown_field_message(kind: ItemKind, name: Seq<char>, ty: Seq<char>) -> Seq<char> {
    match kind {
        ItemKind::Vector => "`"@ + name + "` is not a valid vector field (it is not a field of vector `"@ + ty + "`)"@,
        ItemKind::Node => "`"@ + name + ("` is not a field of "@ + "node"@ + " `"@) + ty + "`"@,
        ItemKind::Edge => "`"@ + name + ("` is not a field of "@ + "edge"@ + " `"@) + ty + "`"@,
    }
}

/// Whether the problems of the field `f` given in query `q` to an item of
/// kind `kind` and type `ty` were reported: a field that the type lacks
/// with E202 and the message `unknown_field_message`, a literal that does
/// not fit the field's type, or a decimal for a field that is no float,
/// with E205.
pub open spec fn item_field_reported(
    s: Schema,
    q: Query,
    kind: ItemKind,
    ty: Seq<char>,
    f: (String, ValueType),
    before: Seq<Diagnostic>,
    after: Seq<Diagnostic>,
) -> bool {
    let missing = reported_with(before, after, ErrorCode::E202, in_query(unknown_field_message(kind, f.0@, ty), q));
    match declared_item_fields(s, kind, ty) {
        None => missing,
        Some(fs) => match field_lookup(fs, f.0@) {
            None => missing,
            Some(fd) => match f.1 {
                ValueType::Literal { value, .. } => !literal_fits(fd.field_type, value)
                    ==> reported(before, after, ErrorCode::E205),
                ValueType::Decimal { .. } => !(fd.field_type is F32 || fd.field_type is F64)
                    ==> reported(before, after, ErrorCode::E205),
                _ => true,
            },
        },
    }
}

/// Reports of a field stay reported as more diagnostics follow.
proof fn lemma_item_field_reported_extends(
    s: Schema,
    q: Query,
    kind: ItemKind,
    ty: Seq<char>,
    f: (String, ValueType),
    a: Seq<Diagnostic>,
    b: Seq<Diagnostic>,
    c: Seq<Diagnostic>,
)
    requires
        extends(a, b),
        extends(b, c),
    ensures
        item_field_reported(s, q, kind, ty, f, a, b) ==> item_field_reported(s, q, kind, ty, f, a, c),
        item_field_reported(s, q, kind, ty, f, b, c) ==> item_field_reported(s, q, kind, ty, f, a, c),
{
    lemma_reported_with_extends(a, b, c, ErrorCode::E202, in_query(unknown_field_message(kind, f.0@, ty), q));
    lemma_reported_extends(a, b, c, ErrorCode::E205);
}

/// Checks the fields given to an added item of kind `kind` and type `ty`:
/// each must be a field of the type (E202), a variable given must be in
/// scope (E301), and a literal must fit the field's type (E205).
pub fn check_item_fields(
    s: &Schema,
    q: &Query,
    loc: &Loc,
    scope: &Vec<(String, Type)>,
    kind: ItemKind,
    ty: &String,
    fields: &Vec<(String, ValueType)>,
    diags: &mut Vec<Diagnostic>,
)
    requires
        scope_flat(scope@),
    ensures
        extends(old(diags)@, final(diags)@),
        forall|i: int| 0 <= i < fields@.len()
            ==> #[trigger] item_field_reported(*s, *q, kind, ty@, fields@[i], old(diags)@, final(diags)@),
{
    let declared = declared_fields(s, kind, ty.as_str());
    let word = match kind {
        ItemKind::Node => "node",
        ItemKind::Edge => "edge",
        ItemKind::Vector => "vector",
    };
    proof { lemma_extends_refl(diags@); }
    let mut i: usize = 0;
    while i < fields.len()
        invariant
            i <= fields@.len(),
            scope_flat(scope@),
            extends(old(diags)@, diags@),
            match declared {
                Some(fs) => declared_item_fields(*s, kind, ty@) == Some(fs@),
                None => declared_item_fields(*s, kind, ty@) is None,
            },
            forall|k: int| 0 <= k < i
                ==> #[trigger] item_field_reported(*s, *q, kind, ty@, fields@[k], old(diags)@, diags@),
            word@ == match kind {
                ItemKind::Node => "node"@,
                ItemKind::Edge => "edge"@,
                ItemKind::Vector => "vector"@,
            },
        decreases fields.len() - i,
    {
        let ghost before = diags@;
        let (name, value) = (&fields[i].0, &fields[i].1);
        let field = match declared {
            Some(fs) => field_named(fs, name.as_str()),
            None => None,
        };
        match field {
            None => {
                if kind == ItemKind::Vector {
                    let msg = wrapped2("`", name.as_str(), "` is not a valid vector field (it is not a field of vector `", ty.as_str(), "`)");
                    assert(msg@ == unknown_field_message(kind, name@, ty@));
                    query_error(diags, q, loc, ErrorCode::E202, msg, "check the schema field names");
                } else {
                    let mut mid = owned("` is not a field of ");
                    push_str(&mut mid, word);
                    push_str(&mut mid, " `");
                    let msg = wrapped2("`", name.as_str(), mid.as_str(), ty.as_str(), "`");
                    assert(msg@ == unknown_field_message(kind, name@, ty@));
                    query_error(diags, q, loc, ErrorCode::E202, msg, "check the schema field names");
                }
                proof {
                    assert(diags@[before.len() as int].message@ == in_query(unknown_field_message(kind, name@, ty@), *q));
                }
            },
            Some(fd) => {
                match value {
                    ValueType::Identifier { value: v, loc: vloc } => {
                        if check_identifier(q, vloc, v.as_str(), diags) {
                            let ghost mid = diags@;
                            let _ = check_variable(q, vloc, scope, v.as_str(), diags);
                            proof { lemma_extends_trans(before, mid, diags@); }
                        }
                    },
                    ValueType::Literal { value: v, loc: vloc } => {
                        if !literal_fits_exec(&fd.field_type, v) {
                            let vt = value_words(v);
                            let ft = fd.field_type.to_text();
                            let mut msg = wrapped2("value `", vt.as_str(), "` does not match type `", ft.as_str(), "` declared in the schema for field `");
                            push_str(&mut msg, name.as_str());
                            push_str(&mut msg, "` on ");
                            push_str(&mut msg, word);
                            push_str(&mut msg, " type `");
                            push_str(&mut msg, ty.as_str());
                            push_str(&mut msg, "`");
                            query_error(diags, q, vloc, ErrorCode::E205, msg, "give the field a value of its type");
                        }
                    },
                    ValueType::Decimal { text, loc: vloc } => {
                        if !fd.field_type.is_float_type() {
                            let ft = fd.field_type.to_text();
                            let mut msg = wrapped2("value `", text.as_str(), "` does not match type `", ft.as_str(), "` declared in the schema for field `");
                            push_str(&mut msg, name.as_str());
                            push_str(&mut msg, "`");
                            query_error(diags, q, vloc, ErrorCode::E205, msg, "give the field a value of its type");
                        }
                    },
                    ValueType::Object { .. } => {},
                }
            },
        }
        proof {
            if diags@.len() == before.len() + 1 && diags@.drop_last() == before {
                assert(diags@.subrange(0, before.len() as int) =~= before);
                lemma_reported_at(before, diags@, before.len() as int);
            }
            if diags@ == before {
                assert(diags@.subrange(0, before.len() as int) =~= before);
            }
            lemma_extends_trans(old(diags)@, before, diags@);
            assert(item_field_reported(*s, *q, kind, ty@, fields@[i as int], before, diags@));
            lemma_item_field_reported_extends(*s, *q, kind, ty@, fields@[i as int], old(diags)@, before, diags@);
            assert forall|k: int| 0 <= k < i implies #[trigger] item_field_reported(*s, *q, kind, ty@, fields@[k], old(diags)@, diags@) by {
                lemma_item_field_reported_extends(*s, *q, kind, ty@, fields@[k], old(diags)@, before, diags@);
            }
        }
        i = i + 1;
    }
}

/// The codes of a variable named `n` that a query uses: E105 for a
/// reserved word, E301 for a name out of scope.
pub open spec fn named_codes(scope: Seq<(String, Type)>, n: Seq<char>) -> Seq<ErrorCode> {
    if reserved_word(n) {
        seq![ErrorCode::E105]
    } else if in_scope(scope, n) {
        Seq::empty()
    } else {
        seq![ErrorCode::E301]
    }
}

/// The codes of an element id: those of the variable it names, and for an
/// indexed lookup E202 where the index names no field of the type `ty` of
/// kind `kind`, then those of the variable it looks up.
pub open spec fn id_codes(s: Schema, scope: Seq<(String, Type)>, id: IdType, kind: ItemKind, ty: Seq<char>) -> Seq<ErrorCode> {
    match id {
        IdType::Identifier { value, .. } => named_codes(scope, value@),
        IdType::Literal { .. } => Seq::empty(),
        IdType::ByIndex { index, value, .. } => {
            let index_codes = match *index {
                IdType::Identifier { value: field, .. } => match declared_item_fields(s, kind, ty) {
                    Some(fs) => if field_lookup(fs, field@) is Some { Seq::empty() } else { seq![ErrorCode::E202] },
                    None => seq![ErrorCode::E202],
                },
                _ => Seq::empty(),
            };
            let value_codes = match *value {
                ValueType::Identifier { value: v, .. } => named_codes(scope, v@),
                _ => Seq::empty(),
            };
            index_codes + value_codes
        },
    }
}

/// Checks a variable that a query names: a valid identifier in scope.
pub fn check_named(q: &Query, loc: &Loc, scope: &Vec<(String, Type)>, n: &String, diags: &mut Vec<Diagnostic>)
    requires
        scope_flat(scope@),
    ensures
        extends(old(diags)@, final(diags)@),
        codes(final(diags)@) == codes(old(diags)@) + named_codes(scope@, n@),
{
    let ghost before = diags@;
    if check_identifier(q, loc, n.as_str(), diags) {
        let ghost mid = diags@;
        let _ = check_variable(q, loc, scope, n.as_str(), diags);
        proof {
            lemma_extends_trans(before, mid, diags@);
            assert(codes(mid) =~= codes(before));
        }
    } else {
        proof { assert(extends(before, diags@)); }
    }
}

/// Checks an element id: a variable must be in scope, and an indexed
/// lookup must name a field of the type `ty` of kind `kind`.
pub fn check_id(s: &Schema, q: &Query, scope: &Vec<(String, Type)>, id: &IdType, kind: ItemKind, ty: &String, diags: &mut Vec<Diagnostic>)
    requires
        scope_flat(scope@),
    ensures
        extends(old(diags)@, final(diags)@),
        codes(final(diags)@) == codes(old(diags)@) + id_codes(*s, scope@, *id, kind, ty@),
{
    match id {
        IdType::Identifier { value, loc } => check_named(q, loc, scope, value, diags),
        IdType::Literal { .. } => {
            proof {
                lemma_extends_refl(diags@);
                assert(codes(diags@) =~= codes(diags@) + Seq::<ErrorCode>::empty());
            }
        },
        IdType::ByIndex { index, value, loc } => {
            let ghost before = diags@;
            match &**index {
                IdType::Identifier { value: field, loc: floc } => {
                    let declared = declared_fields(s, kind, ty.as_str());
                    let known = match declared {
                        Some(fs) => field_named(fs, field.as_str()).is_some(),
                        None => false,
                    };
                    if !known {
                        query_error(diags, q, floc, ErrorCode::E202, wrapped2("`", field.as_str(), "` is not a field of `", ty.as_str(), "`"), "check the schema field names");
                        assert(diags@.subrange(0, before.len() as int) =~= before);
                        assert(codes(diags@) =~= codes(before) + seq![ErrorCode::E202]);
                    } else {
                        proof {
                            lemma_extends_refl(diags@);
                            assert(codes(diags@) =~= codes(before) + Seq::<ErrorCode>::empty());
                        }
                    }
                },
                _ => {
                    proof {
                        lemma_extends_refl(diags@);
                        assert(codes(diags@) =~= codes(before) + Seq::<ErrorCode>::empty());
                    }
                },
            }
            let ghost mid = diags@;
            match &**value {
                ValueType::Identifier { value: v, loc: vloc } => {
                    check_named(q, vloc, scope, v, diags);
                },
                _ => {
                    proof {
                        lemma_extends_refl(diags@);
                        assert(codes(diags@) =~= codes(mid) + Seq::<ErrorCode>::empty());
                    }
                },
            }
            proof {
                lemma_extends_trans(before, mid, diags@);
                assert(codes(diags@) =~= codes(before) + id_codes(*s, scope@, *id, kind, ty@));
            }
        },
    }
}

/// Checks `AddN<T>({fields})`: the node type must be declared (E101).
/// Gives a node of that type.
pub fn check_add_node(s: &Schema, q: &Query, scope: &Vec<(String, Type)>, add: &AddNode, diags: &mut Vec<Diagnostic>) -> (r: Type)
    requires
        scope_flat(scope@),
    ensures
        extends(old(diags)@, final(diags)@),
        flat_type(r),
        add.node_type matches Some(t) ==> (r matches Type::Node(Some(n)) && n@ == t@),
        add.node_type is None ==> r == Type::Node(None) && reported(old(diags)@, final(diags)@, ErrorCode::E304),
        add.node_type matches Some(t) ==> (add.fields matches Some(fs) ==> forall|i: int| 0 <= i < fs@.len()
            ==> #[trigger] item_field_reported(*s, *q, ItemKind::Node, t@, fs@[i], old(diags)@, final(diags)@)),
        (add.node_type matches Some(t) && !node_declared(*s, t@)) ==> (final(diags)@.len() > old(diags)@.len()
            && final(diags)@[old(diags)@.len() as int].error_code == ErrorCode::E101),
{
    match &add.node_type {
        Some(ty) => {
            let ghost before = diags@;
            if !is_node_type(s, ty.as_str()) {
                query_error(diags, q, &add.loc, ErrorCode::E101, wrapped("`AddN<", ty.as_str(), ">` refers to unknown node type"), "declare the node schema first");
                assert(diags@.subrange(0, before.len() as int) =~= before);
            } else {
                proof { lemma_extends_refl(diags@); }
            }
            let ghost mid = diags@;
            match &add.fields {
                Some(fs) => {
                    check_item_fields(s, q, &add.loc, scope, ItemKind::Node, ty, fs, diags);
                    proof {
                        assert forall|i: int| 0 <= i < fs@.len() implies #[trigger] item_field_reported(*s, *q, ItemKind::Node, ty@, fs@[i], old(diags)@, diags@) by {
                            lemma_item_field_reported_extends(*s, *q, ItemKind::Node, ty@, fs@[i], old(diags)@, mid, diags@);
                        }
                    }
                },
                None => { proof { lemma_extends_refl(diags@); } },
            }
            proof {
                lemma_extends_trans(before, mid, diags@);
                if mid.len() > before.len() {
                    assert(diags@[before.len() as int] == diags@.subrange(0, mid.len() as int)[before.len() as int]);
                }
            }
            Type::Node(Some(ty.clone()))
        },
        None => {
            query_error(diags, q, &add.loc, ErrorCode::E304, owned("`AddN` must have a node type"), "add a node type");
            assert(diags@.subrange(0, old(diags)@.len() as int) =~= old(diags)@);
            proof { lemma_reported_at(old(diags)@, diags@, old(diags)@.len() as int); }
            Type::Node(None)
        },
    }
}

/// Checks `AddE<T>({fields})::From(a)::To(b)`: the edge type must be
/// declared (E102), and both ends given (E612, E611). Gives an edge of that
/// type.
pub fn check_add_edge(s: &Schema, q: &Query, scope: &Vec<(String, Type)>, add: &AddEdge, diags: &mut Vec<Diagnostic>) -> (r: Type)
    requires
        scope_flat(scope@),
    ensures
        extends(old(diags)@, final(diags)@),
        flat_type(r),
        add.edge_type matches Some(t) ==> (r matches Type::Edge(Some(n)) && n@ == t@),
        add.edge_type is None ==> r == Type::Edge(None) && reported(old(diags)@, final(diags)@, ErrorCode::E304),
        add.edge_type matches Some(t) ==> (add.fields matches Some(fs) ==> forall|i: int| 0 <= i < fs@.len()
            ==> #[trigger] item_field_reported(*s, *q, ItemKind::Edge, t@, fs@[i], old(diags)@, final(diags)@)),
        (add.edge_type is Some && add.connection.to_id is None) ==> reported(old(diags)@, final(diags)@, ErrorCode::E611),
        (add.edge_type is Some && add.connection.from_id is None) ==> reported(old(diags)@, final(diags)@, ErrorCode::E612),
        (add.edge_type matches Some(t) && !edge_declared(*s, t@)) ==> (final(diags)@.len() > old(diags)@.len()
            && final(diags)@[old(diags)@.len() as int].error_code == ErrorCode::E102),
{
    match &add.edge_type {
        Some(ty) => {
            let ghost before = diags@;
            if find_edge(s, ty.as_str()).is_none() {
                query_error(diags, q, &add.loc, ErrorCode::E102, wrapped("`AddE<", ty.as_str(), ">` refers to unknown edge type"), "declare the edge schema first");
                assert(diags@.subrange(0, before.len() as int) =~= before);
            } else {
                proof { lemma_extends_refl(diags@); }
            }
            let ghost d1 = diags@;
            match &add.fields {
                Some(fs) => check_item_fields(s, q, &add.loc, scope, ItemKind::Edge, ty, fs, diags),
                None => { proof { lemma_extends_refl(diags@); } },
            }
            let ghost d2 = diags@;
            match &add.connection.to_id {
                Some(id) => check_id(s, q, scope, id, ItemKind::Node, ty, diags),
                None => {
                    query_error(diags, q, &add.loc, ErrorCode::E611, owned("`AddE` must have a to id"), "add a to id");
                    assert(diags@.subrange(0, d2.len() as int) =~= d2);
                    proof { lemma_reported_at(d2, diags@, d2.len() as int); }
                },
            }
            let ghost d3 = diags@;
            match &add.connection.from_id {
                Some(id) => check_id(s, q, scope, id, ItemKind::Node, ty, diags),
                None => {
                    query_error(diags, q, &add.loc, ErrorCode::E612, owned("`AddE` must have a from id"), "add a from id");
                    assert(diags@.subrange(0, d3.len() as int) =~= d3);
                    proof { lemma_reported_at(d3, diags@, d3.len() as int); }
                },
            }
            proof {
                lemma_extends_trans(before, d1, d2);
                lemma_extends_trans(before, d2, d3);
                lemma_extends_trans(before, d3, diags@);
                if d1.len() > before.len() {
                    assert(diags@[before.len() as int] == diags@.subrange(0, d1.len() as int)[before.len() as int]);
                }
                lemma_extends_trans(d2, d3, diags@);
                lemma_reported_extends(before, d2, d3, ErrorCode::E611);
                lemma_reported_extends(before, d3, diags@, ErrorCode::E611);
                lemma_reported_extends(before, d3, diags@, ErrorCode::E612);
                if add.fields is Some {
                    let fs = add.fields->0;
                    assert forall|i: int| 0 <= i < fs@.len() implies #[trigger] item_field_reported(*s, *q, ItemKind::Edge, ty@, fs@[i], before, diags@) by {
                        lemma_item_field_reported_extends(*s, *q, ItemKind::Edge, ty@, fs@[i], before, d1, d2);
                        lemma_item_field_reported_extends(*s, *q, ItemKind::Edge, ty@, fs@[i], before, d2, diags@);
                    }
                }
            }
            Type::Edge(Some(ty.clone()))
        },
        None => {
            query_error(diags, q, &add.loc, ErrorCode::E304, owned("`AddE` must have an edge type"), "add an edge type");
            assert(diags@.subrange(0, old(diags)@.len() as int) =~= old(diags)@);
            proof { lemma_reported_at(old(diags)@, diags@, old(diags)@.len() as int); }
            Type::Edge(None)
        },
    }
}

/// Checks the data of a vector: a variable given must be in scope.
fn check_vector_data(q: &Query, loc: &Loc, scope: &Vec<(String, Type)>, data: &Option<VectorData>, diags: &mut Vec<Diagnostic>)
    requires
        scope_flat(scope@),
    ensures
        extends(old(diags)@, final(diags)@),
{
    match data {
        Some(VectorData::Identifier(v)) => check_named(q, loc, scope, v, diags),
        Some(VectorData::Embed(e)) => match &e.value {
            EvaluatesToString::Identifier(v) => check_named(q, &e.loc, scope, v, diags),
            _ => { proof { lemma_extends_refl(diags@); } },
        },
        _ => { proof { lemma_extends_refl(diags@); } },
    }
}

/// Checks that `ty` names a declared vector type (E103).
fn check_vector_type(s: &Schema, q: &Query, loc: &Loc, ty: &String, diags: &mut Vec<Diagnostic>)
    ensures
        extends(old(diags)@, final(diags)@),
        !vector_declared(*s, ty@) ==> (final(diags)@.len() > old(diags)@.len()
            && final(diags)@[old(diags)@.len() as int].error_code == ErrorCode::E103),
{
    if !is_vector_type(s, ty.as_str()) {
        query_error(diags, q, loc, ErrorCode::E103, wrapped("vector type `", ty.as_str(), "` has not been declared"), "add a `V::` schema first");
        assert(diags@.subrange(0, old(diags)@.len() as int) =~= old(diags)@);
    } else {
        proof { lemma_extends_refl(diags@); }
    }
}

/// Checks `AddV<T>(data, {fields})`: the vector type must be declared
/// (E103). Gives a vector of that type.
pub fn check_add_vector(s: &Schema, q: &Query, scope: &Vec<(String, Type)>, add: &AddVector, diags: &mut Vec<Diagnostic>) -> (r: Type)
    requires
        scope_flat(scope@),
    ensures
        extends(old(diags)@, final(diags)@),
        flat_type(r),
        add.vector_type matches Some(t) ==> (r matches Type::Vector(Some(n)) && n@ == t@),
        add.vector_type is None ==> r == Type::Vector(None) && reported(old(diags)@, final(diags)@, ErrorCode::E304),
        add.vector_type matches Some(t) ==> (add.fields matches Some(fs) ==> forall|i: int| 0 <= i < fs@.len()
            ==> #[trigger] item_field_reported(*s, *q, ItemKind::Vector, t@, fs@[i], old(diags)@, final(diags)@)),
        (add.vector_type matches Some(t) && !vector_declared(*s, t@)) ==> (final(diags)@.len() > old(diags)@.len()
            && final(diags)@[old(diags)@.len() as int].error_code == ErrorCode::E103),
{
    match &add.vector_type {
        Some(ty) => {
            let ghost before = diags@;
            check_vector_type(s, q, &add.loc, ty, diags);
            let ghost d1 = diags@;
            check_vector_data(q, &add.loc, scope, &add.data, diags);
            let ghost d2 = diags@;
            match &add.fields {
                Some(fs) => {
                    check_item_fields(s, q, &add.loc, scope, ItemKind::Vector, ty, fs, diags);
                    proof {
                        lemma_extends_trans(before, d1, d2);
                        assert forall|i: int| 0 <= i < fs@.len() implies #[trigger] item_field_reported(*s, *q, ItemKind::Vector, ty@, fs@[i], old(diags)@, diags@) by {
                            lemma_item_field_reported_extends(*s, *q, ItemKind::Vector, ty@, fs@[i], old(diags)@, d2, diags@);
                        }
                    }
                },
                None => { proof { lemma_extends_refl(diags@); } },
            }
            proof {
                lemma_extends_trans(before, d1, d2);
                lemma_extends_trans(before, d2, diags@);
                if d1.len() > before.len() {
                    assert(diags@[before.len() as int] == diags@.subrange(0, d1.len() as int)[before.len() as int]);
                }
            }
            Type::Vector(Some(ty.clone()))
        },
        None => {
            query_error(diags, q, &add.loc, ErrorCode::E304, owned("`AddV` must have a vector type"), "add a vector type");
            assert(diags@.subrange(0, old(diags)@.len() as int) =~= old(diags)@);
            proof { lemma_reported_at(old(diags)@, diags@, old(diags)@.len() as int); }
            Type::Vector(None)
        },
    }
}

/// Checks a count given by a variable: it must be in scope.
fn check_count(q: &Query, loc: &Loc, scope: &Vec<(String, Type)>, k: &EvaluatesToNumberType, diags: &mut Vec<Diagnostic>)
    requires
        scope_flat(scope@),
    ensures
        extends(old(diags)@, final(diags)@),
{
    match k {
        EvaluatesToNumberType::Identifier(v) => check_named(q, loc, scope, v, diags),
        _ => { proof { lemma_extends_refl(diags@); } },
    }
}

/// Checks `SearchV<T>(data, k)`: the vector type must be declared (E103).
/// Gives vectors of that type.
pub fn check_search_vector(s: &Schema, q: &Query, scope: &Vec<(String, Type)>, sv: &SearchVector, diags: &mut Vec<Diagnostic>) -> (r: Type)
    requires
        scope_flat(scope@),
    ensures
        extends(old(diags)@, final(diags)@),
        flat_type(r),
        sv.vector_type matches Some(t) ==> (r matches Type::Vectors(Some(n)) && n@ == t@),
        sv.vector_type is None ==> r == Type::Vectors(None),
{
    let ghost before = diags@;
    check_vector_data(q, &sv.loc, scope, &sv.data, diags);
    let ghost d1 = diags@;
    match &sv.k {
        Some(k) => check_count(q, &k.loc, scope, &k.value, diags),
        None => { proof { lemma_extends_refl(diags@); } },
    }
    proof { lemma_extends_trans(before, d1, diags@); }
    match &sv.vector_type {
        Some(ty) => {
            let ghost d2 = diags@;
            check_vector_type(s, q, &sv.loc, ty, diags);
            proof { lemma_extends_trans(before, d2, diags@); }
            Type::Vectors(Some(ty.clone()))
        },
        None => {
            let ghost d2 = diags@;
            query_error(diags, q, &sv.loc, ErrorCode::E304, owned("`SearchV` must have a vector type"), "add a vector type");
            assert(diags@.subrange(0, d2.len() as int) =~= d2);
            proof { lemma_extends_trans(before, d2, diags@); }
            Type::Vectors(None)
        },
    }
}

/// Checks `SearchBM25<T>(text, k)`: the node type must be declared
/// (E101). Gives nodes of that type.
pub fn check_bm25(s: &Schema, q: &Query, scope: &Vec<(String, Type)>, b: &BM25Search, diags: &mut Vec<Diagnostic>) -> (r: Type)
    requires
        scope_flat(scope@),
    ensures
        extends(old(diags)@, final(diags)@),
        flat_type(r),
        b.type_arg matches Some(t) ==> (r matches Type::Nodes(Some(n)) && n@ == t@),
        (b.type_arg matches Some(t) && !node_declared(*s, t@)) ==> reported(old(diags)@, final(diags)@, ErrorCode::E101),
        b.type_arg is None ==> r == Type::Nodes(None),
{
    let ghost before = diags@;
    match &b.data {
        Some(ValueType::Identifier { value, loc }) => check_named(q, loc, scope, value, diags),
        _ => { proof { lemma_extends_refl(diags@); } },
    }
    let ghost d1 = diags@;
    match &b.k {
        Some(k) => check_count(q, &k.loc, scope, &k.value, diags),
        None => { proof { lemma_extends_refl(diags@); } },
    }
    proof { lemma_extends_trans(before, d1, diags@); }
    match &b.type_arg {
        Some(ty) => {
            let ghost d2 = diags@;
            if !is_node_type(s, ty.as_str()) {
                query_error(diags, q, &b.loc, ErrorCode::E101, wrapped("`SearchBM25<", ty.as_str(), ">` refers to unknown node type"), "declare the node schema first");
                assert(diags@.subrange(0, d2.len() as int) =~= d2);
                proof { lemma_reported_at(d2, diags@, d2.len() as int); }
            } else {
                proof { lemma_extends_refl(diags@); }
            }
            proof {
                lemma_extends_trans(before, d2, diags@);
                lemma_reported_extends(old(diags)@, d2, diags@, ErrorCode::E101);
            }
            Type::Nodes(Some(ty.clone()))
        },
        None => Type::Nodes(None),
    }
}

/// Checks `BatchAddV<T>(data)`: the vector type must be declared (E103).
/// Gives vectors of that type.
pub fn check_batch_add_vector(s: &Schema, q: &Query, scope: &Vec<(String, Type)>, b: &BatchAddVector, diags: &mut Vec<Diagnostic>) -> (r: Type)
    requires
        scope_flat(scope@),
    ensures
        extends(old(diags)@, final(diags)@),
        flat_type(r),
        b.vector_type matches Some(t) ==> (r matches Type::Vectors(Some(n)) && n@ == t@),
        (b.vector_type matches Some(t) && !vector_declared(*s, t@)) ==> reported(old(diags)@, final(diags)@, ErrorCode::E103),
        b.vector_type is None ==> r == Type::Vectors(None),
{
    let ghost before = diags@;
    match &b.vec_identifier {
        Some(v) => check_named(q, &b.loc, scope, v, diags),
        None => { proof { lemma_extends_refl(diags@); } },
    }
    match &b.vector_type {
        Some(ty) => {
            let ghost d1 = diags@;
            check_vector_type(s, q, &b.loc, ty, diags);
            proof {
                lemma_extends_trans(before, d1, diags@);
                if !vector_declared(*s, ty@) {
                    lemma_reported_at(d1, diags@, d1.len() as int);
                    lemma_reported_extends(old(diags)@, d1, diags@, ErrorCode::E103);
                }
            }
            Type::Vectors(Some(ty.clone()))
        },
        None => Type::Vectors(None),
    }
}

} // verus!
