//! Checks of the schema itself: edges name declared types, and no field
//! takes the reserved name `id`.
use vstd::prelude::*;
use crate::helixc::analyzer::diagnostic::{Diagnostic, DiagnosticSeverity};
use crate::helixc::analyzer::error_codes::ErrorCode;
use crate::helixc::analyzer::schema::{is_node_type, is_vector_type, node_declared, vector_declared};
use crate::helixc::location::Loc;
use crate::helixc::parser::ast::{EdgeSchema, Field, NodeSchema, Schema, VectorSchema};
use crate::utils::text::{chars_of, owned, push_str};

verus! {

/// The code and message of each diagnostic.
pub open spec fn summary(ds: Seq<Diagnostic>) -> Seq<(ErrorCode, Seq<char>)> {
    ds.map_values(|d: Diagnostic| (d.error_code, d.message@))
}

/// The message for an edge end that names no declared node or vector type.
pub open spec fn undeclared_message(n: Seq<char>) -> Seq<char> {
    "use of undeclared node or vector type `"@ + n + "` in schema: `"@ + n
        + "` is not a declared node type"@
}

/// The message for a field that takes a reserved name.
pub open spec fn reserved_message(f: Seq<char>) -> Seq<char> {
    "field `"@ + f + "` is a reserved field name"@
}

/// Whether a field name is reserved: `id` in any case.
pub open spec fn is_reserved(f: Seq<char>) -> bool {
    f.len() == 2 && (f[0] == 'i' || f[0] == 'I') && (f[1] == 'd' || f[1] == 'D')
}

/// A letter in lower case: `A` to `Z` become `a` to `z`, other characters
/// stay.
pub open spec fn ascii_lower(c: char) -> char {
    if 'A' <= c && c <= 'Z' { ((c as u32) + 32) as char } else { c }
}

/// A name in lower case.
pub open spec fn lowered(f: Seq<char>) -> Seq<char> {
    f.map_values(|c: char| ascii_lower(c))
}

/// A field name is reserved exactly when, in lower case, it is `id`: so
/// `id`, `ID`, `Id` and `iD` all are, and no other name is.
pub proof fn law_reserved_is_id_in_any_case(f: Seq<char>)
    ensures
        is_reserved(f) <==> lowered(f) == "id"@,
{
    reveal_strlit("id");
    if is_reserved(f) {
        assert(('I' as u32) + 32 == ('i' as u32));
        assert(('D' as u32) + 32 == ('d' as u32));
        assert(lowered(f) =~= "id"@);
    }
    if lowered(f) == "id"@ {
        assert(lowered(f).len() == 2);
        assert(f.len() == 2);
        assert("id"@[0] == 'i' && "id"@[1] == 'd');
        assert(lowered(f)[0] == ascii_lower(f[0]));
        assert(lowered(f)[1] == ascii_lower(f[1]));
        assert(ascii_lower(f[0]) == 'i');
        assert(ascii_lower(f[1]) == 'd');
        if 'A' <= f[0] && f[0] <= 'Z' {
            assert((f[0] as u32) + 32 == ('i' as u32));
            assert(f[0] == 'I');
        }
        if 'A' <= f[1] && f[1] <= 'Z' {
            assert((f[1] as u32) + 32 == ('d' as u32));
            assert(f[1] == 'D');
        }
    }
}

/// Whether `n` names a declared node or vector type.
pub open spec fn endpoint_declared(s: Schema, n: Seq<char>) -> bool {
    node_declared(s, n) || vector_declared(s, n)
}

/// The diagnostics for the fields `fs` that take a reserved name.
pub open spec fn fields_diags(fs: Seq<Field>) -> Seq<(ErrorCode, Seq<char>)>
    decreases fs.len(),
{
    if fs.len() == 0 {
        Seq::empty()
    } else {
        fields_diags(fs.drop_last()) + if is_reserved(fs.last().name@) {
            seq![(ErrorCode::E204, reserved_message(fs.last().name@))]
        } else {
            Seq::empty()
        }
    }
}

/// The diagnostics for one edge type: each end that names no declared
/// type, then each property with a reserved name.
pub open spec fn edge_diags(s: Schema, e: EdgeSchema) -> Seq<(ErrorCode, Seq<char>)> {
    (if !endpoint_declared(s, e.from.1@) {
        seq![(ErrorCode::E106, undeclared_message(e.from.1@))]
    } else {
        Seq::empty()
    }) + (if !endpoint_declared(s, e.to.1@) {
        seq![(ErrorCode::E106, undeclared_message(e.to.1@))]
    } else {
        Seq::empty()
    }) + match e.properties {
        Some(ps) => fields_diags(ps@),
        None => Seq::empty(),
    }
}

/// The diagnostics for the edge types `es`, in order.
pub open spec fn edges_diags(s: Schema, es: Seq<EdgeSchema>) -> Seq<(ErrorCode, Seq<char>)>
    decreases es.len(),
{
    if es.len() == 0 {
        Seq::empty()
    } else {
        edges_diags(s, es.drop_last()) + edge_diags(s, es.last())
    }
}

/// The diagnostics for the fields of the node types `ns`, in order.
pub open spec fn nodes_diags(ns: Seq<NodeSchema>) -> Seq<(ErrorCode, Seq<char>)>
    decreases ns.len(),
{
    if ns.len() == 0 {
        Seq::empty()
    } else {
        nodes_diags(ns.drop_last()) + fields_diags(ns.last().fields@)
    }
}

/// The diagnostics for the fields of the vector types `vs`, in order.
pub open spec fn vectors_diags(vs: Seq<VectorSchema>) -> Seq<(ErrorCode, Seq<char>)>
    decreases vs.len(),
{
    if vs.len() == 0 {
        Seq::empty()
    } else {
        vectors_diags(vs.drop_last()) + fields_diags(vs.last().fields@)
    }
}

/// The diagnostics of the schema check: the edges', then the nodes', then
/// the vectors'.
pub open spec fn schema_diags(s: Schema) -> Seq<(ErrorCode, Seq<char>)> {
    edges_diags(s, s.edge_schemas@) + nodes_diags(s.node_schemas@) + vectors_diags(s.vector_schemas@)
}

/// Appends a diagnostic.
pub fn push_diagnostic(
    diags: &mut Vec<Diagnostic>,
    location: Loc,
    code: ErrorCode,
    message: String,
    hint: Option<String>,
    severity: DiagnosticSeverity,
) -> (r: ())
    ensures
        final(diags)@.len() == old(diags)@.len() + 1,
        final(diags)@.drop_last() == old(diags)@,
        final(diags)@.last().error_code == code,
        final(diags)@.last().message == message,
        final(diags)@.last().severity == severity,
        final(diags)@.last().hint == hint,
        final(diags)@.last().location == location,
{
    let d = Diagnostic::new(location, message, severity, code, hint);
    diags.push(d);
    assert(diags@.drop_last() =~= old(diags)@);
}

/// Appending one diagnostic appends its code and message to the summary.
pub proof fn lemma_summary_push(old_ds: Seq<Diagnostic>, new_ds: Seq<Diagnostic>)
    requires
        new_ds.len() == old_ds.len() + 1,
        new_ds.drop_last() == old_ds,
    ensures
        summary(new_ds) == summary(old_ds).push((new_ds.last().error_code, new_ds.last().message@)),
{
    assert(summary(new_ds) =~= summary(old_ds).push((new_ds.last().error_code, new_ds.last().message@)));
}

/// Whether a name is `id` in any case.
fn is_reserved_name(f: &String) -> (r: bool)
    ensures
        r == is_reserved(f@),
{
    let cs = chars_of(f.as_str());
    cs.len() == 2 && (cs[0] == 'i' || cs[0] == 'I') && (cs[1] == 'd' || cs[1] == 'D')
}

/// Reports each field of `fs` that takes a reserved name.
fn check_fields(fs: &Vec<Field>, diags: &mut Vec<Diagnostic>)
    ensures
        summary(final(diags)@) == summary(old(diags)@) + fields_diags(fs@),
{
    let mut i: usize = 0;
    while i < fs.len()
        invariant
            i <= fs@.len(),
            summary(diags@) == summary(old(diags)@) + fields_diags(fs@.take(i as int)),
        decreases fs.len() - i,
    {
        assert(fs@.take(i + 1).drop_last() =~= fs@.take(i as int));
        let ghost before = diags@;
        if is_reserved_name(&fs[i].name) {
            let mut message = owned("field `");
            push_str(&mut message, fs[i].name.as_str());
            push_str(&mut message, "` is a reserved field name");
            push_diagnostic(diags, fs[i].loc.clone(), ErrorCode::E204, message, Some(owned("rename the field")), DiagnosticSeverity::Error);
            proof { lemma_summary_push(before, diags@); }
        }
        assert(summary(diags@) =~= summary(old(diags)@) + fields_diags(fs@.take(i + 1)));
        i = i + 1;
    }
    assert(fs@.take(fs@.len() as int) =~= fs@);
}

/// Reports an edge end `n` that names no declared node or vector type.
fn check_endpoint(s: &Schema, n: &String, loc: &Loc, diags: &mut Vec<Diagnostic>)
    ensures
        summary(final(diags)@) == summary(old(diags)@) + if !endpoint_declared(*s, n@) {
            seq![(ErrorCode::E106, undeclared_message(n@))]
        } else {
            Seq::<(ErrorCode, Seq<char>)>::empty()
        },
{
    if !is_node_type(s, n.as_str()) && !is_vector_type(s, n.as_str()) {
        let ghost before = diags@;
        let mut message = owned("use of undeclared node or vector type `");
        push_str(&mut message, n.as_str());
        push_str(&mut message, "` in schema: `");
        push_str(&mut message, n.as_str());
        push_str(&mut message, "` is not a declared node type");
        let mut hint = owned("declare `");
        push_str(&mut hint, n.as_str());
        push_str(&mut hint, "` in the schema before using it in an edge");
        push_diagnostic(diags, loc.clone(), ErrorCode::E106, message, Some(hint), DiagnosticSeverity::Error);
        proof { lemma_summary_push(before, diags@); }
        assert(summary(diags@) =~= summary(old(diags)@) + seq![(ErrorCode::E106, undeclared_message(n@))]);
    } else {
        assert(summary(diags@) =~= summary(old(diags)@) + Seq::<(ErrorCode, Seq<char>)>::empty());
    }
}

/// Checks a schema: every edge end names a declared node or vector type,
/// and no field of an edge, node or vector takes the reserved name `id`.
pub fn check_schema(s: &Schema, diags: &mut Vec<Diagnostic>)
    ensures
        summary(final(diags)@) == summary(old(diags)@) + schema_diags(*s),
{
    let mut i: usize = 0;
    while i < s.edge_schemas.len()
        invariant
            i <= s.edge_schemas@.len(),
            summary(diags@) == summary(old(diags)@) + edges_diags(*s, s.edge_schemas@.take(i as int)),
        decreases s.edge_schemas.len() - i,
    {
        assert(s.edge_schemas@.take(i + 1).drop_last() =~= s.edge_schemas@.take(i as int));
        let e = &s.edge_schemas[i];
        let ghost d0 = diags@;
        check_endpoint(s, &e.from.1, &e.from.0, diags);
        let ghost d1 = diags@;
        check_endpoint(s, &e.to.1, &e.to.0, diags);
        let ghost d2 = diags@;
        match &e.properties {
            Some(ps) => check_fields(ps, diags),
            None => {},
        }
        assert(summary(diags@) =~= summary(old(diags)@) + edges_diags(*s, s.edge_schemas@.take(i + 1)));
        i = i + 1;
    }
    assert(s.edge_schemas@.take(s.edge_schemas@.len() as int) =~= s.edge_schemas@);
    let mut i: usize = 0;
    while i < s.node_schemas.len()
        invariant
            i <= s.node_schemas@.len(),
            summary(diags@) == summary(old(diags)@) + edges_diags(*s, s.edge_schemas@)
                + nodes_diags(s.node_schemas@.take(i as int)),
        decreases s.node_schemas.len() - i,
    {
        assert(s.node_schemas@.take(i + 1).drop_last() =~= s.node_schemas@.take(i as int));
        check_fields(&s.node_schemas[i].fields, diags);
        assert(summary(diags@) =~= summary(old(diags)@) + edges_diags(*s, s.edge_schemas@)
            + nodes_diags(s.node_schemas@.take(i + 1)));
        i = i + 1;
    }
    assert(s.node_schemas@.take(s.node_schemas@.len() as int) =~= s.node_schemas@);
    let mut i: usize = 0;
    while i < s.vector_schemas.len()
        invariant
            i <= s.vector_schemas@.len(),
            summary(diags@) == summary(old(diags)@) + edges_diags(*s, s.edge_schemas@)
                + nodes_diags(s.node_schemas@) + vectors_diags(s.vector_schemas@.take(i as int)),
        decreases s.vector_schemas.len() - i,
    {
        assert(s.vector_schemas@.take(i + 1).drop_last() =~= s.vector_schemas@.take(i as int));
        check_fields(&s.vector_schemas[i].fields, diags);
        assert(summary(diags@) =~= summary(old(diags)@) + edges_diags(*s, s.edge_schemas@)
            + nodes_diags(s.node_schemas@) + vectors_diags(s.vector_schemas@.take(i + 1)));
        i = i + 1;
    }
    assert(s.vector_schemas@.take(s.vector_schemas@.len() as int) =~= s.vector_schemas@);
}

/// Whether no field of `fs` takes a reserved name.
pub open spec fn no_reserved(fs: Seq<Field>) -> bool {
    forall|j: int| 0 <= j < fs.len() ==> !is_reserved(#[trigger] fs[j].name@)
}

/// Whether an edge type names declared types at both ends and has no
/// property with a reserved name.
pub open spec fn edge_clean(s: Schema, e: EdgeSchema) -> bool {
    &&& endpoint_declared(s, e.from.1@)
    &&& endpoint_declared(s, e.to.1@)
    &&& (e.properties matches Some(ps) ==> no_reserved(ps@))
}

/// Whether a schema passes its check: every edge is clean and no node or
/// vector field takes a reserved name.
pub open spec fn schema_clean(s: Schema) -> bool {
    &&& forall|i: int| 0 <= i < s.edge_schemas@.len() ==> edge_clean(s, #[trigger] s.edge_schemas@[i])
    &&& forall|i: int| 0 <= i < s.node_schemas@.len() ==> no_reserved(#[trigger] s.node_schemas@[i].fields@)
    &&& forall|i: int| 0 <= i < s.vector_schemas@.len() ==> no_reserved(#[trigger] s.vector_schemas@[i].fields@)
}

proof fn lemma_fields_diags_empty(fs: Seq<Field>)
    ensures
        fields_diags(fs).len() == 0 <==> no_reserved(fs),
    decreases fs.len(),
{
    if fs.len() > 0 {
        lemma_fields_diags_empty(fs.drop_last());
        if no_reserved(fs) {
            assert forall|j: int| 0 <= j < fs.drop_last().len() implies !is_reserved(#[trigger] fs.drop_last()[j].name@) by {
                assert(fs.drop_last()[j] == fs[j]);
            }
        }
        if no_reserved(fs.drop_last()) && !is_reserved(fs.last().name@) {
            assert forall|j: int| 0 <= j < fs.len() implies !is_reserved(#[trigger] fs[j].name@) by {
                if j < fs.len() - 1 {
                    assert(fs.drop_last()[j] == fs[j]);
                }
            }
        }
    }
}

proof fn lemma_edges_diags_empty(s: Schema, es: Seq<EdgeSchema>)
    ensures
        edges_diags(s, es).len() == 0 <==> forall|i: int| 0 <= i < es.len() ==> edge_clean(s, #[trigger] es[i]),
    decreases es.len(),
{
    if es.len() > 0 {
        lemma_edges_diags_empty(s, es.drop_last());
        let e = es.last();
        match e.properties {
            Some(ps) => lemma_fields_diags_empty(ps@),
            None => {},
        }
        assert(edge_diags(s, e).len() == 0 <==> edge_clean(s, e));
        if forall|i: int| 0 <= i < es.len() ==> edge_clean(s, #[trigger] es[i]) {
            assert forall|i: int| 0 <= i < es.drop_last().len() implies edge_clean(s, #[trigger] es.drop_last()[i]) by {
                assert(es.drop_last()[i] == es[i]);
            }
            assert(edge_clean(s, es[es.len() - 1]));
        }
        if edges_diags(s, es).len() == 0 {
            assert forall|i: int| 0 <= i < es.len() implies edge_clean(s, #[trigger] es[i]) by {
                if i < es.len() - 1 {
                    assert(es.drop_last()[i] == es[i]);
                }
            }
        }
    }
}

proof fn lemma_nodes_diags_empty(ns: Seq<NodeSchema>)
    ensures
        nodes_diags(ns).len() == 0 <==> forall|i: int| 0 <= i < ns.len() ==> no_reserved(#[trigger] ns[i].fields@),
    decreases ns.len(),
{
    if ns.len() > 0 {
        lemma_nodes_diags_empty(ns.drop_last());
        lemma_fields_diags_empty(ns.last().fields@);
        if forall|i: int| 0 <= i < ns.len() ==> no_reserved(#[trigger] ns[i].fields@) {
            assert forall|i: int| 0 <= i < ns.drop_last().len() implies no_reserved(#[trigger] ns.drop_last()[i].fields@) by {
                assert(ns.drop_last()[i] == ns[i]);
            }
            assert(no_reserved(ns[ns.len() - 1].fields@));
        }
        if nodes_diags(ns).len() == 0 {
            assert forall|i: int| 0 <= i < ns.len() implies no_reserved(#[trigger] ns[i].fields@) by {
                if i < ns.len() - 1 {
                    assert(ns.drop_last()[i] == ns[i]);
                }
            }
        }
    }
}

proof fn lemma_vectors_diags_empty(vs: Seq<VectorSchema>)
    ensures
        vectors_diags(vs).len() == 0 <==> forall|i: int| 0 <= i < vs.len() ==> no_reserved(#[trigger] vs[i].fields@),
    decreases vs.len(),
{
    if vs.len() > 0 {
        lemma_vectors_diags_empty(vs.drop_last());
        lemma_fields_diags_empty(vs.last().fields@);
        if forall|i: int| 0 <= i < vs.len() ==> no_reserved(#[trigger] vs[i].fields@) {
            assert forall|i: int| 0 <= i < vs.drop_last().len() implies no_reserved(#[trigger] vs.drop_last()[i].fields@) by {
                assert(vs.drop_last()[i] == vs[i]);
            }
            assert(no_reserved(vs[vs.len() - 1].fields@));
        }
        if vectors_diags(vs).len() == 0 {
            assert forall|i: int| 0 <= i < vs.len() implies no_reserved(#[trigger] vs[i].fields@) by {
                if i < vs.len() - 1 {
                    assert(vs.drop_last()[i] == vs[i]);
                }
            }
        }
    }
}

/// The schema check reports nothing exactly when every edge names declared
/// node or vector types at both ends and no field takes the name `id`.
pub proof fn lemma_schema_check_silent_iff_clean(s: Schema)
    ensures
        schema_diags(s).len() == 0 <==> schema_clean(s),
{
    lemma_edges_diags_empty(s, s.edge_schemas@);
    lemma_nodes_diags_empty(s.node_schemas@);
    lemma_vectors_diags_empty(s.vector_schemas@);
}

proof fn lemma_edges_diags_report(s: Schema, es: Seq<EdgeSchema>, i: int)
    requires
        0 <= i < es.len(),
    ensures
        !endpoint_declared(s, es[i].from.1@) ==> edges_diags(s, es).contains((ErrorCode::E106, undeclared_message(es[i].from.1@))),
        !endpoint_declared(s, es[i].to.1@) ==> edges_diags(s, es).contains((ErrorCode::E106, undeclared_message(es[i].to.1@))),
    decreases es.len(),
{
    let e = es[i];
    if i == es.len() - 1 {
        let prefix = edges_diags(s, es.drop_last());
        let d = edge_diags(s, e);
        if !endpoint_declared(s, e.from.1@) {
            assert(d[0] == (ErrorCode::E106, undeclared_message(e.from.1@)));
            assert((prefix + d)[prefix.len() as int] == d[0]);
        }
        if !endpoint_declared(s, e.to.1@) {
            let k: int = if !endpoint_declared(s, e.from.1@) { 1 } else { 0 };
            assert(d[k] == (ErrorCode::E106, undeclared_message(e.to.1@)));
            assert((prefix + d)[prefix.len() + k] == d[k]);
        }
    } else {
        lemma_edges_diags_report(s, es.drop_last(), i);
        assert(es.drop_last()[i] == e);
        let prefix = edges_diags(s, es.drop_last());
        let d = edge_diags(s, es.last());
        if !endpoint_declared(s, e.from.1@) {
            let k = choose|k: int| 0 <= k < prefix.len() && prefix[k] == (ErrorCode::E106, undeclared_message(e.from.1@));
            assert((prefix + d)[k] == prefix[k]);
        }
        if !endpoint_declared(s, e.to.1@) {
            let k = choose|k: int| 0 <= k < prefix.len() && prefix[k] == (ErrorCode::E106, undeclared_message(e.to.1@));
            assert((prefix + d)[k] == prefix[k]);
        }
    }
}

/// Each end of an edge type that names no declared node or vector type is
/// reported, with code E106 and a message that names it.
pub proof fn lemma_undeclared_endpoint_reported(s: Schema, i: int)
    requires
        0 <= i < s.edge_schemas@.len(),
    ensures
        !endpoint_declared(s, s.edge_schemas@[i].from.1@) ==> schema_diags(s).contains(
            (ErrorCode::E106, undeclared_message(s.edge_schemas@[i].from.1@)),
        ),
        !endpoint_declared(s, s.edge_schemas@[i].to.1@) ==> schema_diags(s).contains(
            (ErrorCode::E106, undeclared_message(s.edge_schemas@[i].to.1@)),
        ),
{
    lemma_edges_diags_report(s, s.edge_schemas@, i);
    let a = edges_diags(s, s.edge_schemas@);
    let b = nodes_diags(s.node_schemas@);
    let c = vectors_diags(s.vector_schemas@);
    assert(schema_diags(s) == a + b + c);
    let e = s.edge_schemas@[i];
    if !endpoint_declared(s, e.from.1@) {
        let k = choose|k: int| 0 <= k < a.len() && a[k] == (ErrorCode::E106, undeclared_message(e.from.1@));
        assert((a + b + c)[k] == a[k]);
    }
    if !endpoint_declared(s, e.to.1@) {
        let k = choose|k: int| 0 <= k < a.len() && a[k] == (ErrorCode::E106, undeclared_message(e.to.1@));
        assert((a + b + c)[k] == a[k]);
    }
}

} // verus!
