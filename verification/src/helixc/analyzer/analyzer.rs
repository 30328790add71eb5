//! The analyzer: checks a parsed source, reports diagnostics, and gives
//! what code is generated from.
use vstd::prelude::*;
use crate::helixc::analyzer::diagnostic::{Diagnostic, DiagnosticSeverity};
use crate::helixc::analyzer::error_codes::ErrorCode;
use crate::helixc::analyzer::items::{
    extends, lemma_extends_empty, lemma_extends_refl, lemma_extends_trans, lemma_reported_extends, reported,
};
use crate::helixc::analyzer::migration_check::versions_unusable;
use crate::helixc::analyzer::query_check::{is_mcp, param_reserved, param_undeclared, query_mutates, query_mutates_exec, reassigns, returns_generated};
use crate::helixc::analyzer::scope::codes;
use crate::helixc::analyzer::migration_check::validate_migration;
use crate::helixc::analyzer::query_check::check_query;
use crate::helixc::analyzer::schema_check::{check_schema, schema_diags, summary};
use crate::helixc::generator::migrations::GeneratedMigration;
use crate::helixc::generator::queries::{GeneratedQuery, Parameter as GeneratedParameter, field_ok, object_ok, return_name, return_name_of};
use crate::helixc::generator::schemas::{
    EdgeSchema as GeneratedEdgeSchema, NodeSchema as GeneratedNodeSchema, SchemaProperty,
    VectorSchema as GeneratedVectorSchema,
};
use crate::helixc::generator::utils::{GenRef, GeneratedValue, convertible, generated_type_of};
use crate::helixc::location::Loc;
use crate::helixc::parser::ast::{
    Content, DefaultValue, ExpressionType, Field, FieldPrefix, FieldType, HxFile, Migration, Query, Schema, Source,
};
use crate::helixc::parser::cursor::ParserError;
use crate::helixc::parser::helix_parser::HelixParser;
use crate::utils::decimal::{i128_text, numeral, signed_numeral, u128_text};
use crate::utils::text::owned;

verus! {

/// What code is generated from: the source text, the schema types, the
/// queries' parameters, and the migrations.
#[derive(Debug)]
pub struct GeneratedSource {
    pub src: String,
    pub nodes: Vec<GeneratedNodeSchema>,
    pub edges: Vec<GeneratedEdgeSchema>,
    pub vectors: Vec<GeneratedVectorSchema>,
    pub queries: Vec<GeneratedQuery>,
    pub migrations: Vec<GeneratedMigration>,
}

/// Whether schema `i` of the source is the latest: the first of the
/// highest version.
pub open spec fn latest_at(src: Source, i: int) -> bool {
    &&& 0 <= i < src.schema@.len()
    &&& forall|j: int| 0 <= j < src.schema@.len() ==> #[trigger] src.schema@[j].version.1 <= src.schema@[i].version.1
    &&& forall|j: int| 0 <= j < i ==> #[trigger] src.schema@[j].version.1 < src.schema@[i].version.1
}

/// The index of the latest schema, if the source has any.
pub fn latest_schema_index(src: &Source) -> (r: Option<usize>)
    ensures
        r matches Some(i) ==> latest_at(*src, i as int),
        r is None <==> src.schema@.len() == 0,
{
    if src.schema.len() == 0 {
        return None;
    }
    let mut best: usize = 0;
    let mut i: usize = 1;
    while i < src.schema.len()
        invariant
            1 <= i <= src.schema@.len(),
            best < i,
            forall|j: int| 0 <= j < i ==> #[trigger] src.schema@[j].version.1 <= src.schema@[best as int].version.1,
            forall|j: int| 0 <= j < best ==> #[trigger] src.schema@[j].version.1 < src.schema@[best as int].version.1,
        decreases src.schema.len() - i,
    {
        if src.schema[i].version.1 > src.schema[best].version.1 {
            best = i;
        }
        i = i + 1;
    }
    Some(best)
}

/// A schema with no types.
fn empty_schema() -> (r: Schema)
    ensures
        r.node_schemas@.len() == 0,
        r.edge_schemas@.len() == 0,
        r.vector_schemas@.len() == 0,
        r.version.1 == 0,
        r.loc.filepath is None && r.loc.start == 0 && r.loc.end == 0,
        r.version.0.filepath is None && r.version.0.start == 0 && r.version.0.end == 0,
{
    Schema {
        loc: Loc::empty(),
        version: (Loc::empty(), 0),
        node_schemas: Vec::new(),
        edge_schemas: Vec::new(),
        vector_schemas: Vec::new(),
    }
}

/// The migrations of the first `n` of a source whose versions are usable
/// (see `versions_unusable`), in order.
pub open spec fn usable_migrations(src: Source, n: int) -> Seq<Migration>
    decreases n,
{
    if n <= 0 || n > src.migrations@.len() {
        Seq::empty()
    } else if versions_unusable(src, src.migrations@[n - 1]) {
        usable_migrations(src, n - 1)
    } else {
        usable_migrations(src, n - 1).push(src.migrations@[n - 1])
    }
}

/// Whether `g` lists, in order, one generated migration for each usable
/// migration of the source, from and to the same versions.
pub open spec fn migrations_generated(src: Source, g: Seq<GeneratedMigration>) -> bool {
    migrations_generated_upto(src, g, src.migrations@.len() as int)
}

/// Whether `g` lists, in order, one generated migration for each usable
/// migration among the first `n` of the source.
pub open spec fn migrations_generated_upto(src: Source, g: Seq<GeneratedMigration>, n: int) -> bool {
    let u = usable_migrations(src, n);
    &&& g.len() == u.len()
    &&& forall|i: int| 0 <= i < g.len() ==> #[trigger] g[i].from_version@ == numeral(u[i].from_version.1 as nat)
        && g[i].to_version@ == numeral(u[i].to_version.1 as nat)
}

/// Checks a source: first the latest schema, then each migration, then
/// each query against the latest schema. Gives the diagnostics, in that
/// order, and the migrations generated.
pub fn check_source(src: &Source) -> (r: (Vec<Diagnostic>, Vec<GeneratedMigration>))
    ensures
        src.migrations@.len() == 0 && src.queries@.len() == 0 ==> (forall|i: int| #[trigger] latest_at(*src, i)
            ==> summary(r.0@) == schema_diags(src.schema@[i])) && (src.schema@.len() == 0 ==> r.0@.len() == 0),
        forall|i: int| #[trigger] latest_at(*src, i) ==> summary(r.0@).take(schema_diags(src.schema@[i]).len() as int) == schema_diags(src.schema@[i])
            && r.0@.len() >= schema_diags(src.schema@[i]).len(),
        migrations_generated(*src, r.1@),
        forall|k: int| 0 <= k < src.migrations@.len() && #[trigger] versions_unusable(*src, src.migrations@[k])
            ==> reported(Seq::empty(), r.0@, ErrorCode::E201),
        forall|k: int| 0 <= k < src.queries@.len() ==> (is_mcp(#[trigger] src.queries@[k])
            && src.queries@[k].return_values@.len() != 1) ==> reported(Seq::empty(), r.0@, ErrorCode::E401),
        forall|k: int, p: int| 0 <= k < src.queries@.len() && 0 <= p < src.queries@[k].parameters@.len()
            ==> param_reserved(#[trigger] src.queries@[k].parameters@[p].param_type.1)
            ==> reported(Seq::empty(), r.0@, ErrorCode::E105),
        forall|i: int, k: int, p: int| latest_at(*src, i) && 0 <= k < src.queries@.len() && 0 <= p < src.queries@[k].parameters@.len()
            ==> #[trigger] param_undeclared(src.schema@[i], src.queries@[k].parameters@[p].param_type.1)
            ==> reported(Seq::empty(), r.0@, ErrorCode::E201),
        forall|k: int, j: int| 0 <= k < src.queries@.len() && 0 <= j < src.queries@[k].statements@.len()
            && #[trigger] reassigns(src.queries@[k], j) ==> reported(Seq::empty(), r.0@, ErrorCode::E302),
        src.schema@.len() == 0 && src.migrations@.len() == 0 && src.queries@.len() == 0 ==> r.0@.len() == 0,
{
    let mut diags: Vec<Diagnostic> = Vec::new();
    let empty = empty_schema();
    let li = latest_schema_index(src);
    let schema: &Schema = match li {
        Some(i) => &src.schema[i],
        None => &empty,
    };
    check_schema(schema, &mut diags);
    let ghost after_schema = diags@;
    proof {
        assert(summary(diags@) =~= schema_diags(*schema));
        lemma_extends_refl(diags@);
        if src.schema@.len() == 0 {
            assert(schema_diags(*schema) =~= Seq::empty());
            assert(summary(diags@).len() == diags@.len());
        }
    }
    let mut migrations: Vec<GeneratedMigration> = Vec::new();
    let mut m: usize = 0;
    while m < src.migrations.len()
        invariant
            m <= src.migrations@.len(),
            migrations_generated_upto(*src, migrations@, m as int),
            extends(after_schema, diags@),
            src.migrations@.len() == 0 ==> diags@ == after_schema,
            forall|k: int| 0 <= k < m && #[trigger] versions_unusable(*src, src.migrations@[k])
                ==> reported(Seq::empty(), diags@, ErrorCode::E201),
        decreases src.migrations.len() - m,
    {
        let ghost before = diags@;
        let g = validate_migration(src, &src.migrations[m], &mut diags);
        let ghost pre = migrations@;
        let ghost gv = g;
        match g {
            Some(g) => { migrations.push(g); },
            None => {},
        }
        proof {
            assert(usable_migrations(*src, m + 1) == if versions_unusable(*src, src.migrations@[m as int]) {
                usable_migrations(*src, m as int) } else { usable_migrations(*src, m as int).push(src.migrations@[m as int]) });
            lemma_extends_trans(after_schema, before, diags@);
            lemma_extends_empty(before);
            lemma_reported_extends(Seq::empty(), before, diags@, ErrorCode::E201);
            if versions_unusable(*src, src.migrations@[m as int]) {
                assert(codes(diags@).len() == codes(before).len() + 1);
                assert(codes(diags@)[before.len() as int] == ErrorCode::E201);
                assert(diags@[before.len() as int].error_code == ErrorCode::E201);
            }
            let u = usable_migrations(*src, m + 1);
            assert(pre.len() == usable_migrations(*src, m as int).len());
            if versions_unusable(*src, src.migrations@[m as int]) {
                assert(migrations@ == pre);
            } else {
                assert(migrations@.len() == pre.len() + 1);
            }
            assert(migrations@.len() == u.len());
            assert forall|i: int| 0 <= i < migrations@.len() implies #[trigger] migrations@[i].from_version@ == numeral(u[i].from_version.1 as nat)
                && migrations@[i].to_version@ == numeral(u[i].to_version.1 as nat) by {
                let u0 = usable_migrations(*src, m as int);
                if i < pre.len() {
                    assert(migrations@[i] == pre[i]);
                    assert(pre[i].from_version@ == numeral(u0[i].from_version.1 as nat));
                    assert(u[i] == u0[i]);
                } else {
                    assert(migrations@[i] == gv->Some_0);
                    assert(u[i] == src.migrations@[m as int]);
                }
            }
        }
        assert(migrations_generated_upto(*src, migrations@, m + 1));
        m = m + 1;
    }
    assert(migrations_generated(*src, migrations@));
    let ghost after_migrations = diags@;
    proof { lemma_extends_refl(diags@); }
    let mut q: usize = 0;
    while q < src.queries.len()
        invariant
            q <= src.queries@.len(),
            extends(after_schema, diags@),
            extends(after_migrations, diags@),
            src.queries@.len() == 0 ==> diags@ == after_migrations,
            forall|k: int| 0 <= k < src.migrations@.len() && #[trigger] versions_unusable(*src, src.migrations@[k])
                ==> reported(Seq::empty(), after_migrations, ErrorCode::E201),
            forall|k: int| 0 <= k < q ==> (is_mcp(#[trigger] src.queries@[k])
                && src.queries@[k].return_values@.len() != 1) ==> reported(Seq::empty(), diags@, ErrorCode::E401),
            forall|k: int, p: int| 0 <= k < q && 0 <= p < src.queries@[k].parameters@.len()
                ==> param_reserved(#[trigger] src.queries@[k].parameters@[p].param_type.1)
                ==> reported(Seq::empty(), diags@, ErrorCode::E105),
            forall|k: int, p: int| 0 <= k < q && 0 <= p < src.queries@[k].parameters@.len()
                ==> param_undeclared(*schema, #[trigger] src.queries@[k].parameters@[p].param_type.1)
                ==> reported(Seq::empty(), diags@, ErrorCode::E201),
            forall|k: int, j: int| 0 <= k < q && 0 <= j < src.queries@[k].statements@.len()
                && #[trigger] reassigns(src.queries@[k], j) ==> reported(Seq::empty(), diags@, ErrorCode::E302),
            li matches Some(l) ==> *schema == src.schema@[l as int] && latest_at(*src, l as int),
        decreases src.queries.len() - q,
    {
        let ghost before = diags@;
        check_query(schema, &src.queries[q], &mut diags);
        proof {
            lemma_extends_trans(after_schema, before, diags@);
            lemma_extends_trans(after_migrations, before, diags@);
            lemma_extends_empty(before);
            lemma_reported_extends(Seq::empty(), before, diags@, ErrorCode::E401);
            lemma_reported_extends(Seq::empty(), before, diags@, ErrorCode::E105);
            lemma_reported_extends(Seq::empty(), before, diags@, ErrorCode::E201);
            lemma_reported_extends(Seq::empty(), before, diags@, ErrorCode::E302);
        }
        q = q + 1;
    }
    proof {
        if li is Some {
            lemma_latest_unique(*src, li->0 as int);
        } else {
            assert forall|i: int| !latest_at(*src, i) by {}
        }
    }
    proof {
        lemma_extends_empty(after_migrations);
        lemma_reported_extends(Seq::empty(), after_migrations, diags@, ErrorCode::E201);
    }
    proof {
        assert forall|i: int| latest_at(*src, i) implies summary(diags@).take(schema_diags(src.schema@[i]).len() as int) == schema_diags(src.schema@[i])
            && diags@.len() >= schema_diags(src.schema@[i]).len() by {
            let k = li.unwrap() as int;
            if i != k {
                if i < k {
                    assert(src.schema@[i].version.1 < src.schema@[k].version.1);
                } else {
                    assert(src.schema@[k].version.1 < src.schema@[i].version.1);
                }
            }
            assert(diags@.subrange(0, after_schema.len() as int) == after_schema);
            assert(summary(diags@).take(after_schema.len() as int) =~= summary(after_schema));
        }
        if src.migrations@.len() == 0 && src.queries@.len() == 0 {
            assert(diags@ == after_schema);
            if src.schema@.len() == 0 {
                assert(summary(diags@).len() == diags@.len());
            }
            assert forall|i: int| #[trigger] latest_at(*src, i) implies summary(diags@) == schema_diags(src.schema@[i]) by {
                let k = li.unwrap() as int;
                if i != k {
                    if i < k {
                        assert(src.schema@[i].version.1 < src.schema@[k].version.1);
                    } else {
                        assert(src.schema@[k].version.1 < src.schema@[i].version.1);
                    }
                }
            }
        }
    }
    (diags, migrations)
}

/// Whether code can be generated for every field of a list.
pub open spec fn fields_convertible(fs: Seq<Field>) -> bool {
    forall|j: int| 0 <= j < fs.len() ==> convertible(#[trigger] fs[j].field_type)
}

/// Whether code can be generated for a source: every field of its latest
/// schema has a type that generated code can give, and every query
/// parameter can be generated.
pub open spec fn generatable(src: Source) -> bool {
    &&& forall|i: int| #[trigger] latest_at(src, i) ==> {
        let s = src.schema@[i];
        &&& forall|k: int| 0 <= k < s.node_schemas@.len() ==> fields_convertible(#[trigger] s.node_schemas@[k].fields@)
        &&& forall|k: int| 0 <= k < s.vector_schemas@.len() ==> fields_convertible(#[trigger] s.vector_schemas@[k].fields@)
        &&& forall|k: int| 0 <= k < s.edge_schemas@.len() ==> (#[trigger] s.edge_schemas@[k].properties matches Some(ps) ==> fields_convertible(ps@))
    }
    &&& forall|q: int, p: int| 0 <= q < src.queries@.len() && 0 <= p < src.queries@[q].parameters@.len()
        ==> field_ok(#[trigger] src.queries@[q].parameters@[p].param_type.1)
}

/// Whether `g` is the generated value of the default `d`: the code that
/// gives the time now for `NOW`, a text or decimal as it is written, a
/// number in base ten, a boolean as `true` or `false`, and no value for an
/// empty default.
pub open spec fn default_generated(d: DefaultValue, g: GeneratedValue) -> bool {
    match d {
        DefaultValue::Empty => g is Unknown,
        _ => g matches GeneratedValue::Primitive(GenRef::Std(t)) && t@ == match d {
            DefaultValue::Now => "chrono::Utc::now().to_rfc3339()"@,
            DefaultValue::String(s) => s@,
            DefaultValue::Decimal(s) => s@,
            DefaultValue::I8(x) => signed_numeral(x as int),
            DefaultValue::I16(x) => signed_numeral(x as int),
            DefaultValue::I32(x) => signed_numeral(x as int),
            DefaultValue::I64(x) => signed_numeral(x as int),
            DefaultValue::U8(x) => signed_numeral(x as int),
            DefaultValue::U16(x) => signed_numeral(x as int),
            DefaultValue::U32(x) => signed_numeral(x as int),
            DefaultValue::U64(x) => signed_numeral(x as int),
            DefaultValue::U128(x) => numeral(x as nat),
            DefaultValue::Boolean(b) => if b { "true"@ } else { "false"@ },
            DefaultValue::Empty => Seq::empty(),
        },
    }
}

/// The generated value of a field's default.
fn default_value(d: &DefaultValue) -> (r: GeneratedValue)
    ensures
        default_generated(*d, r),
{
    match d {
        DefaultValue::Now => GeneratedValue::Primitive(GenRef::Std(owned("chrono::Utc::now().to_rfc3339()"))),
        DefaultValue::String(s) => GeneratedValue::Primitive(GenRef::Std(s.clone())),
        DefaultValue::Decimal(s) => GeneratedValue::Primitive(GenRef::Std(s.clone())),
        DefaultValue::I8(x) => GeneratedValue::Primitive(GenRef::Std(i128_text(*x as i128))),
        DefaultValue::I16(x) => GeneratedValue::Primitive(GenRef::Std(i128_text(*x as i128))),
        DefaultValue::I32(x) => GeneratedValue::Primitive(GenRef::Std(i128_text(*x as i128))),
        DefaultValue::I64(x) => GeneratedValue::Primitive(GenRef::Std(i128_text(*x as i128))),
        DefaultValue::U8(x) => GeneratedValue::Primitive(GenRef::Std(i128_text(*x as i128))),
        DefaultValue::U16(x) => GeneratedValue::Primitive(GenRef::Std(i128_text(*x as i128))),
        DefaultValue::U32(x) => GeneratedValue::Primitive(GenRef::Std(i128_text(*x as i128))),
        DefaultValue::U64(x) => GeneratedValue::Primitive(GenRef::Std(i128_text(*x as i128))),
        DefaultValue::U128(x) => GeneratedValue::Primitive(GenRef::Std(u128_text(*x))),
        DefaultValue::Boolean(b) => GeneratedValue::Primitive(GenRef::Std(if *b { owned("true") } else { owned("false") })),
        DefaultValue::Empty => GeneratedValue::Unknown,
    }
}

/// The generated properties of a list of fields.
fn properties_of(fs: &Vec<Field>) -> (r: Vec<SchemaProperty>)
    requires
        fields_convertible(fs@),
    ensures
        r@.len() == fs@.len(),
        forall|j: int| #![trigger r@[j]] 0 <= j < fs@.len() ==> r@[j].name@ == fs@[j].name@
            && crate::helixc::generator::utils::describes(r@[j].field_type, fs@[j].field_type)
            && r@[j].is_index == fs@[j].prefix,
{
    let mut out: Vec<SchemaProperty> = Vec::new();
    let mut j: usize = 0;
    while j < fs.len()
        invariant
            j <= fs@.len(),
            fields_convertible(fs@),
            out@.len() == j,
            forall|k: int| #![trigger out@[k]] 0 <= k < j ==> out@[k].name@ == fs@[k].name@
                && crate::helixc::generator::utils::describes(out@[k].field_type, fs@[k].field_type)
                && out@[k].is_index == fs@[k].prefix,
        decreases fs.len() - j,
    {
        let f = &fs[j];
        let default = match &f.defaults {
            Some(d) => Some(default_value(d)),
            None => None,
        };
        let is_optional = f.prefix == FieldPrefix::Optional;
        out.push(SchemaProperty {
            name: f.name.clone(),
            field_type: generated_type_of(&f.field_type),
            default_value: default,
            is_optional,
            is_index: f.prefix,
        });
        j = j + 1;
    }
    out
}

/// Whether `g` is what is generated of the query `q`: its name, one
/// parameter for each of `q`'s, its return values (see
/// `returns_generated`), whether it changes the graph (see
/// `query_mutates`), and, for an MCP query, the name of its first return
/// value as handler.
pub open spec fn query_generated(q: Query, g: GeneratedQuery) -> bool {
    &&& g.name@ == q.name@
    &&& g.parameters@.len() == q.parameters@.len()
    &&& returns_generated(q.return_values@, g.return_values@)
    &&& g.is_mut == query_mutates(q)
    &&& (match g.mcp_handler {
        Some(h) => is_mcp(q) && g.return_values@.len() > 0 && return_name(g.return_values@[0]) == Some(h@),
        None => !is_mcp(q) || g.return_values@.len() == 0 || return_name(g.return_values@[0]) is None,
    })
}

/// Whether the generated node, edge and vector types of `nodes`, `edges`
/// and `vectors` are those of the schema `s`, in order: by name, with as
/// many properties as fields, and each edge between the same two types.
pub open spec fn schema_handed_on(
    s: Schema,
    nodes: Seq<GeneratedNodeSchema>,
    edges: Seq<GeneratedEdgeSchema>,
    vectors: Seq<GeneratedVectorSchema>,
) -> bool {
    &&& nodes.len() == s.node_schemas@.len()
    &&& forall|k: int| 0 <= k < nodes.len() ==> #[trigger] nodes[k].name@ == s.node_schemas@[k].name.1@
        && nodes[k].properties@.len() == s.node_schemas@[k].fields@.len()
    &&& vectors.len() == s.vector_schemas@.len()
    &&& forall|k: int| 0 <= k < vectors.len() ==> #[trigger] vectors[k].name@ == s.vector_schemas@[k].name@
        && vectors[k].properties@.len() == s.vector_schemas@[k].fields@.len()
    &&& edges.len() == s.edge_schemas@.len()
    &&& forall|k: int| 0 <= k < edges.len() ==> #[trigger] edges[k].name@ == s.edge_schemas@[k].name.1@
        && edges[k].from@ == s.edge_schemas@[k].from.1@ && edges[k].to@ == s.edge_schemas@[k].to.1@
}

/// Checks a source and gives its diagnostics (see `check_source`) and what
/// code is generated from: the latest schema's types and each query's
/// parameters.
pub fn analyze(src: &Source) -> (r: (Vec<Diagnostic>, GeneratedSource))
    requires
        generatable(*src),
    ensures
        forall|i: int| #[trigger] latest_at(*src, i) ==> summary(r.0@).take(schema_diags(src.schema@[i]).len() as int) == schema_diags(src.schema@[i])
            && r.0@.len() >= schema_diags(src.schema@[i]).len(),
        r.1.src@ == src.source@,
        r.1.queries@.len() == src.queries@.len(),
        forall|q: int| 0 <= q < src.queries@.len() ==> #[trigger] query_generated(src.queries@[q], r.1.queries@[q]),
        migrations_generated(*src, r.1.migrations@),
        forall|i: int| #[trigger] latest_at(*src, i)
            ==> schema_handed_on(src.schema@[i], r.1.nodes@, r.1.edges@, r.1.vectors@),
        src.schema@.len() == 0 ==> r.1.nodes@.len() == 0 && r.1.edges@.len() == 0 && r.1.vectors@.len() == 0,
        src.migrations@.len() == 0 && src.queries@.len() == 0 ==> (forall|i: int| #[trigger] latest_at(*src, i)
            ==> summary(r.0@) == schema_diags(src.schema@[i])) && (src.schema@.len() == 0 ==> r.0@.len() == 0),
        forall|k: int| 0 <= k < src.migrations@.len() && #[trigger] versions_unusable(*src, src.migrations@[k])
            ==> reported(Seq::empty(), r.0@, ErrorCode::E201),
        forall|k: int| 0 <= k < src.queries@.len() ==> (is_mcp(#[trigger] src.queries@[k])
            && src.queries@[k].return_values@.len() != 1) ==> reported(Seq::empty(), r.0@, ErrorCode::E401),
        forall|k: int, p: int| 0 <= k < src.queries@.len() && 0 <= p < src.queries@[k].parameters@.len()
            ==> param_reserved(#[trigger] src.queries@[k].parameters@[p].param_type.1)
            ==> reported(Seq::empty(), r.0@, ErrorCode::E105),
        forall|i: int, k: int, p: int| latest_at(*src, i) && 0 <= k < src.queries@.len() && 0 <= p < src.queries@[k].parameters@.len()
            ==> #[trigger] param_undeclared(src.schema@[i], src.queries@[k].parameters@[p].param_type.1)
            ==> reported(Seq::empty(), r.0@, ErrorCode::E201),
        forall|k: int, j: int| 0 <= k < src.queries@.len() && 0 <= j < src.queries@[k].statements@.len()
            && #[trigger] reassigns(src.queries@[k], j) ==> reported(Seq::empty(), r.0@, ErrorCode::E302),
        src.schema@.len() == 0 && src.migrations@.len() == 0 && src.queries@.len() == 0 ==> r.0@.len() == 0,
{
    let (diags, migrations) = check_source(src);
    let mut nodes: Vec<GeneratedNodeSchema> = Vec::new();
    let mut edges: Vec<GeneratedEdgeSchema> = Vec::new();
    let mut vectors: Vec<GeneratedVectorSchema> = Vec::new();
    let li_opt = latest_schema_index(src);
    match li_opt {
        Some(li) => {
            proof { lemma_latest_unique(*src, li as int); }
            let s = &src.schema[li];
            let mut k: usize = 0;
            while k < s.node_schemas.len()
                invariant
                    k <= s.node_schemas@.len(),
                    latest_at(*src, li as int),
                    generatable(*src),
                    *s == src.schema@[li as int],
                    nodes@.len() == k,
                    forall|j: int| 0 <= j < k ==> #[trigger] nodes@[j].name@ == s.node_schemas@[j].name.1@
                        && nodes@[j].properties@.len() == s.node_schemas@[j].fields@.len(),
                decreases s.node_schemas.len() - k,
            {
                let n = &s.node_schemas[k];
                nodes.push(GeneratedNodeSchema { name: n.name.1.clone(), properties: properties_of(&n.fields) });
                k = k + 1;
            }
            let mut k: usize = 0;
            while k < s.vector_schemas.len()
                invariant
                    k <= s.vector_schemas@.len(),
                    latest_at(*src, li as int),
                    generatable(*src),
                    *s == src.schema@[li as int],
                    vectors@.len() == k,
                    forall|j: int| 0 <= j < k ==> #[trigger] vectors@[j].name@ == s.vector_schemas@[j].name@
                        && vectors@[j].properties@.len() == s.vector_schemas@[j].fields@.len(),
                decreases s.vector_schemas.len() - k,
            {
                let v = &s.vector_schemas[k];
                vectors.push(GeneratedVectorSchema { name: v.name.clone(), properties: properties_of(&v.fields) });
                k = k + 1;
            }
            let mut k: usize = 0;
            while k < s.edge_schemas.len()
                invariant
                    k <= s.edge_schemas@.len(),
                    latest_at(*src, li as int),
                    generatable(*src),
                    *s == src.schema@[li as int],
                    edges@.len() == k,
                    forall|j: int| 0 <= j < k ==> #[trigger] edges@[j].name@ == s.edge_schemas@[j].name.1@
                        && edges@[j].from@ == s.edge_schemas@[j].from.1@ && edges@[j].to@ == s.edge_schemas@[j].to.1@,
                decreases s.edge_schemas.len() - k,
            {
                let e = &s.edge_schemas[k];
                let properties = match &e.properties {
                    Some(ps) => properties_of(ps),
                    None => Vec::new(),
                };
                let ghost pre = edges@;
                edges.push(GeneratedEdgeSchema { name: e.name.1.clone(), from: e.from.1.clone(), to: e.to.1.clone(), properties });
                proof {
                    assert forall|j: int| 0 <= j < k + 1 implies #[trigger] edges@[j].name@ == s.edge_schemas@[j].name.1@
                        && edges@[j].from@ == s.edge_schemas@[j].from.1@ && edges@[j].to@ == s.edge_schemas@[j].to.1@ by {
                        if j < k {
                            assert(edges@[j] == pre[j]);
                        }
                    }
                }
                k = k + 1;
            }
        },
        None => {},
    }
    proof {
        if li_opt is Some {
            lemma_latest_unique(*src, li_opt->0 as int);
            assert(schema_handed_on(src.schema@[li_opt->0 as int], nodes@, edges@, vectors@));
        }
    }
    let empty = empty_schema();
    let schema: &Schema = match li_opt {
        Some(i) => &src.schema[i],
        None => &empty,
    };
    let mut queries: Vec<GeneratedQuery> = Vec::new();
    let mut q: usize = 0;
    while q < src.queries.len()
        invariant
            q <= src.queries@.len(),
            generatable(*src),
            queries@.len() == q,
            forall|j: int| 0 <= j < q ==> #[trigger] query_generated(src.queries@[j], queries@[j]),
        decreases src.queries.len() - q,
    {
        let query = &src.queries[q];
        let mut parameters: Vec<GeneratedParameter> = Vec::new();
        let mut sub_parameters: Vec<(String, Vec<GeneratedParameter>)> = Vec::new();
        let mut p: usize = 0;
        while p < query.parameters.len()
            invariant
                p <= query.parameters@.len(),
                parameters@.len() == p,
                generatable(*src),
                q < src.queries@.len(),
                *query == src.queries@[q as int],
            decreases query.parameters.len() - p,
        {
            GeneratedParameter::unwrap_param(&query.parameters[p], &mut parameters, &mut sub_parameters);
            p = p + 1;
        }
        let mut scratch: Vec<Diagnostic> = Vec::new();
        let return_values = check_query(schema, query, &mut scratch);
        let mcp = match &query.built_in_macro {
            Some(crate::helixc::parser::ast::BuiltInMacro::MCP) => true,
            _ => false,
        };
        let mcp_handler = if mcp && return_values.len() > 0 {
            return_name_of(&return_values[0])
        } else {
            None
        };
        let is_mut = query_mutates_exec(query);
        queries.push(GeneratedQuery { name: query.name.clone(), parameters, sub_parameters, return_values, is_mut, mcp_handler });
        q = q + 1;
    }
    let generated = GeneratedSource { src: src.source.clone(), nodes, edges, vectors, queries, migrations };
    (diags, generated)
}

/// What is known of a source's schema and queries, for tools that inspect
/// it.
#[derive(Debug)]
pub struct IntrospectionData {
    pub schema: SchemaData,
    pub queries: Vec<QueryData>,
}

/// The node, vector and edge types of a schema.
#[derive(Debug)]
pub struct SchemaData {
    pub nodes: Vec<NodeData>,
    pub vectors: Vec<NodeData>,
    pub edges: Vec<EdgeData>,
}

/// A node or vector type: its name and its fields with their types.
#[derive(Debug)]
pub struct NodeData {
    pub name: String,
    pub properties: Vec<(String, String)>,
}

/// An edge type: its name, its ends, and its properties with their types.
#[derive(Debug)]
pub struct EdgeData {
    pub name: String,
    pub from: String,
    pub to: String,
    pub properties: Vec<(String, String)>,
}

/// A query: its name, its parameters with their types, and the variables
/// it returns.
#[derive(Debug)]
pub struct QueryData {
    pub name: String,
    pub parameters: Vec<(String, String)>,
    pub returns: Vec<String>,
}

/// Each field's name and type as written.
fn field_types(fs: &Vec<Field>) -> (r: Vec<(String, String)>)
    ensures
        r@.len() == fs@.len(),
        forall|j: int| #![trigger r@[j]] 0 <= j < fs@.len() ==> r@[j].0@ == fs@[j].name@
            && r@[j].1@ == crate::helixc::parser::field_type::field_type_text(fs@[j].field_type),
{
    let mut out: Vec<(String, String)> = Vec::new();
    let mut j: usize = 0;
    while j < fs.len()
        invariant
            j <= fs@.len(),
            out@.len() == j,
            forall|k: int| #![trigger out@[k]] 0 <= k < j ==> out@[k].0@ == fs@[k].name@
                && out@[k].1@ == crate::helixc::parser::field_type::field_type_text(fs@[k].field_type),
        decreases fs.len() - j,
    {
        out.push((fs[j].name.clone(), fs[j].field_type.to_text()));
        j = j + 1;
    }
    out
}

impl IntrospectionData {
    /// The types of a schema and the queries of a source.
    pub fn from_schema(s: &Schema, queries: &Vec<Query>) -> (r: IntrospectionData)
        ensures
            r.schema.nodes@.len() == s.node_schemas@.len(),
            r.schema.vectors@.len() == s.vector_schemas@.len(),
            r.schema.edges@.len() == s.edge_schemas@.len(),
            r.queries@.len() == queries@.len(),
            forall|k: int| 0 <= k < s.node_schemas@.len() ==> #[trigger] r.schema.nodes@[k].name@ == s.node_schemas@[k].name.1@,
            forall|k: int| 0 <= k < s.edge_schemas@.len() ==> #[trigger] r.schema.edges@[k].name@ == s.edge_schemas@[k].name.1@
                && r.schema.edges@[k].from@ == s.edge_schemas@[k].from.1@ && r.schema.edges@[k].to@ == s.edge_schemas@[k].to.1@,
            forall|k: int| 0 <= k < queries@.len() ==> #[trigger] r.queries@[k].name@ == queries@[k].name@
                && r.queries@[k].parameters@.len() == queries@[k].parameters@.len(),
    {
        let mut nodes: Vec<NodeData> = Vec::new();
        let mut k: usize = 0;
        while k < s.node_schemas.len()
            invariant
                k <= s.node_schemas@.len(),
                nodes@.len() == k,
                forall|j: int| 0 <= j < k ==> #[trigger] nodes@[j].name@ == s.node_schemas@[j].name.1@,
            decreases s.node_schemas.len() - k,
        {
            nodes.push(NodeData { name: s.node_schemas[k].name.1.clone(), properties: field_types(&s.node_schemas[k].fields) });
            k = k + 1;
        }
        let mut vectors: Vec<NodeData> = Vec::new();
        let mut k: usize = 0;
        while k < s.vector_schemas.len()
            invariant
                k <= s.vector_schemas@.len(),
                vectors@.len() == k,
            decreases s.vector_schemas.len() - k,
        {
            vectors.push(NodeData { name: s.vector_schemas[k].name.clone(), properties: field_types(&s.vector_schemas[k].fields) });
            k = k + 1;
        }
        let mut edges: Vec<EdgeData> = Vec::new();
        let mut k: usize = 0;
        while k < s.edge_schemas.len()
            invariant
                k <= s.edge_schemas@.len(),
                edges@.len() == k,
                forall|j: int| 0 <= j < k ==> #[trigger] edges@[j].name@ == s.edge_schemas@[j].name.1@
                    && edges@[j].from@ == s.edge_schemas@[j].from.1@ && edges@[j].to@ == s.edge_schemas@[j].to.1@,
            decreases s.edge_schemas.len() - k,
        {
            let e = &s.edge_schemas[k];
            let properties = match &e.properties {
                Some(ps) => field_types(ps),
                None => Vec::new(),
            };
            edges.push(EdgeData { name: e.name.1.clone(), from: e.from.1.clone(), to: e.to.1.clone(), properties });
            k = k + 1;
        }
        let mut qs: Vec<QueryData> = Vec::new();
        let mut k: usize = 0;
        while k < queries.len()
            invariant
                k <= queries@.len(),
                qs@.len() == k,
                forall|j: int| 0 <= j < k ==> #[trigger] qs@[j].name@ == queries@[j].name@
                    && qs@[j].parameters@.len() == queries@[j].parameters@.len(),
            decreases queries.len() - k,
        {
            let query = &queries[k];
            let mut parameters: Vec<(String, String)> = Vec::new();
            let mut p: usize = 0;
            while p < query.parameters.len()
                invariant
                    p <= query.parameters@.len(),
                    parameters@.len() == p,
                decreases query.parameters.len() - p,
            {
                parameters.push((query.parameters[p].name.1.clone(), query.parameters[p].param_type.1.to_text()));
                p = p + 1;
            }
            let mut returned: Vec<String> = Vec::new();
            let mut r: usize = 0;
            while r < query.return_values.len()
                invariant
                    r <= query.return_values@.len(),
                decreases query.return_values.len() - r,
            {
                match &query.return_values[r].expr {
                    ExpressionType::Identifier(n) => returned.push(n.clone()),
                    _ => {},
                }
                r = r + 1;
            }
            qs.push(QueryData { name: query.name.clone(), parameters, returns: returned });
            k = k + 1;
        }
        IntrospectionData { schema: SchemaData { nodes, vectors, edges }, queries: qs }
    }
}

/// The diagnostics of a parse of the file `query.hx`: the check of the
/// parsed source (see `check_source`), or the parser's error as one E601
/// diagnostic at the position where parsing stopped.
pub fn diagnostics_of(parsed: Result<Source, ParserError>) -> (r: Vec<Diagnostic>)
    ensures
        match parsed {
            Ok(src) => forall|i: int| #[trigger] latest_at(src, i)
                ==> summary(r@).take(schema_diags(src.schema@[i]).len() as int) == schema_diags(src.schema@[i])
                && r@.len() >= schema_diags(src.schema@[i]).len(),
            Err(e) => {
                &&& r@.len() == 1
                &&& r@[0].error_code == ErrorCode::E601
                &&& r@[0].severity == DiagnosticSeverity::Error
                &&& r@[0].message == e.message
                &&& r@[0].location.start == e.position
                &&& r@[0].location.end == e.position
            },
        },
{
    match parsed {
        Ok(parsed) => check_source(&parsed).0,
        Err(e) => {
            let mut diags: Vec<Diagnostic> = Vec::new();
            let loc = Loc { filepath: Some(owned("query.hx")), start: e.position, end: e.position };
            crate::helixc::analyzer::schema_check::push_diagnostic(&mut diags, loc, ErrorCode::E601, e.message, None, DiagnosticSeverity::Error);
            diags
        },
    }
}

/// Whether `ds` are diagnostics of the check of a source parsed from the
/// text `text`: the source holds the text, and the diagnostics start with
/// those of its latest schema.
pub open spec fn checked_parse(p: Source, text: Seq<char>, ds: Seq<Diagnostic>) -> bool {
    &&& p.source@ == text + seq!['\n']
    &&& forall|i: int| #[trigger] latest_at(p, i)
        ==> summary(ds).take(schema_diags(p.schema@[i]).len() as int) == schema_diags(p.schema@[i])
        && ds.len() >= schema_diags(p.schema@[i]).len()
}

/// Parses a text as the file `query.hx` and gives the diagnostics of the
/// parse (see `diagnostics_of`): one E601 diagnostic where the text does
/// not parse, else those of the check of what was parsed.
pub fn run(src: &str) -> (r: Vec<Diagnostic>)
    ensures
        (r@.len() == 1 && r@[0].error_code == ErrorCode::E601)
            || exists|p: Source| #[trigger] checked_parse(p, src@, r@),
{
    let file = HxFile { name: owned("query.hx"), content: owned(src) };
    let content = Content { content: owned(src), files: vec![file] };
    let parsed = HelixParser::parse_source(&content);
    proof {
        assert(content.files@.len() == 1);
        assert(content.files@.drop_last() =~= Seq::<HxFile>::empty());
        assert(crate::helixc::parser::helix_parser::joined_contents(Seq::<HxFile>::empty()) =~= Seq::<char>::empty());
        assert(crate::helixc::parser::helix_parser::joined_contents(content.files@) =~= src@ + seq!['\n']);
    }
    let ghost g = parsed;
    let r = diagnostics_of(parsed);
    proof {
        if let Ok(p) = g {
            assert(checked_parse(p, src@, r@));
        }
    }
    r
}

} // verus!
verus! {

/// Whether generated code can give a type to values of `ft`.
fn is_convertible(ft: &FieldType) -> (r: bool)
    ensures
        r == convertible(*ft),
    decreases ft,
{
    match ft {
        FieldType::Array(inner) => is_convertible(inner),
        FieldType::Object(_) => false,
        _ => true,
    }
}

/// Whether a parameter or object field of type `ft` can be generated.
fn is_field_ok(ft: &FieldType) -> (r: bool)
    ensures
        r == field_ok(*ft),
    decreases ft,
{
    let fields = match ft {
        FieldType::Object(o) => o,
        FieldType::Array(inner) => match &**inner {
            FieldType::Object(o) => o,
            _ => { return is_convertible(ft); },
        },
        _ => { return is_convertible(ft); },
    };
    let mut i: usize = 0;
    while i < fields.len()
        invariant
            i <= fields@.len(),
            object_ok(fields@, i as int),
            ft is Object ==> ft->Object_0 == *fields,
            ft is Array ==> (*ft->Array_0 is Object && (*ft->Array_0)->Object_0 == *fields),
            ft is Object || ft is Array,
        decreases fields.len() - i,
    {
        proof {
            if ft is Object {
                assert(decreases_to!(*ft => ft->Object_0@[i as int].1));
            } else {
                assert(decreases_to!(*ft => *ft->Array_0));
                assert(decreases_to!(*ft->Array_0 => (*ft->Array_0)->Object_0@[i as int].1));
            }
        }
        if !is_field_ok(&fields[i].1) {
            proof { lemma_object_ok_prefix(fields@, fields@.len() as int, i as int); }
            return false;
        }
        i = i + 1;
    }
    true
}

/// A prefix of an object whose fields can all be generated can be too; one
/// whose `i`-th field cannot, cannot.
proof fn lemma_object_ok_prefix(fs: Seq<(String, FieldType)>, n: int, i: int)
    requires
        0 <= i < n <= fs.len(),
        !field_ok(fs[i].1),
    ensures
        !object_ok(fs, n),
    decreases n,
{
    if i < n - 1 {
        lemma_object_ok_prefix(fs, n - 1, i);
    }
}

/// Whether every field of a list has a type that generated code can give.
fn fields_are_convertible(fs: &Vec<Field>) -> (r: bool)
    ensures
        r == fields_convertible(fs@),
{
    let mut j: usize = 0;
    while j < fs.len()
        invariant
            j <= fs@.len(),
            forall|k: int| 0 <= k < j ==> convertible(#[trigger] fs@[k].field_type),
        decreases fs.len() - j,
    {
        if !is_convertible(&fs[j].field_type) {
            return false;
        }
        j = j + 1;
    }
    true
}

/// Only one schema is the latest.
proof fn lemma_latest_unique(src: Source, li: int)
    requires
        latest_at(src, li),
    ensures
        forall|i: int| #[trigger] latest_at(src, i) ==> i == li,
{
    assert forall|i: int| #[trigger] latest_at(src, i) implies i == li by {
        if i < li {
            assert(src.schema@[i].version.1 < src.schema@[li].version.1);
            assert(src.schema@[li].version.1 <= src.schema@[i].version.1);
        } else if i > li {
            assert(src.schema@[li].version.1 < src.schema@[i].version.1);
            assert(src.schema@[i].version.1 <= src.schema@[li].version.1);
        }
    }
}

/// Whether code can be generated for a source (see `generatable`).
pub fn is_generatable(src: &Source) -> (r: bool)
    ensures
        r == generatable(*src),
{
    match latest_schema_index(src) {
        Some(li) => {
            proof { lemma_latest_unique(*src, li as int); }
            let s = &src.schema[li];
            let mut k: usize = 0;
            while k < s.node_schemas.len()
                invariant
                    k <= s.node_schemas@.len(),
                    latest_at(*src, li as int),
                    *s == src.schema@[li as int],
                    forall|j: int| 0 <= j < k ==> fields_convertible(#[trigger] s.node_schemas@[j].fields@),
                decreases s.node_schemas.len() - k,
            {
                if !fields_are_convertible(&s.node_schemas[k].fields) {
                    assert(!fields_convertible(src.schema@[li as int].node_schemas@[k as int].fields@));
                    return false;
                }
                k = k + 1;
            }
            let mut k: usize = 0;
            while k < s.vector_schemas.len()
                invariant
                    k <= s.vector_schemas@.len(),
                    latest_at(*src, li as int),
                    *s == src.schema@[li as int],
                    forall|j: int| 0 <= j < k ==> fields_convertible(#[trigger] s.vector_schemas@[j].fields@),
                decreases s.vector_schemas.len() - k,
            {
                if !fields_are_convertible(&s.vector_schemas[k].fields) {
                    assert(!fields_convertible(src.schema@[li as int].vector_schemas@[k as int].fields@));
                    return false;
                }
                k = k + 1;
            }
            let mut k: usize = 0;
            while k < s.edge_schemas.len()
                invariant
                    k <= s.edge_schemas@.len(),
                    latest_at(*src, li as int),
                    *s == src.schema@[li as int],
                    forall|j: int| 0 <= j < k ==> (#[trigger] s.edge_schemas@[j].properties matches Some(ps) ==> fields_convertible(ps@)),
                decreases s.edge_schemas.len() - k,
            {
                let ok = match &s.edge_schemas[k].properties {
                    Some(ps) => fields_are_convertible(ps),
                    None => true,
                };
                if !ok {
                    assert(!(src.schema@[li as int].edge_schemas@[k as int].properties matches Some(ps) ==> fields_convertible(ps@)));
                    return false;
                }
                k = k + 1;
            }
        },
        None => {},
    }
    let mut q: usize = 0;
    while q < src.queries.len()
        invariant
            q <= src.queries@.len(),
            forall|a: int, b: int| 0 <= a < q && 0 <= b < src.queries@[a].parameters@.len()
                ==> field_ok(#[trigger] src.queries@[a].parameters@[b].param_type.1),
        decreases src.queries.len() - q,
    {
        let query = &src.queries[q];
        let mut p: usize = 0;
        while p < query.parameters.len()
            invariant
                p <= query.parameters@.len(),
                q < src.queries@.len(),
                *query == src.queries@[q as int],
                forall|a: int, b: int| 0 <= a < q && 0 <= b < src.queries@[a].parameters@.len()
                    ==> field_ok(#[trigger] src.queries@[a].parameters@[b].param_type.1),
                forall|b: int| 0 <= b < p ==> field_ok(#[trigger] query.parameters@[b].param_type.1),
            decreases query.parameters.len() - p,
        {
            if !is_field_ok(&query.parameters[p].param_type.1) {
                return false;
            }
            p = p + 1;
        }
        q = q + 1;
    }
    true
}

/// What a successful generation gives of a source: the source text, one
/// query for each query, by name; it holds only of a source whose latest
/// schema is clean, whose migrations name schema versions that exist,
/// whose MCP queries return one value, whose parameters have neither a
/// reserved word nor an undeclared name as type, and whose queries assign
/// no name twice.
pub open spec fn generated_from(src: Source, g: GeneratedSource) -> bool {
    &&& g.src@ == src.source@
    &&& g.queries@.len() == src.queries@.len()
    &&& forall|q: int| 0 <= q < src.queries@.len() ==> #[trigger] query_generated(src.queries@[q], g.queries@[q])
    &&& forall|i: int| #[trigger] latest_at(src, i) ==> schema_handed_on(src.schema@[i], g.nodes@, g.edges@, g.vectors@)
    &&& migrations_generated(src, g.migrations@)
    &&& forall|i: int| #[trigger] latest_at(src, i) ==> schema_diags(src.schema@[i]).len() == 0
    &&& forall|k: int| 0 <= k < src.migrations@.len() ==> !versions_unusable(src, #[trigger] src.migrations@[k])
    &&& forall|k: int| 0 <= k < src.queries@.len() ==> is_mcp(#[trigger] src.queries@[k])
        ==> src.queries@[k].return_values@.len() == 1
    &&& forall|k: int, p: int| 0 <= k < src.queries@.len() && 0 <= p < src.queries@[k].parameters@.len()
        ==> !param_reserved(#[trigger] src.queries@[k].parameters@[p].param_type.1)
    &&& forall|i: int, k: int, p: int| latest_at(src, i) && 0 <= k < src.queries@.len()
        && 0 <= p < src.queries@[k].parameters@.len()
        ==> !(#[trigger] param_undeclared(src.schema@[i], src.queries@[k].parameters@[p].param_type.1))
    &&& forall|k: int, j: int| 0 <= k < src.queries@.len() && 0 <= j < src.queries@[k].statements@.len()
        ==> !(#[trigger] reassigns(src.queries@[k], j))
}

/// What code is generated from a parsed source: `unsupported type` where
/// generated code cannot give a type of it, `failed` where the analysis
/// reports anything. A source that is generated has a latest schema
/// without diagnostics.
pub fn generate_source(src: &Source) -> (r: Result<GeneratedSource, String>)
    ensures
        !generatable(*src) ==> (r matches Err(m) && m@ == "unsupported type"@),
        generatable(*src) ==> match r {
            Ok(g) => generated_from(*src, g),
            Err(m) => m@ == "failed"@,
        },
        src.schema@.len() == 0 && src.migrations@.len() == 0 && src.queries@.len() == 0 ==> r is Ok,
        generatable(*src) && src.migrations@.len() == 0 && src.queries@.len() == 0
            && (forall|i: int| #[trigger] latest_at(*src, i) ==> schema_diags(src.schema@[i]).len() == 0) ==> r is Ok,
{
    proof {
        reveal_strlit("unsupported type");
        reveal_strlit("failed");
    }
    if !is_generatable(src) {
        return Err(owned("unsupported type"));
    }
    let (diagnostics, generated) = analyze(src);
    let latest = latest_schema_index(src);
    proof {
        if src.migrations@.len() == 0 && src.queries@.len() == 0
            && (forall|i: int| #[trigger] latest_at(*src, i) ==> schema_diags(src.schema@[i]).len() == 0) {
            if let Some(li) = latest {
                assert(latest_at(*src, li as int));
                assert(summary(diagnostics@).len() == diagnostics@.len());
            }
        }
    }
    if diagnostics.len() > 0 {
        return Err(owned("failed"));
    }
    Ok(generated)
}

/// Parses a text as one file and generates code from it (see
/// `generate_source`); the parser's message where it does not parse.
pub fn generate(str_content: String) -> (r: Result<GeneratedSource, String>)
    ensures
        r matches Ok(g) ==> g.src@ == str_content@ + seq!['\n']
            && exists|p: Source| #[trigger] generated_from(p, g),
        str_content@.len() == 0 ==> r is Ok,
{
    let ghost text = str_content@;
    let file = HxFile { name: owned("test_queries_and_schema"), content: str_content };
    let content = Content { content: String::new(), files: vec![file] };
    let parsed = match HelixParser::parse_source(&content) {
        Ok(s) => s,
        Err(e) => { return Err(e.message); },
    };
    proof {
        assert(content.files@.len() == 1);
        assert(content.files@.drop_last() =~= Seq::<HxFile>::empty());
        assert(content.files@.last().content@ == text);
        assert(crate::helixc::parser::helix_parser::joined_contents(Seq::<HxFile>::empty()) =~= Seq::<char>::empty());
        assert(crate::helixc::parser::helix_parser::joined_contents(content.files@) =~= text + seq!['\n']);
    }
    let r = generate_source(&parsed);
    proof {
        if r is Ok {
            assert(generated_from(parsed, r->Ok_0));
        }
    }
    r
}


/// Whether an expression adds a node, an edge or a vector.
pub open spec fn adds_element(e: crate::helixc::parser::ast::Expression) -> bool {
    e.expr is AddNode || e.expr is AddEdge || e.expr is AddVector
}

/// Whether an expression is a traversal with an `UPDATE` step.
pub open spec fn updates(e: crate::helixc::parser::ast::Expression) -> bool {
    e.expr matches ExpressionType::Traversal(tr) && exists|j: int| 0 <= j < tr.steps@.len() && (#[trigger] tr.steps@[j]).step is Update
}

/// A query that writes to the graph is generated as one that changes it:
/// a statement that drops something, or that adds a node, an edge or a
/// vector, or updates what a traversal reached, makes the generated query
/// mutable.
pub proof fn law_writing_statement_makes_query_mutable(q: Query, g: GeneratedQuery, k: int)
    requires
        query_generated(q, g),
        0 <= k < q.statements@.len(),
        match q.statements@[k].statement {
            crate::helixc::parser::ast::StatementType::Drop(_) => true,
            crate::helixc::parser::ast::StatementType::Assignment(a) => adds_element(a.value) || updates(a.value),
            crate::helixc::parser::ast::StatementType::Expression(e) => adds_element(e) || updates(e),
            crate::helixc::parser::ast::StatementType::ForLoop(_) => false,
        },
    ensures
        g.is_mut,
{
    let st = q.statements@[k].statement;
    match st {
        crate::helixc::parser::ast::StatementType::Assignment(a) => {
            if updates(a.value) {
                let tr = a.value.expr->Traversal_0;
                let j = choose|j: int| 0 <= j < tr.steps@.len() && (#[trigger] tr.steps@[j]).step is Update;
                assert(crate::helixc::analyzer::query_check::update_at(tr.steps@, j));
            }
        },
        crate::helixc::parser::ast::StatementType::Expression(e) => {
            if updates(e) {
                let tr = e.expr->Traversal_0;
                let j = choose|j: int| 0 <= j < tr.steps@.len() && (#[trigger] tr.steps@[j]).step is Update;
                assert(crate::helixc::analyzer::query_check::update_at(tr.steps@, j));
            }
        },
        _ => {},
    }
    assert(crate::helixc::analyzer::query_check::stmts_mutate(q.statements@));
}

/// A query that returns an added node, edge or vector is generated as one
/// that changes the graph.
pub proof fn law_adding_return_makes_query_mutable(q: Query, g: GeneratedQuery, r: int)
    requires
        query_generated(q, g),
        0 <= r < q.return_values@.len(),
        adds_element(q.return_values@[r]),
    ensures
        g.is_mut,
{
    assert(crate::helixc::analyzer::query_check::expr_mutates(q.return_values@[r]));
}

/// A query whose statements only bind traversals without `UPDATE` steps,
/// and whose return values are variables or such traversals, is generated
/// as one that leaves the graph unchanged.
pub proof fn law_reading_query_is_not_mutable(q: Query, g: GeneratedQuery)
    requires
        query_generated(q, g),
        forall|k: int| 0 <= k < q.statements@.len() ==> ((#[trigger] q.statements@[k]).statement matches
            crate::helixc::parser::ast::StatementType::Assignment(a) && (a.value.expr is Traversal || a.value.expr is Identifier)
            && !updates(a.value)),
        forall|r: int| 0 <= r < q.return_values@.len() ==> ((#[trigger] q.return_values@[r]).expr is Traversal
            || q.return_values@[r].expr is Identifier) && !updates(q.return_values@[r]),
    ensures
        !g.is_mut,
{
    assert forall|k: int| 0 <= k < q.statements@.len() implies !match (#[trigger] q.statements@[k]).statement {
        crate::helixc::parser::ast::StatementType::Drop(_) => true,
        crate::helixc::parser::ast::StatementType::Assignment(a) => crate::helixc::analyzer::query_check::expr_mutates(a.value),
        crate::helixc::parser::ast::StatementType::Expression(e) => crate::helixc::analyzer::query_check::expr_mutates(e),
        crate::helixc::parser::ast::StatementType::ForLoop(fl) => {
            &&& decreases_to!(q.statements@ => fl.statements@)
            &&& crate::helixc::analyzer::query_check::stmts_mutate(fl.statements@)
        },
    } by {
        let a = q.statements@[k].statement->Assignment_0;
        if a.value.expr is Traversal {
            let tr = a.value.expr->Traversal_0;
            assert forall|j: int| 0 <= j < tr.steps@.len() implies !crate::helixc::analyzer::query_check::update_at(tr.steps@, j) by {
                assert(!(0 <= j < tr.steps@.len() && (tr.steps@[j]).step is Update));
            }
        }
    }
    assert forall|r: int| 0 <= r < q.return_values@.len() implies !crate::helixc::analyzer::query_check::expr_mutates(#[trigger] q.return_values@[r]) by {
        let e = q.return_values@[r];
        if e.expr is Traversal {
            let tr = e.expr->Traversal_0;
            assert forall|j: int| 0 <= j < tr.steps@.len() implies !crate::helixc::analyzer::query_check::update_at(tr.steps@, j) by {
                assert(!(0 <= j < tr.steps@.len() && (tr.steps@[j]).step is Update));
            }
        }
    }
}

} // verus!
