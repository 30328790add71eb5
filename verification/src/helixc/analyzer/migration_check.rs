//! Checks of migrations between schema versions, and the migrations they
//! generate.
use vstd::prelude::*;
use crate::helixc::analyzer::checks::{
    literal_fits, literal_fits_exec, naive_date_parses, parses_as_naive_date, parses_as_utc_datetime,
    timestamp_exists, timestamp_representable, utc_datetime_parses,
};
use crate::helixc::analyzer::diagnostic::{Diagnostic, DiagnosticSeverity};
use crate::helixc::analyzer::error_codes::ErrorCode;
use crate::helixc::analyzer::items::{
    ItemKind, declared_fields, declared_item_fields, field_lookup, field_named, extends, lemma_extends_refl, lemma_extends_trans, lemma_reported_at, lemma_reported_extends,
    reported,
};
use crate::helixc::analyzer::schema::{
    edge_declared, find_edge, is_node_type, is_vector_type, node_declared, vector_declared,
};
use crate::helixc::analyzer::scope::codes;
use crate::helixc::analyzer::schema_check::push_diagnostic;
use crate::helixc::analyzer::scope::{wrapped, wrapped2};
use crate::helixc::generator::migrations::{
    GeneratedMigration, GeneratedMigrationItemMapping, GeneratedMigrationPropertyMapping,
};
use crate::helixc::generator::utils::{GenRef, GeneratedValue, Separator};
use crate::helixc::location::Loc;
use crate::helixc::parser::ast::{
    DefaultValue, Field, FieldType, FieldValueType, Migration, MigrationItem, MigrationItemMapping,
    MigrationPropertyMapping, Schema, Source,
};
use crate::protocol::value::Value;
use crate::utils::decimal::u128_text;
use crate::utils::text::owned;

verus! {

/// Whether schema `i` is the first of version `v`.
pub open spec fn version_at(src: Source, v: usize, i: int) -> bool {
    &&& 0 <= i < src.schema@.len()
    &&& src.schema@[i].version.1 == v
    &&& forall|j: int| 0 <= j < i ==> #[trigger] src.schema@[j].version.1 != v
}

/// Whether the source has a schema of version `v`.
pub open spec fn version_exists(src: Source, v: usize) -> bool {
    exists|i: int| 0 <= i < src.schema@.len() && #[trigger] src.schema@[i].version.1 == v
}

/// The schema of version `v`: the first one of that version.
pub open spec fn version_schema(src: Source, v: usize) -> Schema {
    src.schema@[choose|i: int| version_at(src, v, i)]
}

/// Whether the two schema versions of a migration are not two versions
/// that exist, the new one following the old one by one.
pub open spec fn versions_unusable(src: Source, m: Migration) -> bool {
    !(version_exists(src, m.from_version.1) && version_exists(src, m.to_version.1)
        && m.to_version.1 == m.from_version.1 + 1)
}

/// Whether a migration item names a type of its kind declared in `s`.
pub open spec fn item_declared(s: Schema, item: MigrationItem) -> bool {
    match item {
        MigrationItem::Node(n) => node_declared(s, n@),
        MigrationItem::Edge(n) => edge_declared(s, n@),
        MigrationItem::Vector(n) => vector_declared(s, n@),
    }
}

/// Whether two migration items are of the same kind.
pub open spec fn same_kind(a: MigrationItem, b: MigrationItem) -> bool {
    (a is Node && b is Node) || (a is Edge && b is Edge) || (a is Vector && b is Vector)
}

/// The schema of version `v`, if the source has one.
pub fn schema_of_version(src: &Source, v: usize) -> (r: Option<&Schema>)
    ensures
        r matches Some(s) ==> s.version.1 == v && *s == version_schema(*src, v),
        r is None <==> !version_exists(*src, v),
        r is None ==> forall|i: int| 0 <= i < src.schema@.len() ==> #[trigger] src.schema@[i].version.1 != v,
{
    let mut i: usize = 0;
    while i < src.schema.len()
        invariant
            i <= src.schema@.len(),
            forall|j: int| 0 <= j < i ==> #[trigger] src.schema@[j].version.1 != v,
        decreases src.schema.len() - i,
    {
        if src.schema[i].version.1 == v {
            proof {
                assert(version_at(*src, v, i as int));
                let c = choose|c: int| version_at(*src, v, c);
                assert(c == i) by {
                    if c < i {
                        assert(src.schema@[c].version.1 != v);
                    } else if c > i {
                        assert(src.schema@[i as int].version.1 != v);
                    }
                }
            }
            return Some(&src.schema[i]);
        }
        i = i + 1;
    }
    None
}

/// The name inside a migration item.
fn item_name(item: &MigrationItem) -> (r: &String)
    ensures
        r@ == name_of(*item),
{
    match item {
        MigrationItem::Node(n) => n,
        MigrationItem::Edge(n) => n,
        MigrationItem::Vector(n) => n,
    }
}

/// Whether two migration items are of the same kind.
fn same_item_kind(a: &MigrationItem, b: &MigrationItem) -> (r: bool)
    ensures
        r == same_kind(*a, *b),
{
    match (a, b) {
        (MigrationItem::Node(_), MigrationItem::Node(_)) => true,
        (MigrationItem::Edge(_), MigrationItem::Edge(_)) => true,
        (MigrationItem::Vector(_), MigrationItem::Vector(_)) => true,
        _ => false,
    }
}

/// The kind of item a migration item names.
pub open spec fn kind_of(item: MigrationItem) -> ItemKind {
    match item {
        MigrationItem::Node(_) => ItemKind::Node,
        MigrationItem::Edge(_) => ItemKind::Edge,
        MigrationItem::Vector(_) => ItemKind::Vector,
    }
}

/// The type name a migration item names.
pub open spec fn name_of(item: MigrationItem) -> Seq<char> {
    match item {
        MigrationItem::Node(n) => n@,
        MigrationItem::Edge(n) => n@,
        MigrationItem::Vector(n) => n@,
    }
}

/// The fields that schema `s` gives the type a migration item names.
pub open spec fn fields_of(s: Schema, item: MigrationItem) -> Option<Seq<Field>> {
    declared_item_fields(s, kind_of(item), name_of(item))
}

/// The field named `f` among fields that may be missing.
pub open spec fn lookup_in(fs: Option<Seq<Field>>, f: Seq<char>) -> Option<Field> {
    match fs {
        Some(x) => field_lookup(x, f),
        None => None,
    }
}

/// The contents of an optional list of fields.
pub open spec fn fields_view(fs: Option<&Vec<Field>>) -> Option<Seq<Field>> {
    match fs {
        Some(v) => Some(v@),
        None => None,
    }
}

/// Whether the item exists in schema `s`, and its fields.
fn item_fields<'a>(s: &'a Schema, item: &MigrationItem) -> (r: (bool, Option<&'a Vec<Field>>))
    ensures
        r.0 == item_declared(*s, *item),
        fields_view(r.1) == fields_of(*s, *item),
{
    match item {
        MigrationItem::Node(n) => (is_node_type(s, n.as_str()), declared_fields(s, ItemKind::Node, n.as_str())),
        MigrationItem::Vector(n) => (is_vector_type(s, n.as_str()), declared_fields(s, ItemKind::Vector, n.as_str())),
        MigrationItem::Edge(n) => (find_edge(s, n.as_str()).is_some(), declared_fields(s, ItemKind::Edge, n.as_str())),
    }
}

/// The field named `f` among fields that may be missing.
fn field_in<'a>(fields: Option<&'a Vec<Field>>, f: &str) -> (r: Option<&'a Field>)
    ensures
        match r {
            Some(fd) => lookup_in(fields_view(fields), f@) == Some(*fd),
            None => lookup_in(fields_view(fields), f@) is None,
        },
{
    match fields {
        Some(fs) => field_named(fs, f),
        None => None,
    }
}

/// Whether a default value fits a field of type `ft`: a date takes `NOW`,
/// a text that chrono reads as a date or a date and time, or a timestamp
/// in chrono's range.
pub open spec fn default_fits(ft: FieldType, d: DefaultValue) -> bool {
    match (ft, d) {
        (FieldType::String, DefaultValue::String(_)) => true,
        (FieldType::Boolean, DefaultValue::Boolean(_)) => true,
        (FieldType::Date, DefaultValue::Now) => true,
        (FieldType::Date, DefaultValue::String(t)) => naive_date_parses(t@) || utc_datetime_parses(t@),
        (FieldType::Date, DefaultValue::I64(t)) => timestamp_representable(t),
        (FieldType::Date, DefaultValue::U64(t)) => timestamp_representable(t as i64),
        _ => ((ft is F32 || ft is F64) && d is Decimal) || (
            (ft is I8 || ft is I16 || ft is I32 || ft is I64 || ft is U8 || ft is U16 || ft is U32 || ft is U64 || ft is U128)
            && (d is I8 || d is I16 || d is I32 || d is I64 || d is U8 || d is U16 || d is U32 || d is U64 || d is U128)),
    }
}

/// Whether a field type is one of the integer types.
pub open spec fn integer_field(ft: FieldType) -> bool {
    ft is I8 || ft is I16 || ft is I32 || ft is I64 || ft is U8 || ft is U16 || ft is U32 || ft is U64 || ft is U128
}

/// Whether a default value is an integer.
pub open spec fn integer_default(d: DefaultValue) -> bool {
    d is I8 || d is I16 || d is I32 || d is I64 || d is U8 || d is U16 || d is U32 || d is U64 || d is U128
}

/// A default of a field's own kind fits it: a text a `String` field, a
/// truth value a `Boolean` field, any integer an integer field, a decimal
/// a float field, and `NOW` a `Date` field. A default of another kind does
/// not: no text, integer or decimal fits a `Boolean` field, no truth value,
/// integer or decimal a `String` field, and no text or truth value a
/// number field.
pub proof fn law_default_of_own_kind_fits(ft: FieldType, d: DefaultValue)
    ensures
        ft is String && d is String ==> default_fits(ft, d),
        ft is Boolean && d is Boolean ==> default_fits(ft, d),
        integer_field(ft) && integer_default(d) ==> default_fits(ft, d),
        (ft is F32 || ft is F64) && d is Decimal ==> default_fits(ft, d),
        ft is Date && d is Now ==> default_fits(ft, d),
        ft is Boolean && (d is String || d is Decimal || integer_default(d) || d is Now) ==> !default_fits(ft, d),
        ft is String && (d is Boolean || d is Decimal || integer_default(d) || d is Now) ==> !default_fits(ft, d),
        (integer_field(ft) || ft is F32 || ft is F64) && (d is String || d is Boolean || d is Now) ==> !default_fits(ft, d),
{
}

/// Whether a default value fits a field type (see `default_fits`).
pub fn default_fits_exec(ft: &FieldType, d: &DefaultValue) -> (r: bool)
    ensures
        r == default_fits(*ft, *d),
{
    let int_default = match d {
        DefaultValue::I8(_) | DefaultValue::I16(_) | DefaultValue::I32(_) | DefaultValue::I64(_)
        | DefaultValue::U8(_) | DefaultValue::U16(_) | DefaultValue::U32(_) | DefaultValue::U64(_)
        | DefaultValue::U128(_) => true,
        _ => false,
    };
    let decimal = match d {
        DefaultValue::Decimal(_) => true,
        _ => false,
    };
    match (ft, d) {
        (FieldType::String, DefaultValue::String(_)) => true,
        (FieldType::Boolean, DefaultValue::Boolean(_)) => true,
        (FieldType::Date, DefaultValue::Now) => true,
        (FieldType::Date, DefaultValue::String(t)) => parses_as_naive_date(t.as_str()) || parses_as_utc_datetime(t.as_str()),
        (FieldType::Date, DefaultValue::I64(t)) => timestamp_exists(*t),
        (FieldType::Date, DefaultValue::U64(t)) => timestamp_exists(*t as i64),
        _ => (ft.is_float_type() && decimal) || (ft.is_int_type() && int_default),
    }
}

/// Whether values of type `from` can be cast to a field of type `to`: the
/// same type, where every integer type counts as one and both float types
/// as another, or arrays of such types; no object type fits.
pub open spec fn cast_fits(to: FieldType, from: FieldType) -> bool
    decreases to,
{
    match (to, from) {
        (FieldType::String, FieldType::String) => true,
        (FieldType::Boolean, FieldType::Boolean) => true,
        (FieldType::Uuid, FieldType::Uuid) => true,
        (FieldType::Date, FieldType::Date) => true,
        (FieldType::Identifier(a), FieldType::Identifier(b)) => a@ == b@,
        (FieldType::Array(a), FieldType::Array(b)) => cast_fits(*a, *b),
        _ => ((to is F32 || to is F64) && (from is F32 || from is F64)) || (
            (to is I8 || to is I16 || to is I32 || to is I64 || to is U8 || to is U16 || to is U32 || to is U64 || to is U128)
            && (from is I8 || from is I16 || from is I32 || from is I64 || from is U8 || from is U16 || from is U32 || from is U64 || from is U128)),
    }
}

/// Whether a cast fits (see `cast_fits`).
pub fn cast_fits_exec(to: &FieldType, from: &FieldType) -> (r: bool)
    ensures
        r == cast_fits(*to, *from),
    decreases to,
{
    match (to, from) {
        (FieldType::String, FieldType::String) => true,
        (FieldType::Boolean, FieldType::Boolean) => true,
        (FieldType::Uuid, FieldType::Uuid) => true,
        (FieldType::Date, FieldType::Date) => true,
        (FieldType::Identifier(a), FieldType::Identifier(b)) => *a == *b,
        (FieldType::Array(a), FieldType::Array(b)) => cast_fits_exec(a, b),
        _ => (to.is_float_type() && from.is_float_type()) || (to.is_int_type() && from.is_int_type()),
    }
}

/// Reports a schema error of a migration at `loc`.
fn migration_error(diags: &mut Vec<Diagnostic>, loc: &Loc, code: ErrorCode, msg: String, hint: &str)
    ensures
        extends(old(diags)@, final(diags)@),
        final(diags)@.len() == old(diags)@.len() + 1,
        final(diags)@.last().error_code == code,
{
    push_diagnostic(diags, loc.clone(), code, msg, Some(owned(hint)), DiagnosticSeverity::Error);
    assert(diags@.subrange(0, old(diags)@.len() as int) =~= old(diags)@);
}

/// Whether the problems of one property of a migrated item were reported,
/// given the fields `from` of the old item and `to` of the new one: a
/// property that the new item lacks with E202; a literal that does not fit
/// the new field, or a value that is neither a literal nor a field, with
/// E205; an old field that the old item lacks with E202; a default or a
/// cast that does not fit the new field with E205.
pub open spec fn property_reported(
    from: Option<Seq<Field>>,
    to: Option<Seq<Field>>,
    pm: MigrationPropertyMapping,
    before: Seq<Diagnostic>,
    after: Seq<Diagnostic>,
) -> bool {
    match lookup_in(to, pm.property_name.1@) {
        None => reported(before, after, ErrorCode::E202),
        Some(fd) => {
            &&& match pm.property_value.value {
                FieldValueType::Literal(v) => !literal_fits(fd.field_type, v) ==> reported(before, after, ErrorCode::E205),
                FieldValueType::Identifier(n) => lookup_in(from, n@) is None ==> reported(before, after, ErrorCode::E202),
                _ => reported(before, after, ErrorCode::E205),
            }
            &&& (pm.default matches Some(d) && !default_fits(fd.field_type, d)) ==> reported(before, after, ErrorCode::E205)
            &&& (pm.cast matches Some(c) && !cast_fits(fd.field_type, c.cast_to)) ==> reported(before, after, ErrorCode::E205)
        },
    }
}

/// Whether the property has none of the problems of `property_reported`.
pub open spec fn property_clean(from: Option<Seq<Field>>, to: Option<Seq<Field>>, pm: MigrationPropertyMapping) -> bool {
    match lookup_in(to, pm.property_name.1@) {
        None => false,
        Some(fd) => {
            &&& match pm.property_value.value {
                FieldValueType::Literal(v) => literal_fits(fd.field_type, v),
                FieldValueType::Identifier(n) => lookup_in(from, n@) is Some,
                _ => false,
            }
            &&& (pm.default matches Some(d) ==> default_fits(fd.field_type, d))
            &&& (pm.cast matches Some(c) ==> cast_fits(fd.field_type, c.cast_to))
        },
    }
}

/// Reports of a property stay reported as more diagnostics follow.
proof fn lemma_property_reported_extends(
    from: Option<Seq<Field>>,
    to: Option<Seq<Field>>,
    pm: MigrationPropertyMapping,
    a: Seq<Diagnostic>,
    b: Seq<Diagnostic>,
    c: Seq<Diagnostic>,
)
    requires
        extends(a, b),
        extends(b, c),
    ensures
        property_reported(from, to, pm, a, b) ==> property_reported(from, to, pm, a, c),
        property_reported(from, to, pm, b, c) ==> property_reported(from, to, pm, a, c),
{
    lemma_reported_extends(a, b, c, ErrorCode::E202);
    lemma_reported_extends(a, b, c, ErrorCode::E205);
}

/// Checks one property of a migrated item against the fields `from_fields`
/// of the old item and `to_fields` of the new one, and gives the mapping it
/// generates: a cast where it has one, else the value or the old field it
/// takes. A property with a problem is reported and generates nothing.
fn check_property(
    from_fields: Option<&Vec<Field>>,
    to_fields: Option<&Vec<Field>>,
    pm: &MigrationPropertyMapping,
    from_version: &String,
    to_version: &String,
    diags: &mut Vec<Diagnostic>,
) -> (r: Option<Separator<GeneratedMigrationPropertyMapping>>)
    ensures
        extends(old(diags)@, final(diags)@),
        property_reported(fields_view(from_fields), fields_view(to_fields), *pm, old(diags)@, final(diags)@),
        r is Some <==> property_clean(fields_view(from_fields), fields_view(to_fields), *pm),
        r is Some ==> final(diags)@ == old(diags)@,
{
    let pname = &pm.property_name.1;
    let to_field = match field_in(to_fields, pname.as_str()) {
        None => {
            migration_error(diags, &pm.property_name.0, ErrorCode::E202, wrapped2("property `", pname.as_str(), "` does not exist in schema version `", to_version.as_str(), "`"), "check the field names of the new version");
            proof { lemma_reported_at(old(diags)@, diags@, old(diags)@.len() as int); }
            return None;
        },
        Some(f) => f,
    };
    let ft = &to_field.field_type;
    proof { lemma_extends_refl(diags@); }
    let value_ok = match &pm.property_value.value {
        FieldValueType::Literal(v) => {
            let fits = literal_fits_exec(ft, v);
            if !fits {
                migration_error(diags, &pm.property_value.loc, ErrorCode::E205, wrapped("value of `", pname.as_str(), "` does not fit its type in the new version"), "give a value of the field's type");
                proof { lemma_reported_at(old(diags)@, diags@, old(diags)@.len() as int); }
            }
            fits
        },
        FieldValueType::Identifier(old_name) => {
            let found = field_in(from_fields, old_name.as_str()).is_some();
            if !found {
                migration_error(diags, &pm.property_value.loc, ErrorCode::E202, wrapped2("field `", old_name.as_str(), "` does not exist in schema version `", from_version.as_str(), "`"), "check the field names of the old version");
                proof { lemma_reported_at(old(diags)@, diags@, old(diags)@.len() as int); }
            }
            found
        },
        _ => {
            migration_error(diags, &pm.property_value.loc, ErrorCode::E205, wrapped("value of `", pname.as_str(), "` must be a literal or an old field"), "give a literal or an old field");
            proof { lemma_reported_at(old(diags)@, diags@, old(diags)@.len() as int); }
            false
        },
    };
    let ghost d1 = diags@;
    proof { lemma_extends_refl(diags@); }
    let default_ok = match &pm.default {
        Some(d) => {
            let fits = default_fits_exec(ft, d);
            if !fits {
                migration_error(diags, &pm.loc, ErrorCode::E205, wrapped("default of `", pname.as_str(), "` does not fit its type in the new version"), "give a default of the field's type");
                proof { lemma_reported_at(d1, diags@, d1.len() as int); }
            }
            fits
        },
        None => true,
    };
    let ghost d2 = diags@;
    proof { lemma_extends_refl(diags@); }
    let cast_ok = match &pm.cast {
        Some(c) => {
            let fits = cast_fits_exec(ft, &c.cast_to);
            if !fits {
                migration_error(diags, &c.loc, ErrorCode::E205, wrapped("cast of `", pname.as_str(), "` does not fit its type in the new version"), "cast to the field's type");
                proof { lemma_reported_at(d2, diags@, d2.len() as int); }
            }
            fits
        },
        None => true,
    };
    proof {
        lemma_extends_trans(old(diags)@, d1, d2);
        lemma_extends_trans(old(diags)@, d2, diags@);
        lemma_reported_extends(old(diags)@, d1, d2, ErrorCode::E202);
        lemma_reported_extends(old(diags)@, d1, d2, ErrorCode::E205);
        lemma_reported_extends(old(diags)@, d2, diags@, ErrorCode::E202);
        lemma_reported_extends(old(diags)@, d2, diags@, ErrorCode::E205);
    }
    if !(value_ok && default_ok && cast_ok) {
        return None;
    }
    let new_field = GeneratedValue::Literal(GenRef::Literal(pname.clone()));
    match &pm.cast {
        Some(c) => {
            let cast_to = crate::helixc::analyzer::types::scalar_copy(&c.cast_to);
            Some(Separator::Semicolon(GeneratedMigrationPropertyMapping::FieldTypeCast { field: new_field, cast: cast_to }))
        },
        None => match &pm.property_value.value {
            FieldValueType::Literal(v) => {
                let value = match v {
                    Value::String(t) => GeneratedValue::Literal(GenRef::Literal(t.clone())),
                    other => GeneratedValue::Literal(GenRef::Std(other.to_text())),
                };
                Some(Separator::Semicolon(GeneratedMigrationPropertyMapping::FieldAdditionFromValue { new_field, value }))
            },
            FieldValueType::Identifier(old_name) => {
                let old_field = GeneratedValue::Identifier(GenRef::Literal(old_name.clone()));
                Some(Separator::Semicolon(GeneratedMigrationPropertyMapping::FieldAdditionFromOldField { old_field, new_field }))
            },
            _ => None,
        },
    }
}

/// Whether the problems of a migrated item, mapped from schema `fs` to
/// schema `ts`, were reported: a missing item with E201, items of two kinds
/// with E206, and otherwise those of each of its properties (see
/// `property_reported`).
pub open spec fn migration_item_reported(
    fs: Schema,
    ts: Schema,
    item: MigrationItemMapping,
    before: Seq<Diagnostic>,
    after: Seq<Diagnostic>,
) -> bool {
    let from = item.from_item.1;
    let to = item.to_item.1;
    &&& !item_declared(fs, from) ==> reported(before, after, ErrorCode::E201)
    &&& item_declared(fs, from) && !item_declared(ts, to) ==> reported(before, after, ErrorCode::E201)
    &&& item_declared(fs, from) && item_declared(ts, to) && !same_kind(from, to) ==> reported(before, after, ErrorCode::E206)
    &&& item_declared(fs, from) && item_declared(ts, to) && same_kind(from, to) ==> forall|j: int|
        0 <= j < item.remappings@.len() ==> #[trigger] property_reported(fields_of(fs, from), fields_of(ts, to),
            item.remappings@[j], before, after)
}

/// Reporting stays reported as more diagnostics follow.
proof fn lemma_item_reported_extends(
    fs: Schema,
    ts: Schema,
    item: MigrationItemMapping,
    a: Seq<Diagnostic>,
    b: Seq<Diagnostic>,
    c: Seq<Diagnostic>,
)
    requires
        extends(a, b),
        extends(b, c),
    ensures
        migration_item_reported(fs, ts, item, a, b) ==> migration_item_reported(fs, ts, item, a, c),
        migration_item_reported(fs, ts, item, b, c) ==> migration_item_reported(fs, ts, item, a, c),
{
    lemma_reported_extends(a, b, c, ErrorCode::E201);
    lemma_reported_extends(a, b, c, ErrorCode::E206);
    let from = fields_of(fs, item.from_item.1);
    let to = fields_of(ts, item.to_item.1);
    assert forall|j: int| 0 <= j < item.remappings@.len() implies
        (property_reported(from, to, item.remappings@[j], a, b) ==> #[trigger] property_reported(from, to, item.remappings@[j], a, c))
        && (property_reported(from, to, item.remappings@[j], b, c) ==> property_reported(from, to, item.remappings@[j], a, c)) by {
        lemma_property_reported_extends(from, to, item.remappings@[j], a, b, c);
    }
}

/// Checks a migration against the schemas of its two versions, and gives
/// the migration it generates. Each schema version must exist (E201); each
/// item mapped must exist in its version (E201) and keep its kind (E206);
/// each property set must exist in the new version (E202), take a value of
/// its type (E205) or an old field (E202), and have a default and a cast of
/// its type (E205). A property with an error generates nothing. The new
/// version must follow the old one by one (E201); a migration whose
/// versions are unusable generates no migration.
pub fn validate_migration(src: &Source, m: &Migration, diags: &mut Vec<Diagnostic>) -> (r: Option<GeneratedMigration>)
    ensures
        extends(old(diags)@, final(diags)@),
        r is None <==> versions_unusable(*src, *m),
        r matches Some(g) ==> g.from_version@ == crate::utils::decimal::numeral(m.from_version.1 as nat)
            && g.to_version@ == crate::utils::decimal::numeral(m.to_version.1 as nat)
            && g.body@.len() <= m.body@.len(),
        versions_unusable(*src, *m) ==> codes(final(diags)@) == codes(old(diags)@).push(ErrorCode::E201),
        !versions_unusable(*src, *m) ==> forall|k: int|
            0 <= k < m.body@.len() ==> #[trigger] migration_item_reported(
                version_schema(*src, m.from_version.1),
                version_schema(*src, m.to_version.1),
                m.body@[k],
                old(diags)@,
                final(diags)@,
            ),
{
    let from_version = u128_text(m.from_version.1 as u128);
    let to_version = u128_text(m.to_version.1 as u128);
    let mut body: Vec<GeneratedMigrationItemMapping> = Vec::new();
    let from_schema = schema_of_version(src, m.from_version.1);
    let to_schema = schema_of_version(src, m.to_version.1);
    proof { lemma_extends_refl(diags@); }
    let (fs, ts) = match (from_schema, to_schema) {
        (Some(a), Some(b)) => (a, b),
        _ => {
            let at = if from_schema.is_none() { &m.from_version.0 } else { &m.to_version.0 };
            let v = if from_schema.is_none() { &from_version } else { &to_version };
            migration_error(diags, at, ErrorCode::E201, wrapped("schema version `", v.as_str(), "` does not exist"), "declare that schema version first");
            proof {
                assert(diags@.drop_last() =~= old(diags)@);
                assert(codes(diags@) =~= codes(old(diags)@).push(ErrorCode::E201));
            }
            return None;
        },
    };
    if !(m.to_version.1 > m.from_version.1 && m.to_version.1 - m.from_version.1 == 1) {
        migration_error(diags, &m.to_version.0, ErrorCode::E201, wrapped2("schema version `", to_version.as_str(), "` does not follow schema version `", from_version.as_str(), "` by one"), "migrate from one schema version to the next");
        proof {
            assert(diags@.drop_last() =~= old(diags)@);
            assert(codes(diags@) =~= codes(old(diags)@).push(ErrorCode::E201));
        }
        return None;
    }
    let mut k: usize = 0;
    while k < m.body.len()
        invariant
            k <= m.body@.len(),
            body@.len() <= k,
            extends(old(diags)@, diags@),
            *fs == version_schema(*src, m.from_version.1),
            *ts == version_schema(*src, m.to_version.1),
            forall|k2: int| 0 <= k2 < k ==> #[trigger] migration_item_reported(*fs, *ts,
                m.body@[k2], old(diags)@, diags@),
        decreases m.body.len() - k,
    {
        let ghost before = diags@;
        let item = &m.body[k];
        let (from_exists, from_fields) = item_fields(fs, &item.from_item.1);
        let (to_exists, to_fields) = item_fields(ts, &item.to_item.1);
        if !from_exists {
            migration_error(diags, &item.from_item.0, ErrorCode::E201, wrapped2("`", item_name(&item.from_item.1).as_str(), "` does not exist in schema version `", from_version.as_str(), "`"), "check the item names of the old version");
            proof { lemma_reported_at(before, diags@, before.len() as int); }
        } else if !to_exists {
            migration_error(diags, &item.to_item.0, ErrorCode::E201, wrapped2("`", item_name(&item.to_item.1).as_str(), "` does not exist in schema version `", to_version.as_str(), "`"), "check the item names of the new version");
            proof { lemma_reported_at(before, diags@, before.len() as int); }
        } else if !same_item_kind(&item.from_item.1, &item.to_item.1) {
            migration_error(diags, &item.loc, ErrorCode::E206, owned("item types do not match"), "migrate an item to an item of the same kind");
            proof { lemma_reported_at(before, diags@, before.len() as int); }
        } else {
            proof { lemma_extends_refl(diags@); }
            let mut remappings: Vec<Separator<GeneratedMigrationPropertyMapping>> = Vec::new();
            let ghost fv = fields_view(from_fields);
            let ghost tv = fields_view(to_fields);
            let mut j: usize = 0;
            while j < item.remappings.len()
                invariant
                    j <= item.remappings@.len(),
                    extends(before, diags@),
                    fv == fields_view(from_fields),
                    tv == fields_view(to_fields),
                    forall|j2: int| 0 <= j2 < j ==> #[trigger] property_reported(fv, tv, item.remappings@[j2], before, diags@),
                decreases item.remappings.len() - j,
            {
                let ghost b = diags@;
                let mapped = check_property(from_fields, to_fields, &item.remappings[j], &from_version, &to_version, diags);
                if let Some(x) = mapped {
                    remappings.push(x);
                }
                proof {
                    lemma_extends_trans(before, b, diags@);
                    lemma_property_reported_extends(fv, tv, item.remappings@[j as int], before, b, diags@);
                    assert forall|j2: int| 0 <= j2 < j + 1 implies #[trigger] property_reported(fv, tv, item.remappings@[j2], before, diags@) by {
                        lemma_property_reported_extends(fv, tv, item.remappings@[j2], before, b, diags@);
                    }
                }
                j = j + 1;
            }
            body.push(GeneratedMigrationItemMapping {
                from_item: item_name(&item.from_item.1).clone(),
                to_item: item_name(&item.to_item.1).clone(),
                remappings,
                should_spread: true,
            });
        }
        proof {
            lemma_extends_trans(old(diags)@, before, diags@);
            assert(migration_item_reported(*fs, *ts, *item, before, diags@));
            lemma_item_reported_extends(*fs, *ts, *item, old(diags)@, before, diags@);
            assert forall|k2: int| 0 <= k2 < k implies #[trigger] migration_item_reported(*fs, *ts,
                m.body@[k2], old(diags)@, diags@) by {
                lemma_item_reported_extends(*fs, *ts, m.body@[k2], old(diags)@, before, diags@);
            }
        }
        k = k + 1;
    }
    Some(GeneratedMigration { from_version, to_version, body })
}

} // verus!
