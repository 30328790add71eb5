//! The syntax tree of a HelixQL source: schemas, migrations and queries.
use vstd::prelude::*;
use crate::helixc::location::Loc;
use crate::protocol::value::Value;
use crate::protocol::value_text::value_text;
use crate::utils::text::push_str;

verus! {

/// A file of HelixQL text with its name.
#[derive(Debug, Clone)]
pub struct HxFile {
    pub name: String,
    pub content: String,
}

/// The files handed to the parser, and their text joined.
pub struct Content {
    pub content: String,
    pub files: Vec<HxFile>,
}

/// A parsed source: every schema version, migration and query.
#[derive(Debug)]
pub struct Source {
    pub source: String,
    pub schema: Vec<Schema>,
    pub migrations: Vec<Migration>,
    pub queries: Vec<Query>,
}

/// The node, edge and vector types of one schema version.
#[derive(Debug)]
pub struct Schema {
    pub loc: Loc,
    pub version: (Loc, usize),
    pub node_schemas: Vec<NodeSchema>,
    pub edge_schemas: Vec<EdgeSchema>,
    pub vector_schemas: Vec<VectorSchema>,
}

/// `N::Name { fields }`.
#[derive(Debug)]
pub struct NodeSchema {
    pub name: (Loc, String),
    pub fields: Vec<Field>,
    pub loc: Loc,
}

/// `V::Name { fields }`.
#[derive(Debug)]
pub struct VectorSchema {
    pub name: String,
    pub fields: Vec<Field>,
    pub loc: Loc,
}

/// `E::Name { From: A, To: B, Properties: { fields } }`.
#[derive(Debug)]
pub struct EdgeSchema {
    pub name: (Loc, String),
    pub from: (Loc, String),
    pub to: (Loc, String),
    pub properties: Option<Vec<Field>>,
    pub loc: Loc,
}

/// `MIGRATION schema::A => schema::B { mappings }`.
#[derive(Debug)]
pub struct Migration {
    pub from_version: (Loc, usize),
    pub to_version: (Loc, usize),
    pub body: Vec<MigrationItemMapping>,
    pub loc: Loc,
}

/// The kind and name of an item that a migration maps.
#[derive(Debug, Clone, PartialEq, Eq)]
pub enum MigrationItem {
    Node(String),
    Edge(String),
    Vector(String),
}

/// `N::Old => N::New { remappings }`.
#[derive(Debug)]
pub struct MigrationItemMapping {
    pub from_item: (Loc, MigrationItem),
    pub to_item: (Loc, MigrationItem),
    pub remappings: Vec<MigrationPropertyMapping>,
    pub loc: Loc,
}

/// One property of a migrated item: its new name, where its value comes
/// from, a default and a cast.
#[derive(Debug)]
pub struct MigrationPropertyMapping {
    pub property_name: (Loc, String),
    pub property_value: FieldValue,
    pub default: Option<DefaultValue>,
    pub cast: Option<ValueCast>,
    pub loc: Loc,
}

/// `AS Type`: the type a migrated property is cast to.
#[derive(Debug)]
pub struct ValueCast {
    pub loc: Loc,
    pub cast_to: FieldType,
}

/// A field of a node, edge or vector type.
#[derive(Debug)]
pub struct Field {
    pub prefix: FieldPrefix,
    pub defaults: Option<DefaultValue>,
    pub name: String,
    pub field_type: FieldType,
    pub loc: Loc,
}

/// The default value of a field. A decimal literal is kept as it was
/// written.
#[derive(Debug, Clone)]
pub enum DefaultValue {
    Now,
    String(String),
    Decimal(String),
    I8(i8),
    I16(i16),
    I32(i32),
    I64(i64),
    U8(u8),
    U16(u16),
    U32(u32),
    U64(u64),
    U128(u128),
    Boolean(bool),
    Empty,
}

/// What stands before a field's name: `INDEX`, `OPTIONAL` or nothing.
#[derive(Debug, Clone, Copy, PartialEq, Eq, Structural)]
pub enum FieldPrefix {
    Index,
    Optional,
    Empty,
}

impl FieldPrefix {
    /// Whether the field is indexed.
    pub fn is_indexed(&self) -> (r: bool)
        ensures
            r == (*self == FieldPrefix::Index),
    {
        match self {
            FieldPrefix::Index => true,
            _ => false,
        }
    }
}

impl Field {
    /// Whether the field is indexed.
    pub fn is_indexed(&self) -> (r: bool)
        ensures
            r == (self.prefix == FieldPrefix::Index),
    {
        self.prefix.is_indexed()
    }
}

/// The type of a field or parameter.
#[derive(Debug)]
pub enum FieldType {
    String,
    F32,
    F64,
    I8,
    I16,
    I32,
    I64,
    U8,
    U16,
    U32,
    U64,
    U128,
    Boolean,
    Uuid,
    Date,
    Array(Box<FieldType>),
    Identifier(String),
    Object(Vec<(String, FieldType)>),
}

/// A query: `QUERY name(parameters) => statements RETURN values`.
#[derive(Debug)]
pub struct Query {
    pub original_query: String,
    pub built_in_macro: Option<BuiltInMacro>,
    pub name: String,
    pub parameters: Vec<Parameter>,
    pub statements: Vec<Statement>,
    pub return_values: Vec<Expression>,
    pub loc: Loc,
}

/// A query parameter and its type.
#[derive(Debug)]
pub struct Parameter {
    pub name: (Loc, String),
    pub param_type: (Loc, FieldType),
    pub is_optional: bool,
    pub loc: Loc,
}

/// A statement of a query body.
#[derive(Debug)]
pub struct Statement {
    pub loc: Loc,
    pub statement: StatementType,
}

/// The kinds of statement.
#[derive(Debug)]
pub enum StatementType {
    Assignment(Assignment),
    Expression(Expression),
    Drop(Expression),
    ForLoop(ForLoop),
}

/// `variable <- value`.
#[derive(Debug)]
pub struct Assignment {
    pub variable: String,
    pub value: Expression,
    pub loc: Loc,
}

/// `FOR variables IN collection { statements }`.
#[derive(Debug)]
pub struct ForLoop {
    pub variable: ForLoopVars,
    pub in_variable: (Loc, String),
    pub statements: Vec<Statement>,
    pub loc: Loc,
}

/// What a loop binds for each element.
#[derive(Debug, Clone)]
pub enum ForLoopVars {
    Identifier { name: String, loc: Loc },
    ObjectAccess { name: String, field: String, loc: Loc },
    ObjectDestructuring { fields: Vec<(Loc, String)>, loc: Loc },
}

/// An expression and where it stands.
#[derive(Debug)]
pub struct Expression {
    pub loc: Loc,
    pub expr: ExpressionType,
}

/// The kinds of expression. A decimal literal is kept as it was written.
#[derive(Debug)]
pub enum ExpressionType {
    Traversal(Box<Traversal>),
    Identifier(String),
    StringLiteral(String),
    IntegerLiteral(i32),
    FloatLiteral(String),
    BooleanLiteral(bool),
    Exists(Box<Expression>),
    BatchAddVector(BatchAddVector),
    AddVector(AddVector),
    AddNode(AddNode),
    AddEdge(AddEdge),
    And(Vec<Expression>),
    Or(Vec<Expression>),
    SearchVector(SearchVector),
    BM25Search(BM25Search),
    Empty,
}

/// A start point followed by steps.
#[derive(Debug)]
pub struct Traversal {
    pub start: StartNode,
    pub steps: Vec<Step>,
    pub loc: Loc,
}

/// `BatchAddV<Type>(values)`.
#[derive(Debug)]
pub struct BatchAddVector {
    pub vector_type: Option<String>,
    pub vec_identifier: Option<String>,
    pub fields: Option<Vec<(String, ValueType)>>,
    pub loc: Loc,
}

/// Where a traversal starts.
#[derive(Debug)]
pub enum StartNode {
    Node { node_type: String, ids: Option<Vec<IdType>> },
    Edge { edge_type: String, ids: Option<Vec<IdType>> },
    SearchVector(SearchVector),
    Identifier(String),
    Anonymous,
}

/// A step of a traversal and where it stands.
#[derive(Debug)]
pub struct Step {
    pub loc: Loc,
    pub step: StepType,
}

/// The direction of an ordering.
#[derive(Debug, Clone, Copy, PartialEq, Eq, Structural)]
pub enum OrderByType {
    Asc,
    Desc,
}

/// `ORDER<Asc|Desc>(expression)`.
#[derive(Debug)]
pub struct OrderBy {
    pub loc: Loc,
    pub order_by_type: OrderByType,
    pub expression: Box<Expression>,
}

/// The kinds of traversal step.
#[derive(Debug)]
pub enum StepType {
    Node(GraphStep),
    Edge(GraphStep),
    Where(Box<Expression>),
    BooleanOperation(BooleanOp),
    Count,
    Update(Update),
    Object(Object),
    Exclude(Exclude),
    Closure(Closure),
    Range((Expression, Expression)),
    OrderBy(OrderBy),
    AddEdge(AddEdge),
}

/// `key: value` in an object, an update or an added item.
#[derive(Debug)]
pub struct FieldAddition {
    pub key: String,
    pub value: FieldValue,
    pub loc: Loc,
}

/// The value of a field addition and where it stands.
#[derive(Debug)]
pub struct FieldValue {
    pub loc: Loc,
    pub value: FieldValueType,
}

/// The kinds of field value.
#[derive(Debug)]
pub enum FieldValueType {
    Traversal(Box<Traversal>),
    Expression(Expression),
    Fields(Vec<FieldAddition>),
    Literal(Value),
    Identifier(String),
    Empty,
}

/// A step from one kind of element to another.
#[derive(Debug)]
pub struct GraphStep {
    pub loc: Loc,
    pub step: GraphStepType,
}

/// The kinds of graph step.
#[derive(Debug)]
pub enum GraphStepType {
    Out(String),
    In(String),
    FromN,
    ToN,
    FromV,
    ToV,
    OutE(String),
    InE(String),
    ShortestPath(ShortestPath),
    SearchVector(SearchVector),
}

/// `ShortestPath<Type>::To(id)` or `::From(id)`.
#[derive(Debug)]
pub struct ShortestPath {
    pub loc: Loc,
    pub from: Option<IdType>,
    pub to: Option<IdType>,
    pub type_arg: Option<String>,
}

/// A comparison or a combination of conditions.
#[derive(Debug)]
pub struct BooleanOp {
    pub loc: Loc,
    pub op: BooleanOpType,
}

/// The kinds of comparison and combination.
#[derive(Debug)]
pub enum BooleanOpType {
    And(Vec<Expression>),
    Or(Vec<Expression>),
    GreaterThan(Box<Expression>),
    GreaterThanOrEqual(Box<Expression>),
    LessThan(Box<Expression>),
    LessThanOrEqual(Box<Expression>),
    Equal(Box<Expression>),
    NotEqual(Box<Expression>),
}

/// The data of a vector: literal numbers as written, a variable, or a
/// text to embed.
#[derive(Debug, Clone)]
pub enum VectorData {
    Vector(Vec<String>),
    Identifier(String),
    Embed(Embed),
}

/// `Embed(text)`.
#[derive(Debug, Clone)]
pub struct Embed {
    pub loc: Loc,
    pub value: EvaluatesToString,
}

/// A variable or a string literal.
#[derive(Debug, Clone)]
pub enum EvaluatesToString {
    Identifier(String),
    StringLiteral(String),
}

/// `SearchV<Type>(data, k)`.
#[derive(Debug)]
pub struct SearchVector {
    pub loc: Loc,
    pub vector_type: Option<String>,
    pub data: Option<VectorData>,
    pub k: Option<EvaluatesToNumber>,
    pub pre_filter: Option<Box<Expression>>,
}

/// `SearchBM25<Type>(text, k)`.
#[derive(Debug)]
pub struct BM25Search {
    pub loc: Loc,
    pub type_arg: Option<String>,
    pub data: Option<ValueType>,
    pub k: Option<EvaluatesToNumber>,
}

/// A number or a variable, and where it stands.
#[derive(Debug, Clone)]
pub struct EvaluatesToNumber {
    pub loc: Loc,
    pub value: EvaluatesToNumberType,
}

/// The kinds of number. A decimal literal is kept as it was written.
#[derive(Debug, Clone)]
pub enum EvaluatesToNumberType {
    I8(i8),
    I16(i16),
    I32(i32),
    I64(i64),
    U8(u8),
    U16(u16),
    U32(u32),
    U64(u64),
    U128(u128),
    Decimal(String),
    Identifier(String),
}

/// `AddV<Type>(data, { fields })`.
#[derive(Debug)]
pub struct AddVector {
    pub loc: Loc,
    pub vector_type: Option<String>,
    pub data: Option<VectorData>,
    pub fields: Option<Vec<(String, ValueType)>>,
}

/// `AddN<Type>({ fields })`.
#[derive(Debug)]
pub struct AddNode {
    pub loc: Loc,
    pub node_type: Option<String>,
    pub fields: Option<Vec<(String, ValueType)>>,
}

/// `AddE<Type>({ fields })::From(a)::To(b)`.
#[derive(Debug)]
pub struct AddEdge {
    pub loc: Loc,
    pub edge_type: Option<String>,
    pub fields: Option<Vec<(String, ValueType)>>,
    pub connection: EdgeConnection,
    pub from_identifier: bool,
}

/// The two ends of an added edge.
#[derive(Debug)]
pub struct EdgeConnection {
    pub loc: Loc,
    pub from_id: Option<IdType>,
    pub to_id: Option<IdType>,
}

/// How an element is named: a literal id, a variable, or an indexed
/// field's value.
#[derive(Debug)]
pub enum IdType {
    Literal { value: String, loc: Loc },
    Identifier { value: String, loc: Loc },
    ByIndex { index: Box<IdType>, value: Box<ValueType>, loc: Loc },
}

/// The value of a field of an added item. A decimal literal is kept as it
/// was written.
#[derive(Debug)]
pub enum ValueType {
    Literal { value: Value, loc: Loc },
    Identifier { value: String, loc: Loc },
    Object { fields: Vec<(String, ValueType)>, loc: Loc },
    Decimal { text: String, loc: Loc },
}

/// The names of the first `n` entries, joined by `, `.
pub open spec fn joined_keys(fields: Seq<(String, ValueType)>, n: int) -> Seq<char>
    decreases n,
{
    if n <= 0 || n > fields.len() {
        Seq::empty()
    } else if n == 1 {
        fields[0].0@
    } else {
        joined_keys(fields, n - 1) + ", "@ + fields[n - 1].0@
    }
}

/// How a field value is written: a literal as its value, a variable or a
/// decimal as written, and an object as its field names.
pub open spec fn value_type_text(v: ValueType) -> Seq<char> {
    match v {
        ValueType::Literal { value, .. } => value_text(value),
        ValueType::Identifier { value, .. } => value@,
        ValueType::Object { fields, .. } => joined_keys(fields@, fields@.len() as int),
        ValueType::Decimal { text, .. } => text@,
    }
}

impl ValueType {
    /// A literal field value.
    pub fn new(value: Value, loc: Loc) -> (r: ValueType)
        ensures
            r == (ValueType::Literal { value, loc }),
    {
        ValueType::Literal { value, loc }
    }

    /// How the value is written.
    pub fn to_string(&self) -> (r: String)
        ensures
            r@ == value_type_text(*self),
    {
        match self {
            ValueType::Literal { value, .. } => value.to_text(),
            ValueType::Identifier { value, .. } => value.clone(),
            ValueType::Decimal { text, .. } => text.clone(),
            ValueType::Object { fields, .. } => {
                let mut s = String::new();
                let mut i: usize = 0;
                while i < fields.len()
                    invariant
                        i <= fields@.len(),
                        s@ == joined_keys(fields@, i as int),
                    decreases fields.len() - i,
                {
                    if i > 0 {
                        push_str(&mut s, ", ");
                    }
                    push_str(&mut s, fields[i].0.as_str());
                    assert(s@ =~= joined_keys(fields@, i + 1));
                    i = i + 1;
                }
                s
            },
        }
    }
}

/// `UPDATE({ fields })`.
#[derive(Debug)]
pub struct Update {
    pub fields: Vec<FieldAddition>,
    pub loc: Loc,
}

/// `{ fields }`, a remapping of the current elements.
#[derive(Debug)]
pub struct Object {
    pub loc: Loc,
    pub fields: Vec<FieldAddition>,
    pub should_spread: bool,
}

/// `!{ fields }`, fields left out of the result.
#[derive(Debug, Clone)]
pub struct Exclude {
    pub fields: Vec<(Loc, String)>,
    pub loc: Loc,
}

/// `|name| { fields }`.
#[derive(Debug)]
pub struct Closure {
    pub identifier: String,
    pub object: Object,
    pub loc: Loc,
}

/// A macro in front of a query: `#[mcp]` or `#[model("name")]`.
#[derive(Debug, Clone)]
pub enum BuiltInMacro {
    MCP,
    Model(String),
}

} // verus!
