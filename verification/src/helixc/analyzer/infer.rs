//! The types of expressions and traversals, and the checks made on their
//! way: the steps of a traversal, property access, exclusion, updates and
//! comparisons.
use vstd::prelude::*;
use crate::helixc::analyzer::checks::{access_codes, check_access, check_identifier, check_variable, field_on, has_field_on, reserved_word};
use crate::helixc::analyzer::diagnostic::Diagnostic;
use crate::helixc::analyzer::error_codes::ErrorCode;
use crate::helixc::analyzer::graph_step::{ElemKind, StepOutcome, apply_graph_step, elem_of, elem_outcome};
use crate::helixc::analyzer::items::{
    ItemKind, check_add_edge, check_add_node, check_add_vector, check_batch_add_vector,
    check_bm25, check_id, check_search_vector, extends, lemma_extends_refl, lemma_extends_trans,
    lemma_reported_at, lemma_reported_extends, lemma_reported_extends_all, reported, item_field_reported,
    lemma_reported_with_extends, reported_with, id_codes,
};
use crate::helixc::analyzer::schema::{find_edge, is_node_type, node_declared, edge_declared};
use crate::helixc::analyzer::scope::{bind, codes, duplicate, in_query, in_scope, query_error, scope_flat, scope_lookup, wrapped, wrapped2};
use crate::helixc::analyzer::types::{Type, flat_type};
use crate::helixc::location::Loc;
use crate::helixc::parser::ast::{IdType, 
    BooleanOpType, Expression, ExpressionType, FieldAddition, FieldType, FieldValueType,
    GraphStepType, Query, Schema, StartNode, Step, StepType, Traversal,
};
use crate::utils::text::owned;

verus! {

/// The type of an expression up to the texts that name types: a named
/// element type by its kind and name, any other type as it is.
pub enum Shape {
    Elem(ElemKind, Seq<char>),
    Plain(Type),
}

/// The shape of a type.
pub open spec fn shape_of(t: Type) -> Shape {
    match elem_of(t) {
        Some((k, n)) => Shape::Elem(k, n),
        None => Shape::Plain(t),
    }
}

/// The kind and name of a shape's element type, if it is one.
pub open spec fn shape_elem(sh: Shape) -> Option<(ElemKind, Seq<char>)> {
    match sh {
        Shape::Elem(k, n) => Some((k, n)),
        Shape::Plain(t) => elem_of(t),
    }
}

/// The type that an optional reference points to.
pub open spec fn deref_opt(p: Option<&Type>) -> Option<Type> {
    match p {
        Some(t) => Some(*t),
        None => None,
    }
}

/// The type of the variable named `n`: unknown for a reserved word or a
/// name that is not in scope.
pub open spec fn name_type(scope: Seq<(String, Type)>, n: Seq<char>) -> Type {
    if reserved_word(n) {
        Type::Unknown
    } else {
        match scope_lookup(scope, n) {
            Some(t) => t,
            None => Type::Unknown,
        }
    }
}

/// Items of kind `k` of the type `name` names, or `unnamed` without one.
pub open spec fn named_or(k: ElemKind, name: Option<String>, unnamed: Type) -> Shape {
    match name {
        Some(t) => Shape::Elem(k, t@),
        None => Shape::Plain(unnamed),
    }
}

/// The type of an expression that adds or searches items: one added node,
/// edge or vector, or the vectors or nodes added or found, of the type
/// that it names.
pub open spec fn item_shape(e: ExpressionType) -> Option<Shape> {
    match e {
        ExpressionType::AddNode(add) => Some(named_or(ElemKind::Node, add.node_type, Type::Node(None))),
        ExpressionType::AddEdge(add) => Some(named_or(ElemKind::Edge, add.edge_type, Type::Edge(None))),
        ExpressionType::AddVector(add) => Some(named_or(ElemKind::Vector, add.vector_type, Type::Vector(None))),
        ExpressionType::BatchAddVector(b) => Some(named_or(ElemKind::Vectors, b.vector_type, Type::Vectors(None))),
        ExpressionType::SearchVector(sv) => Some(named_or(ElemKind::Vectors, sv.vector_type, Type::Vectors(None))),
        ExpressionType::BM25Search(b) => Some(named_or(ElemKind::Nodes, b.type_arg, Type::Nodes(None))),
        _ => None,
    }
}

/// The type where a traversal starts: nodes or edges of the named type
/// (one of them where IDs are given), vectors of a search, a variable's
/// type, or the type that `_` stands for.
pub open spec fn start_shape(scope: Seq<(String, Type)>, start: StartNode, parent: Option<Type>) -> Shape {
    match start {
        StartNode::Node { node_type, ids } => Shape::Elem(
            if ids is None { ElemKind::Nodes } else { ElemKind::Node },
            node_type@,
        ),
        StartNode::Edge { edge_type, ids } => Shape::Elem(
            if ids is None { ElemKind::Edges } else { ElemKind::Edge },
            edge_type@,
        ),
        StartNode::SearchVector(sv) => named_or(ElemKind::Vectors, sv.vector_type, Type::Vectors(None)),
        StartNode::Identifier(n) => shape_of(name_type(scope, n@)),
        StartNode::Anonymous => match parent {
            Some(p) => shape_of(p),
            None => Shape::Plain(Type::Unknown),
        },
    }
}

/// The type after a graph step: what the step gives, or the type before
/// it where the step fails.
pub open spec fn graph_step_shape(s: Schema, step: GraphStepType, sh: Shape) -> Shape {
    match elem_outcome(s, step, shape_elem(sh)) {
        StepOutcome::Gives(k, n) => Shape::Elem(k, n),
        StepOutcome::GivesWithError(k, n, _) => Shape::Elem(k, n),
        StepOutcome::GivesUnknown => Shape::Plain(Type::Unknown),
        _ => sh,
    }
}

/// The type after a step: graph steps as `graph_step_shape` says, a count
/// is an `I64`, adding edges gives those edges, and every other step keeps
/// the type.
pub open spec fn step_shape(s: Schema, step: StepType, sh: Shape) -> Shape {
    match step {
        StepType::Node(gs) => graph_step_shape(s, gs.step, sh),
        StepType::Edge(gs) => graph_step_shape(s, gs.step, sh),
        StepType::Count => Shape::Plain(Type::Scalar(FieldType::I64)),
        StepType::AddEdge(add) => match add.edge_type {
            Some(t) => Shape::Elem(ElemKind::Edges, t@),
            None => Shape::Plain(Type::Edges(None)),
        },
        _ => sh,
    }
}

/// The type after the steps `steps`, in order, from `sh`.
pub open spec fn steps_shape(s: Schema, steps: Seq<Step>, sh: Shape) -> Shape
    decreases steps.len(),
{
    if steps.len() == 0 {
        sh
    } else {
        step_shape(s, steps.last().step, steps_shape(s, steps.drop_last(), sh))
    }
}

/// Typing a traversal step by step: the type after the steps `a` then `b`
/// is the type after `b` from the type after `a`.
pub proof fn law_steps_compose(s: Schema, a: Seq<Step>, b: Seq<Step>, sh: Shape)
    ensures
        steps_shape(s, a + b, sh) == steps_shape(s, b, steps_shape(s, a, sh)),
    decreases b.len(),
{
    if b.len() == 0 {
        assert(a + b =~= a);
    } else {
        law_steps_compose(s, a, b.drop_last(), sh);
        assert((a + b).drop_last() =~= a + b.drop_last());
        assert((a + b).last() == b.last());
    }
}

/// The type of a traversal: its steps applied to where it starts.
pub open spec fn traversal_shape(s: Schema, scope: Seq<(String, Type)>, tr: Traversal, parent: Option<Type>) -> Shape {
    steps_shape(s, tr.steps@, start_shape(scope, tr.start, parent))
}

/// The type of an expression: a traversal's as `traversal_shape` says, a
/// variable's as `name_type` says, a literal's scalar type, a boolean for
/// `EXISTS`, `AND` and `OR`, the items added or searched, and unknown for
/// nothing.
pub open spec fn expr_shape(s: Schema, scope: Seq<(String, Type)>, e: Expression, parent: Option<Type>) -> Shape {
    match e.expr {
        ExpressionType::Traversal(tr) => traversal_shape(s, scope, *tr, parent),
        ExpressionType::Identifier(n) => shape_of(name_type(scope, n@)),
        ExpressionType::StringLiteral(_) => Shape::Plain(Type::Scalar(FieldType::String)),
        ExpressionType::IntegerLiteral(_) => Shape::Plain(Type::Scalar(FieldType::I32)),
        ExpressionType::FloatLiteral(_) => Shape::Plain(Type::Scalar(FieldType::F64)),
        ExpressionType::BooleanLiteral(_) => Shape::Plain(Type::Scalar(FieldType::Boolean)),
        ExpressionType::Exists(_) => Shape::Plain(Type::Boolean),
        ExpressionType::And(_) => Shape::Plain(Type::Boolean),
        ExpressionType::Or(_) => Shape::Plain(Type::Boolean),
        ExpressionType::Empty => Shape::Plain(Type::Unknown),
        _ => match item_shape(e.expr) {
            Some(sh) => sh,
            None => Shape::Plain(Type::Unknown),
        },
    }
}

/// Whether a field of an object refers to what the element type `cur`
/// lacks: a field named alone that is not a field of the type, or a field
/// renamed from a name that is neither a field of the type nor a variable
/// in scope.
pub open spec fn bad_field_ref(s: Schema, scope: Seq<(String, Type)>, cur: Type, v: FieldValueType) -> bool {
    match v {
        FieldValueType::Identifier(name) => !reserved_word(name@) && !field_on(s, cur, name@),
        FieldValueType::Expression(ex) => match ex.expr {
            ExpressionType::Identifier(name) => !field_on(s, cur, name@) && !in_scope(scope, name@),
            _ => false,
        },
        _ => false,
    }
}

/// Whether `names` holds the text `n`.
pub open spec fn names_hold(names: Seq<String>, n: Seq<char>) -> bool {
    exists|i: int| 0 <= i < names.len() && #[trigger] names[i]@ == n
}

/// The code that a graph step reports from the type `sh`, if it reports
/// one.
pub open spec fn step_failure(s: Schema, step: StepType, sh: Shape) -> Option<ErrorCode> {
    match step {
        StepType::Node(gs) => outcome_code(elem_outcome(s, gs.step, shape_elem(sh))),
        StepType::Edge(gs) => outcome_code(elem_outcome(s, gs.step, shape_elem(sh))),
        _ => None,
    }
}

/// The code that an outcome reports, if any.
pub open spec fn outcome_code(o: StepOutcome) -> Option<ErrorCode> {
    match o {
        StepOutcome::Fails(c) => Some(c),
        StepOutcome::GivesWithError(_, _, c) => Some(c),
        _ => None,
    }
}

/// Whether a traversal was checked as it should be, from the diagnostics
/// `before` to `after`, giving `r`: its type is `traversal_shape`, and each
/// misplaced exclusion (E644), misplaced closure (E641) and failing graph
/// step (with the step's code) was reported.
pub open spec fn traversal_checked(
    s: Schema,
    q: Query,
    scope: Seq<(String, Type)>,
    tr: Traversal,
    parent: Option<Type>,
    r: Type,
    before: Seq<Diagnostic>,
    after: Seq<Diagnostic>,
) -> bool {
    &&& shape_of(r) == traversal_shape(s, scope, tr, parent)
    &&& start_reported(s, q, tr, before, after)
    &&& forall|k: int| 0 <= k < tr.steps@.len() && #[trigger] misplaced_exclude(tr.steps@, k)
        ==> reported_with(before, after, ErrorCode::E644, in_query(misplaced_exclude_message(), q))
    &&& forall|k: int, j: int| 0 <= k < tr.steps@.len() && #[trigger] reexcludes(tr.steps@, k, j)
        && shape_elem(steps_shape(s, tr.steps@.take(k), start_shape(scope, tr.start, parent))) is Some
        ==> reported_with(before, after, ErrorCode::E643,
            in_query(excluded_message(tr.steps@[k].step->Exclude_0.fields@[j].1@), q))
    &&& forall|k: int| 0 <= k < tr.steps@.len() && #[trigger] misplaced_closure(tr.steps@, k)
        ==> reported(before, after, ErrorCode::E641)
    &&& forall|k: int| 0 <= k < tr.steps@.len() ==> (#[trigger] step_failure(s, tr.steps@[k].step,
        steps_shape(s, tr.steps@.take(k), start_shape(scope, tr.start, parent))) matches Some(c)
        ==> reported(before, after, c))
}

/// A report between `b` and `c` is one between `a` and `d` where `a`, `b`,
/// `c` and `d` each extend the one before.
pub proof fn lemma_reported_widen(a: Seq<Diagnostic>, b: Seq<Diagnostic>, c: Seq<Diagnostic>, d: Seq<Diagnostic>, code: ErrorCode, msg: Seq<char>)
    requires
        extends(a, b),
        extends(b, c),
        extends(c, d),
    ensures
        reported(b, c, code) ==> reported(a, d, code),
        reported_with(b, c, code, msg) ==> reported_with(a, d, code, msg),
{
    if reported(b, c, code) {
        let j = choose|j: int| b.len() <= j < c.len() && #[trigger] c[j].error_code == code;
        assert(d[j] == d.subrange(0, c.len() as int)[j]);
    }
    if reported_with(b, c, code, msg) {
        let j = choose|j: int| b.len() <= j < c.len() && #[trigger] c[j].error_code == code && c[j].message@ == msg;
        assert(d[j] == d.subrange(0, c.len() as int)[j]);
    }
}

/// A traversal checked between `b` and `c` is checked between `a` and `d`
/// where each extends the one before.
pub proof fn lemma_traversal_checked_widen(
    s: Schema,
    q: Query,
    scope: Seq<(String, Type)>,
    tr: Traversal,
    parent: Option<Type>,
    r: Type,
    a: Seq<Diagnostic>,
    b: Seq<Diagnostic>,
    c: Seq<Diagnostic>,
    d: Seq<Diagnostic>,
)
    requires
        extends(a, b),
        extends(b, c),
        extends(c, d),
        traversal_checked(s, q, scope, tr, parent, r, b, c),
    ensures
        traversal_checked(s, q, scope, tr, parent, r, a, d),
{
    if tr.start is Node {
        lemma_reported_widen(a, b, c, d, ErrorCode::E101, in_query(unknown_node_message(tr.start->node_type@), q));
    }
    if tr.start is Edge {
        lemma_reported_widen(a, b, c, d, ErrorCode::E102, in_query(unknown_edge_message(tr.start->edge_type@), q));
    }
    lemma_reported_widen(a, b, c, d, ErrorCode::E644, in_query(misplaced_exclude_message(), q));
    lemma_reported_widen(a, b, c, d, ErrorCode::E641, Seq::empty());
    assert forall|k: int, j: int| 0 <= k < tr.steps@.len() && #[trigger] reexcludes(tr.steps@, k, j)
        && shape_elem(steps_shape(s, tr.steps@.take(k), start_shape(scope, tr.start, parent))) is Some
        implies reported_with(a, d, ErrorCode::E643, in_query(excluded_message(tr.steps@[k].step->Exclude_0.fields@[j].1@), q)) by {
        lemma_reported_widen(a, b, c, d, ErrorCode::E643, in_query(excluded_message(tr.steps@[k].step->Exclude_0.fields@[j].1@), q));
    }
    assert forall|k: int| 0 <= k < tr.steps@.len() implies (#[trigger] step_failure(s, tr.steps@[k].step,
        steps_shape(s, tr.steps@.take(k), start_shape(scope, tr.start, parent))) matches Some(cd) ==> reported(a, d, cd)) by {
        if let Some(cd) = step_failure(s, tr.steps@[k].step, steps_shape(s, tr.steps@.take(k), start_shape(scope, tr.start, parent))) {
            lemma_reported_widen(a, b, c, d, cd, Seq::empty());
        }
    }
}

/// Whether a traversal was checked as `traversal_checked` says, giving some
/// type.
pub open spec fn traversal_checked_some(
    s: Schema,
    q: Query,
    scope: Seq<(String, Type)>,
    tr: Traversal,
    parent: Option<Type>,
    before: Seq<Diagnostic>,
    after: Seq<Diagnostic>,
) -> bool {
    exists|r: Type| #[trigger] traversal_checked(s, q, scope, tr, parent, r, before, after)
}

/// Whether the nested parts of the fields of an object on elements of type
/// `cur` were checked from `before` to `after`: each traversal as
/// `traversal_checked` says (unless a comparison in it had an operand that
/// is not a scalar, reported with E621), and in each nested object each
/// field that refers to what the type lacks (E202).
pub open spec fn nested_checked(
    s: Schema,
    q: Query,
    scope: Seq<(String, Type)>,
    cur: Type,
    fields: Seq<FieldAddition>,
    before: Seq<Diagnostic>,
    after: Seq<Diagnostic>,
) -> bool {
    forall|i: int| 0 <= i < fields.len() ==> #[trigger] field_nested_checked(s, q, scope, cur, fields[i].value.value, before, after)
}

/// Whether the nested part of one field value was checked (see
/// `nested_checked`).
pub open spec fn field_nested_checked(
    s: Schema,
    q: Query,
    scope: Seq<(String, Type)>,
    cur: Type,
    v: FieldValueType,
    before: Seq<Diagnostic>,
    after: Seq<Diagnostic>,
) -> bool {
    match v {
        FieldValueType::Traversal(tr) => (rejects_comparison(scope, tr.steps@) && reported(before, after, ErrorCode::E621))
            || traversal_checked_some(s, q, scope, *tr, Some(cur), before, after),
        FieldValueType::Fields(inner) => forall|j: int| 0 <= j < inner@.len()
            && #[trigger] bad_field_ref(s, scope, cur, inner@[j].value.value) ==> reported(before, after, ErrorCode::E202),
        _ => true,
    }
}

/// A field value checked between `b` and `c` is checked between `a` and
/// `d` where each extends the one before.
pub proof fn lemma_field_nested_widen(
    s: Schema,
    q: Query,
    scope: Seq<(String, Type)>,
    cur: Type,
    v: FieldValueType,
    a: Seq<Diagnostic>,
    b: Seq<Diagnostic>,
    c: Seq<Diagnostic>,
    d: Seq<Diagnostic>,
)
    requires
        extends(a, b),
        extends(b, c),
        extends(c, d),
        field_nested_checked(s, q, scope, cur, v, b, c),
    ensures
        field_nested_checked(s, q, scope, cur, v, a, d),
{
    lemma_reported_widen(a, b, c, d, ErrorCode::E621, Seq::empty());
    lemma_reported_widen(a, b, c, d, ErrorCode::E202, Seq::empty());
    if let FieldValueType::Traversal(tr) = v {
        if traversal_checked_some(s, q, scope, *tr, Some(cur), b, c) {
            let r = choose|r: Type| #[trigger] traversal_checked(s, q, scope, *tr, Some(cur), r, b, c);
            lemma_traversal_checked_widen(s, q, scope, *tr, Some(cur), r, a, b, c, d);
            assert(traversal_checked(s, q, scope, *tr, Some(cur), r, a, d));
        }
    }
}

/// The message, before the query's name, for a start at an undeclared
/// node type.
pub open spec fn unknown_node_message(n: Seq<char>) -> Seq<char> {
    "unknown node type `"@ + n + "`"@
}

/// The message, before the query's name, for a start at an undeclared
/// edge type.
pub open spec fn unknown_edge_message(n: Seq<char>) -> Seq<char> {
    "unknown edge type `"@ + n + "`"@
}

/// Whether the diagnostics `after` of a traversal's start, from `before`
/// on, report an undeclared node (E101) or edge (E102) start type first,
/// with its message, exactly when the type is undeclared: a declared one
/// adds no E101 or E102.
pub open spec fn start_exact(s: Schema, q: Query, tr: Traversal, before: Seq<Diagnostic>, after: Seq<Diagnostic>) -> bool {
    match tr.start {
        StartNode::Node { node_type, .. } => if node_declared(s, node_type@) {
            forall|j: int| before.len() <= j < after.len() ==> #[trigger] after[j].error_code != ErrorCode::E101
        } else {
            after.len() > before.len() && after[before.len() as int].error_code == ErrorCode::E101
                && after[before.len() as int].message@ == in_query(unknown_node_message(node_type@), q)
        },
        StartNode::Edge { edge_type, .. } => if edge_declared(s, edge_type@) {
            forall|j: int| before.len() <= j < after.len() ==> #[trigger] after[j].error_code != ErrorCode::E102
        } else {
            after.len() > before.len() && after[before.len() as int].error_code == ErrorCode::E102
                && after[before.len() as int].message@ == in_query(unknown_edge_message(edge_type@), q)
        },
        _ => true,
    }
}

/// The codes of an id's checks are never those of an undeclared start type.
pub proof fn lemma_id_codes_plain(s: Schema, scope: Seq<(String, Type)>, id: IdType, kind: ItemKind, ty: Seq<char>)
    ensures
        forall|i: int| 0 <= i < id_codes(s, scope, id, kind, ty).len() ==> #[trigger] id_codes(s, scope, id, kind, ty)[i] != ErrorCode::E101
            && id_codes(s, scope, id, kind, ty)[i] != ErrorCode::E102,
{
}

/// Whether the diagnostics `seg` of step `k` report a misplaced exclusion
/// (E644, with its message) first exactly when step `k` is one: an
/// exclusion that is last or comes before an object or a closure adds no
/// E644.
pub open spec fn exclude_exact(q: Query, steps: Seq<Step>, k: int, seg: Seq<Diagnostic>) -> bool {
    steps[k].step is Exclude ==> if misplaced_exclude(steps, k) {
        seg.len() > 0 && seg[0].error_code == ErrorCode::E644
            && seg[0].message@ == in_query(misplaced_exclude_message(), q)
    } else {
        forall|j: int| 0 <= j < seg.len() ==> #[trigger] seg[j].error_code != ErrorCode::E644
    }
}

/// Whether the diagnostics of step `k` are `after[b[k]..b[k + 1]]`, and
/// report an exclusion as `exclude_exact` says.
pub open spec fn step_bounds(q: Query, steps: Seq<Step>, after: Seq<Diagnostic>, b: Seq<int>, k: int) -> bool {
    &&& 0 <= b[k] <= b[k + 1] <= after.len()
    &&& exclude_exact(q, steps, k, after.subrange(b[k], b[k + 1]))
}

/// Whether `b` splits `after` into the diagnostics of the first `n` steps,
/// each as `step_bounds` says.
pub open spec fn steps_exact(q: Query, steps: Seq<Step>, after: Seq<Diagnostic>, b: Seq<int>, n: int) -> bool {
    &&& b.len() == n + 1
    &&& forall|k: int| 0 <= k < n ==> #[trigger] step_bounds(q, steps, after, b, k)
}

/// The split of a step's diagnostics stays as more diagnostics follow.
pub proof fn lemma_step_bounds_extend(q: Query, steps: Seq<Step>, a: Seq<Diagnostic>, c: Seq<Diagnostic>, b: Seq<int>, b2: Seq<int>, k: int)
    requires
        extends(a, c),
        step_bounds(q, steps, a, b, k),
        b2[k] == b[k],
        b2[k + 1] == b[k + 1],
    ensures
        step_bounds(q, steps, c, b2, k),
{
    assert(c.subrange(b[k], b[k + 1]) =~= a.subrange(b[k], b[k + 1]));
}

/// Whether the start of a traversal that names an undeclared node or edge
/// type was reported (E101, E102) with its message.
pub open spec fn start_reported(s: Schema, q: Query, tr: Traversal, before: Seq<Diagnostic>, after: Seq<Diagnostic>) -> bool {
    match tr.start {
        StartNode::Node { node_type, .. } => !node_declared(s, node_type@)
            ==> reported_with(before, after, ErrorCode::E101, in_query(unknown_node_message(node_type@), q)),
        StartNode::Edge { edge_type, .. } => !edge_declared(s, edge_type@)
            ==> reported_with(before, after, ErrorCode::E102, in_query(unknown_edge_message(edge_type@), q)),
        _ => true,
    }
}

/// The message, before the query's name, for a misplaced exclusion.
pub open spec fn misplaced_exclude_message() -> Seq<char> {
    "exclude is only valid as the last step in a traversal, or as the step before an object remapping or closure"@
}

/// The message, before the query's name, for a field excluded before.
pub open spec fn excluded_message(f: Seq<char>) -> Seq<char> {
    "field `"@ + f + "` was previously excluded in this traversal"@
}

/// Whether field `f` stands excluded before step `k`: an exclusion names it
/// with no graph step or count after that exclusion.
pub open spec fn excluded_at(steps: Seq<Step>, k: int, f: Seq<char>) -> bool
    decreases k,
{
    if k <= 0 || k > steps.len() {
        false
    } else {
        let st = steps[k - 1].step;
        if st is Node || st is Edge || st is Count {
            false
        } else if st matches StepType::Exclude(ex) && exists|j: int| 0 <= j < ex.fields@.len() && #[trigger] ex.fields@[j].1@ == f {
            true
        } else {
            excluded_at(steps, k - 1, f)
        }
    }
}

/// Whether step `k` is an exclusion whose field `j` was excluded before.
pub open spec fn reexcludes(steps: Seq<Step>, k: int, j: int) -> bool {
    steps[k].step matches StepType::Exclude(ex) && 0 <= j < ex.fields@.len() && excluded_at(steps, k, ex.fields@[j].1@)
}

/// Whether step `k` excludes fields without being the last step or coming
/// just before an object or a closure.
pub open spec fn misplaced_exclude(steps: Seq<Step>, k: int) -> bool {
    &&& steps[k].step is Exclude
    &&& k + 1 < steps.len()
    &&& !(steps[k + 1].step is Object || steps[k + 1].step is Closure)
}

/// The expression that a comparison (`GT`, `GTE`, `LT`, `LTE`, `EQ`,
/// `NEQ`) compares with; none for `AND` and `OR`.
pub open spec fn compared(op: BooleanOpType) -> Option<Expression> {
    match op {
        BooleanOpType::GreaterThan(e) => Some(*e),
        BooleanOpType::GreaterThanOrEqual(e) => Some(*e),
        BooleanOpType::LessThan(e) => Some(*e),
        BooleanOpType::LessThanOrEqual(e) => Some(*e),
        BooleanOpType::Equal(e) => Some(*e),
        BooleanOpType::NotEqual(e) => Some(*e),
        _ => None,
    }
}

/// Whether an expression is known to give a scalar in scope `scope`: a
/// literal, or a variable that holds a scalar.
pub open spec fn scalar_operand(scope: Seq<(String, Type)>, e: Expression) -> bool {
    match e.expr {
        ExpressionType::StringLiteral(_) => true,
        ExpressionType::IntegerLiteral(_) => true,
        ExpressionType::FloatLiteral(_) => true,
        ExpressionType::BooleanLiteral(_) => true,
        ExpressionType::Identifier(n) => name_type(scope, n@) is Scalar,
        _ => false,
    }
}

/// Whether step `k` compares the value before it with an expression that
/// is not known to give a scalar, which may end the check (E621).
pub open spec fn may_reject(scope: Seq<(String, Type)>, steps: Seq<Step>, k: int) -> bool {
    steps[k].step matches StepType::BooleanOperation(op) && compared(op.op) matches Some(e)
        && !scalar_operand(scope, e)
}

/// Whether a traversal compares, at some step, the value before it with an
/// expression not known to give a scalar: a comparison with an operand
/// that is not a scalar ends the check there, reporting E621.
pub open spec fn rejects_comparison(scope: Seq<(String, Type)>, steps: Seq<Step>) -> bool {
    exists|k: int| 0 <= k < steps.len() && #[trigger] may_reject(scope, steps, k)
}

/// Whether step `k` is a closure that is not the last step.
pub open spec fn misplaced_closure(steps: Seq<Step>, k: int) -> bool {
    steps[k].step is Closure && k + 1 < steps.len()
}

/// A copy of a scope.
fn copy_scope(scope: &Vec<(String, Type)>) -> (r: Vec<(String, Type)>)
    requires
        scope_flat(scope@),
    ensures
        scope_flat(r@),
        r@.len() == scope@.len(),
        forall|i: int| 0 <= i < scope@.len() ==> #[trigger] r@[i].0@ == scope@[i].0@,
{
    let mut out: Vec<(String, Type)> = Vec::new();
    let mut i: usize = 0;
    while i < scope.len()
        invariant
            i <= scope@.len(),
            scope_flat(scope@),
            scope_flat(out@),
            out@.len() == i,
            forall|j: int| 0 <= j < i ==> #[trigger] out@[j].0@ == scope@[j].0@,
        decreases scope.len() - i,
    {
        out.push((scope[i].0.clone(), duplicate(&scope[i].1)));
        i = i + 1;
    }
    out
}

/// Whether `names` holds `n`.
fn holds_name(names: &Vec<String>, n: &String) -> (r: bool)
    ensures
        r == exists|i: int| 0 <= i < names@.len() && #[trigger] names@[i]@ == n@,
{
    let mut i: usize = 0;
    while i < names.len()
        invariant
            i <= names@.len(),
            forall|j: int| 0 <= j < i ==> #[trigger] names@[j]@ != n@,
        decreases names.len() - i,
    {
        if names[i] == *n {
            return true;
        }
        i = i + 1;
    }
    false
}

/// The type of an optional parent, or unknown.
fn parent_or_unknown(parent: Option<&Type>) -> (r: Type)
    requires
        parent matches Some(p) ==> flat_type(*p),
    ensures
        flat_type(r),
        parent matches Some(p) ==> r == *p,
        parent is None ==> r == Type::Unknown,
{
    match parent {
        Some(p) => duplicate(p),
        None => Type::Unknown,
    }
}

/// Whether an expression was checked as it should be, from the diagnostics
/// `before` to `after`: a traversal as `traversal_checked` says (unless a
/// comparison in it had an operand that is not a scalar, reported with
/// E621), and each field of an added node, edge or vector (see
/// `item_field_reported`).
pub open spec fn expr_checked(
    s: Schema,
    q: Query,
    scope: Seq<(String, Type)>,
    e: Expression,
    parent: Option<Type>,
    r: Type,
    before: Seq<Diagnostic>,
    after: Seq<Diagnostic>,
) -> bool {
    &&& e.expr matches ExpressionType::Traversal(tr) ==> ((rejects_comparison(scope, tr.steps@)
        && reported(before, after, ErrorCode::E621))
        || traversal_checked(s, q, scope, *tr, parent, r, before, after))
    &&& e.expr matches ExpressionType::AddNode(add) ==> (add.node_type matches Some(t) ==> (add.fields matches Some(fs)
        ==> forall|i: int| 0 <= i < fs@.len()
        ==> #[trigger] item_field_reported(s, q, ItemKind::Node, t@, fs@[i], before, after)))
    &&& e.expr matches ExpressionType::AddEdge(add) ==> (add.edge_type matches Some(t) ==> (add.fields matches Some(fs)
        ==> forall|i: int| 0 <= i < fs@.len()
        ==> #[trigger] item_field_reported(s, q, ItemKind::Edge, t@, fs@[i], before, after)))
    &&& e.expr matches ExpressionType::AddVector(add) ==> (add.vector_type matches Some(t) ==> (add.fields matches Some(fs)
        ==> forall|i: int| 0 <= i < fs@.len()
        ==> #[trigger] item_field_reported(s, q, ItemKind::Vector, t@, fs@[i], before, after)))
}

/// The type of an expression, checking it on the way. `parent` is the type
/// that an anonymous traversal (`_::...`) in it starts from.
pub fn infer_expr_type(
    s: &Schema,
    q: &Query,
    scope: &Vec<(String, Type)>,
    e: &Expression,
    parent: Option<&Type>,
    diags: &mut Vec<Diagnostic>,
) -> (r: Type)
    requires
        scope_flat(scope@),
        parent matches Some(p) ==> flat_type(*p),
    ensures
        extends(old(diags)@, final(diags)@),
        flat_type(r),
        e.expr is StringLiteral ==> r == Type::Scalar(FieldType::String),
        e.expr is IntegerLiteral ==> r == Type::Scalar(FieldType::I32),
        e.expr is FloatLiteral ==> r == Type::Scalar(FieldType::F64),
        e.expr is BooleanLiteral ==> r == Type::Scalar(FieldType::Boolean),
        e.expr matches ExpressionType::Identifier(n) ==> r == name_type(scope@, n@),
        (e.expr is Exists || e.expr is And || e.expr is Or) ==> r == Type::Boolean,
        e.expr is Empty ==> r == Type::Unknown,
        item_shape(e.expr) matches Some(sh) ==> shape_of(r) == sh,
        (e.expr matches ExpressionType::Traversal(tr) && rejects_comparison(scope@, tr.steps@)
            && reported(old(diags)@, final(diags)@, ErrorCode::E621))
            || shape_of(r) == expr_shape(*s, scope@, *e, deref_opt(parent)),
        e.expr matches ExpressionType::Traversal(tr) ==> ((rejects_comparison(scope@, tr.steps@)
            && reported(old(diags)@, final(diags)@, ErrorCode::E621))
            || traversal_checked(*s, *q, scope@, *tr, deref_opt(parent), r, old(diags)@, final(diags)@)),
        e.expr matches ExpressionType::AddNode(add) ==> (add.node_type matches Some(t) ==> (add.fields matches Some(fs)
            ==> forall|i: int| 0 <= i < fs@.len()
            ==> #[trigger] item_field_reported(*s, *q, ItemKind::Node, t@, fs@[i], old(diags)@, final(diags)@))),
        e.expr matches ExpressionType::AddEdge(add) ==> (add.edge_type matches Some(t) ==> (add.fields matches Some(fs)
            ==> forall|i: int| 0 <= i < fs@.len()
            ==> #[trigger] item_field_reported(*s, *q, ItemKind::Edge, t@, fs@[i], old(diags)@, final(diags)@))),
        e.expr matches ExpressionType::AddVector(add) ==> (add.vector_type matches Some(t) ==> (add.fields matches Some(fs)
            ==> forall|i: int| 0 <= i < fs@.len()
            ==> #[trigger] item_field_reported(*s, *q, ItemKind::Vector, t@, fs@[i], old(diags)@, final(diags)@))),
        expr_checked(*s, *q, scope@, *e, deref_opt(parent), r, old(diags)@, final(diags)@),
    decreases e,
{
    match &e.expr {
        ExpressionType::Identifier(n) => {
            let ghost before = diags@;
            if check_identifier(q, &e.loc, n.as_str(), diags) {
                let ghost mid = diags@;
                let t = check_variable(q, &e.loc, scope, n.as_str(), diags);
                proof { lemma_extends_trans(before, mid, diags@); }
                match t {
                    Some(t) => t,
                    None => Type::Unknown,
                }
            } else {
                Type::Unknown
            }
        },
        ExpressionType::StringLiteral(_) => {
            proof { lemma_extends_refl(diags@); }
            Type::Scalar(FieldType::String)
        },
        ExpressionType::IntegerLiteral(_) => {
            proof { lemma_extends_refl(diags@); }
            Type::Scalar(FieldType::I32)
        },
        ExpressionType::FloatLiteral(_) => {
            proof { lemma_extends_refl(diags@); }
            Type::Scalar(FieldType::F64)
        },
        ExpressionType::BooleanLiteral(_) => {
            proof { lemma_extends_refl(diags@); }
            Type::Scalar(FieldType::Boolean)
        },
        ExpressionType::Traversal(tr) => check_traversal(s, q, scope, tr, parent, diags),
        ExpressionType::Exists(inner) => {
            let _ = infer_expr_type(s, q, scope, inner, parent, diags);
            Type::Boolean
        },
        ExpressionType::And(items) | ExpressionType::Or(items) => {
            proof { lemma_extends_refl(diags@); }
            let mut i: usize = 0;
            while i < items.len()
                invariant
                    i <= items@.len(),
                    scope_flat(scope@),
                    parent matches Some(p) ==> flat_type(*p),
                    extends(old(diags)@, diags@),
                    e.expr is And ==> e.expr->And_0 == *items,
                    e.expr is Or ==> e.expr->Or_0 == *items,
                    e.expr is And || e.expr is Or,
                decreases items.len() - i,
            {
                proof {
                    if e.expr is And {
                        assert(decreases_to!(*e => e.expr->And_0@[i as int]));
                    } else {
                        assert(decreases_to!(*e => e.expr->Or_0@[i as int]));
                    }
                }
                let ghost before = diags@;
                let _ = infer_expr_type(s, q, scope, &items[i], parent, diags);
                proof { lemma_extends_trans(old(diags)@, before, diags@); }
                i = i + 1;
            }
            Type::Boolean
        },
        ExpressionType::AddNode(add) => check_add_node(s, q, scope, add, diags),
        ExpressionType::AddEdge(add) => check_add_edge(s, q, scope, add, diags),
        ExpressionType::AddVector(add) => check_add_vector(s, q, scope, add, diags),
        ExpressionType::BatchAddVector(b) => check_batch_add_vector(s, q, scope, b, diags),
        ExpressionType::SearchVector(sv) => check_search_vector(s, q, scope, sv, diags),
        ExpressionType::BM25Search(b) => check_bm25(s, q, scope, b, diags),
        ExpressionType::Empty => {
            proof { lemma_extends_refl(diags@); }
            Type::Unknown
        },
    }
}

/// Checks the fields of an object step `{...}` on elements of type `cur`:
/// a field named alone must be a field of the type, a field renamed from a
/// name must be a field of the type or a variable in scope, and nested
/// traversals and expressions are checked from the element.
pub fn validate_object(
    s: &Schema,
    q: &Query,
    scope: &Vec<(String, Type)>,
    cur: &Type,
    loc: &Loc,
    fields: &Vec<FieldAddition>,
    diags: &mut Vec<Diagnostic>,
)
    requires
        scope_flat(scope@),
        flat_type(*cur),
    ensures
        extends(old(diags)@, final(diags)@),
        elem_of(*cur) is None ==> codes(final(diags)@) == codes(old(diags)@).push(ErrorCode::E104),
        elem_of(*cur) is Some ==> forall|i: int| 0 <= i < fields@.len()
            && #[trigger] bad_field_ref(*s, scope@, *cur, fields@[i].value.value)
            ==> reported(old(diags)@, final(diags)@, ErrorCode::E202),
        elem_of(*cur) is Some ==> nested_checked(*s, *q, scope@, *cur, fields@, old(diags)@, final(diags)@),
    decreases fields,
{
    let is_elem = match cur {
        Type::Node(Some(_)) | Type::Nodes(Some(_)) | Type::Edge(Some(_)) | Type::Edges(Some(_))
        | Type::Vector(Some(_)) | Type::Vectors(Some(_)) => true,
        _ => false,
    };
    if !is_elem {
        let at = if fields.len() > 0 { &fields[0].value.loc } else { loc };
        query_error(diags, q, at, ErrorCode::E104, owned("cannot access properties on this type"), "property access is only valid on nodes, edges and vectors");
        assert(diags@.subrange(0, old(diags)@.len() as int) =~= old(diags)@);
        return;
    }
    proof { lemma_extends_refl(diags@); }
    let mut i: usize = 0;
    while i < fields.len()
        invariant
            i <= fields@.len(),
            scope_flat(scope@),
            flat_type(*cur),
            elem_of(*cur) is Some,
            extends(old(diags)@, diags@),
            forall|k: int| 0 <= k < i && #[trigger] bad_field_ref(*s, scope@, *cur, fields@[k].value.value)
                ==> reported(old(diags)@, diags@, ErrorCode::E202),
            forall|k: int| 0 <= k < i ==> #[trigger] field_nested_checked(*s, *q, scope@, *cur, fields@[k].value.value, old(diags)@, diags@),
        decreases fields.len() - i,
    {
        let ghost before = diags@;
        let f = &fields[i];
        match &f.value.value {
            FieldValueType::Identifier(name) => {
                if check_identifier(q, &f.value.loc, name.as_str(), diags) {
                    let ghost mid = diags@;
                    check_access(s, q, &f.value.loc, cur, name.as_str(), diags);
                    proof {
                        lemma_extends_trans(before, mid, diags@);
                        if !field_on(*s, *cur, name@) {
                            assert(codes(diags@).len() == codes(mid).len() + 1);
                            assert(codes(diags@)[mid.len() as int] == ErrorCode::E202);
                            assert(diags@[mid.len() as int].error_code == ErrorCode::E202);
                            lemma_reported_at(before, diags@, mid.len() as int);
                        }
                    }
                }
            },
            FieldValueType::Expression(ex) => {
                match &ex.expr {
                    ExpressionType::Identifier(name) => {
                        if !has_field_on(s, cur, name.as_str()) && crate::helixc::analyzer::scope::lookup(scope, name.as_str()).is_none() {
                            query_error(diags, q, &ex.loc, ErrorCode::E202, wrapped("`", name.as_str(), "` is not a field of the element type or is not a variable in scope"), "check the schema field names");
                            assert(diags@.subrange(0, before.len() as int) =~= before);
                            proof { lemma_reported_at(before, diags@, before.len() as int); }
                        } else {
                            proof { lemma_extends_refl(diags@); }
                        }
                    },
                    _ => {
                        proof {
                            assert(decreases_to!(*fields => fields@[i as int]));
                            assert(decreases_to!(fields@[i as int] => fields@[i as int].value.value->Expression_0));
                        }
                        let _ = infer_expr_type(s, q, scope, ex, Some(cur), diags);
                    },
                }
            },
            FieldValueType::Traversal(tr) => {
                proof {
                    assert(decreases_to!(*fields => fields@[i as int]));
                    assert(decreases_to!(fields@[i as int] => *fields@[i as int].value.value->Traversal_0));
                }
                let rt = check_traversal(s, q, scope, tr, Some(cur), diags);
                proof {
                    if !(rejects_comparison(scope@, tr.steps@) && reported(before, diags@, ErrorCode::E621)) {
                        assert(traversal_checked(*s, *q, scope@, **tr, Some(*cur), rt, before, diags@));
                    }
                }
            },
            FieldValueType::Fields(inner) => {
                proof {
                    assert(decreases_to!(*fields => fields@[i as int]));
                    assert(decreases_to!(fields@[i as int] => fields@[i as int].value.value->Fields_0));
                }
                validate_object(s, q, scope, cur, &f.loc, inner, diags);
            },
            _ => { proof { lemma_extends_refl(diags@); } },
        }
        proof {
            lemma_extends_trans(old(diags)@, before, diags@);
            lemma_reported_extends(old(diags)@, before, diags@, ErrorCode::E202);
            lemma_extends_refl(diags@);
            lemma_extends_refl(old(diags)@);
            assert forall|k: int| 0 <= k < i + 1 implies #[trigger] field_nested_checked(*s, *q, scope@, *cur, fields@[k].value.value, old(diags)@, diags@) by {
                if k < i {
                    lemma_field_nested_widen(*s, *q, scope@, *cur, fields@[k].value.value, old(diags)@, old(diags)@, before, diags@);
                } else {
                    lemma_field_nested_widen(*s, *q, scope@, *cur, fields@[k].value.value, old(diags)@, before, diags@, diags@);
                }
            }
        }
        i = i + 1;
    }
}

/// The code that the exclusion of field `f` reports: E643 where an earlier
/// exclusion of the traversal names it, otherwise that of an access to it.
pub open spec fn exclude_field_codes(s: Schema, cur: Type, excluded: Seq<String>, f: Seq<char>) -> Seq<ErrorCode> {
    if names_hold(excluded, f) {
        seq![ErrorCode::E643]
    } else {
        access_codes(s, cur, f)
    }
}

/// The codes that an exclusion of `fields` reports, field by field.
pub open spec fn exclude_codes(s: Schema, cur: Type, excluded: Seq<String>, fields: Seq<(Loc, String)>) -> Seq<ErrorCode>
    decreases fields.len(),
{
    if fields.len() == 0 {
        Seq::empty()
    } else {
        exclude_codes(s, cur, excluded, fields.drop_last()) + exclude_field_codes(s, cur, excluded, fields.last().1@)
    }
}

/// Checks an exclusion `!{...}` on elements of type `cur`: each field must
/// be a field of the type and not excluded before in the traversal.
fn validate_exclude(
    s: &Schema,
    q: &Query,
    cur: &Type,
    fields: &Vec<(Loc, String)>,
    loc: &Loc,
    excluded: &Vec<String>,
    diags: &mut Vec<Diagnostic>,
)
    ensures
        extends(old(diags)@, final(diags)@),
        elem_of(*cur) is None ==> codes(final(diags)@) == codes(old(diags)@).push(ErrorCode::E104),
        elem_of(*cur) is Some ==> codes(final(diags)@) == codes(old(diags)@) + exclude_codes(*s, *cur, excluded@, fields@),
        forall|j: int| old(diags)@.len() <= j < final(diags)@.len() ==> #[trigger] final(diags)@[j].error_code != ErrorCode::E644,
        elem_of(*cur) is Some ==> forall|i: int| 0 <= i < fields@.len() ==> {
            &&& names_hold(excluded@, #[trigger] fields@[i].1@) ==> reported_with(old(diags)@, final(diags)@,
                ErrorCode::E643, in_query(excluded_message(fields@[i].1@), *q))
            &&& !names_hold(excluded@, fields@[i].1@) && !field_on(*s, *cur, fields@[i].1@)
                ==> reported(old(diags)@, final(diags)@, ErrorCode::E202)
        },
{
    let is_elem = match cur {
        Type::Node(Some(_)) | Type::Nodes(Some(_)) | Type::Edge(Some(_)) | Type::Edges(Some(_))
        | Type::Vector(Some(_)) | Type::Vectors(Some(_)) => true,
        _ => false,
    };
    if !is_elem {
        query_error(diags, q, loc, ErrorCode::E104, owned("cannot access properties on this type"), "exclude is only valid on nodes, edges and vectors");
        assert(diags@.subrange(0, old(diags)@.len() as int) =~= old(diags)@);
        assert(diags@[old(diags)@.len() as int].error_code == ErrorCode::E104);
        return;
    }
    proof { lemma_extends_refl(diags@); }
    let mut i: usize = 0;
    while i < fields.len()
        invariant
            i <= fields@.len(),
            elem_of(*cur) is Some,
            extends(old(diags)@, diags@),
            codes(diags@) == codes(old(diags)@) + exclude_codes(*s, *cur, excluded@, fields@.take(i as int)),
            forall|k: int| 0 <= k < i ==> {
                &&& names_hold(excluded@, #[trigger] fields@[k].1@) ==> reported_with(old(diags)@, diags@,
                    ErrorCode::E643, in_query(excluded_message(fields@[k].1@), *q))
                &&& !names_hold(excluded@, fields@[k].1@) && !field_on(*s, *cur, fields@[k].1@)
                    ==> reported(old(diags)@, diags@, ErrorCode::E202)
            },
            forall|j: int| old(diags)@.len() <= j < diags@.len() ==> #[trigger] diags@[j].error_code != ErrorCode::E644,
        decreases fields.len() - i,
    {
        let ghost before = diags@;
        let (floc, name) = (&fields[i].0, &fields[i].1);
        proof {
            assert(fields@.take(i + 1).drop_last() =~= fields@.take(i as int));
            assert(fields@.take(i + 1).last() == fields@[i as int]);
        }
        if holds_name(excluded, name) {
            let hint = wrapped("remove the exclusion of `", name.as_str(), "`");
            query_error(diags, q, floc, ErrorCode::E643, wrapped("field `", name.as_str(), "` was previously excluded in this traversal"), hint.as_str());
            assert(codes(diags@) =~= codes(old(diags)@) + exclude_codes(*s, *cur, excluded@, fields@.take(i + 1)));
            assert(diags@.subrange(0, before.len() as int) =~= before);
            proof {
                lemma_reported_at(before, diags@, before.len() as int);
                assert(diags@[before.len() as int].message@ == in_query(excluded_message(name@), *q));
                assert(reported_with(before, diags@, ErrorCode::E643, in_query(excluded_message(name@), *q)));
            }
        } else {
            check_access(s, q, floc, cur, name.as_str(), diags);
            assert(codes(diags@) =~= codes(old(diags)@) + exclude_codes(*s, *cur, excluded@, fields@.take(i + 1)));
            proof {
                if !field_on(*s, *cur, name@) {
                    assert(codes(diags@).len() == codes(before).len() + 1);
                    assert(codes(diags@)[before.len() as int] == ErrorCode::E202);
                    assert(diags@[before.len() as int].error_code == ErrorCode::E202);
                    lemma_reported_at(before, diags@, before.len() as int);
                }
                assert(extends(before, diags@));
            }
        }
        proof {
            lemma_extends_trans(old(diags)@, before, diags@);
            lemma_reported_extends(old(diags)@, before, diags@, ErrorCode::E202);
            assert forall|j: int| old(diags)@.len() <= j < diags@.len() implies #[trigger] diags@[j].error_code != ErrorCode::E644 by {
                if j < before.len() {
                    assert(diags@[j] == diags@.subrange(0, before.len() as int)[j]);
                } else {
                    assert(codes(diags@).len() == diags@.len());
                    assert(codes(before).len() == before.len());
                    assert(codes(diags@)[j] == diags@[j].error_code);
                }
            }
            assert forall|k: int| 0 <= k < i + 1 && names_hold(excluded@, #[trigger] fields@[k].1@) implies reported_with(old(diags)@, diags@,
                ErrorCode::E643, in_query(excluded_message(fields@[k].1@), *q)) by {
                lemma_reported_with_extends(old(diags)@, before, diags@, ErrorCode::E643, in_query(excluded_message(fields@[k].1@), *q));
            }
        }
        i = i + 1;
    }
    assert(fields@.take(fields@.len() as int) =~= fields@);
}

/// The word for a comparison, for messages.
fn comparison_word(op: &BooleanOpType) -> (r: &'static str)
    ensures
        r@ == match *op {
            BooleanOpType::And(_) => "AND"@,
            BooleanOpType::Or(_) => "OR"@,
            BooleanOpType::GreaterThan(_) => "GT"@,
            BooleanOpType::GreaterThanOrEqual(_) => "GTE"@,
            BooleanOpType::LessThan(_) => "LT"@,
            BooleanOpType::LessThanOrEqual(_) => "LTE"@,
            BooleanOpType::Equal(_) => "EQ"@,
            BooleanOpType::NotEqual(_) => "NEQ"@,
        },
{
    match op {
        BooleanOpType::And(_) => "AND",
        BooleanOpType::Or(_) => "OR",
        BooleanOpType::GreaterThan(_) => "GT",
        BooleanOpType::GreaterThanOrEqual(_) => "GTE",
        BooleanOpType::LessThan(_) => "LT",
        BooleanOpType::LessThanOrEqual(_) => "LTE",
        BooleanOpType::Equal(_) => "EQ",
        BooleanOpType::NotEqual(_) => "NEQ",
    }
}

/// Checks the start of a traversal and gives its type.
fn check_start(
    s: &Schema,
    q: &Query,
    scope: &Vec<(String, Type)>,
    tr: &Traversal,
    parent: Option<&Type>,
    diags: &mut Vec<Diagnostic>,
) -> (r: Type)
    requires
        scope_flat(scope@),
        parent matches Some(p) ==> flat_type(*p),
    ensures
        extends(old(diags)@, final(diags)@),
        flat_type(r),
        tr.start matches StartNode::Node { node_type, ids } ==> (
            (ids is None ==> (r matches Type::Nodes(Some(n)) && n@ == node_type@))
            && (ids is Some ==> (r matches Type::Node(Some(n)) && n@ == node_type@))
            && (!node_declared(*s, node_type@) ==> (final(diags)@.len() > old(diags)@.len()
                && final(diags)@[old(diags)@.len() as int].error_code == ErrorCode::E101))),
        start_reported(*s, *q, *tr, old(diags)@, final(diags)@),
        start_exact(*s, *q, *tr, old(diags)@, final(diags)@),
        tr.start matches StartNode::Edge { edge_type, ids } ==> (
            (ids is None ==> (r matches Type::Edges(Some(n)) && n@ == edge_type@))
            && (ids is Some ==> (r matches Type::Edge(Some(n)) && n@ == edge_type@))
            && (!edge_declared(*s, edge_type@) ==> (final(diags)@.len() > old(diags)@.len()
                && final(diags)@[old(diags)@.len() as int].error_code == ErrorCode::E102
                && final(diags)@[old(diags)@.len() as int].message@ == in_query(unknown_edge_message(edge_type@), *q)))),
        (tr.start is Anonymous && parent is Some) ==> r == *parent.unwrap(),
        shape_of(r) == start_shape(scope@, tr.start, deref_opt(parent)),
{
    match &tr.start {
        StartNode::Node { node_type, ids } => {
            let ghost before = diags@;
            if !is_node_type(s, node_type.as_str()) {
                query_error(diags, q, &tr.loc, ErrorCode::E101, wrapped("unknown node type `", node_type.as_str(), "`"), "declare the node type in the schema first");
                assert(diags@.subrange(0, before.len() as int) =~= before);
                assert(diags@[before.len() as int].message@ == in_query(unknown_node_message(node_type@), *q));
            } else {
                proof { lemma_extends_refl(diags@); }
            }
            let ghost d1 = diags@;
            match ids {
                Some(list) => {
                    let mut i: usize = 0;
                    proof { lemma_extends_refl(diags@); }
                    while i < list.len()
                        invariant
                            i <= list@.len(),
                            scope_flat(scope@),
                            extends(d1, diags@),
                            forall|j: int| d1.len() <= j < diags@.len() ==> #[trigger] diags@[j].error_code != ErrorCode::E101
                                && diags@[j].error_code != ErrorCode::E102,
                        decreases list.len() - i,
                    {
                        let ghost b = diags@;
                        check_id(s, q, scope, &list[i], ItemKind::Node, node_type, diags);
                        proof {
                            lemma_extends_trans(d1, b, diags@);
                            lemma_id_codes_plain(*s, scope@, list@[i as int], ItemKind::Node, node_type@);
                            assert forall|j: int| d1.len() <= j < diags@.len() implies #[trigger] diags@[j].error_code != ErrorCode::E101
                                && diags@[j].error_code != ErrorCode::E102 by {
                                if j < b.len() {
                                    assert(diags@[j] == diags@.subrange(0, b.len() as int)[j]);
                                } else {
                                    assert(codes(b).len() == b.len());
                                    assert(codes(diags@).len() == diags@.len());
                                    assert(codes(diags@)[j] == diags@[j].error_code);
                                    assert(codes(diags@)[j] == (codes(b) + id_codes(*s, scope@, list@[i as int], ItemKind::Node, node_type@))[j]);
                                    assert(codes(diags@)[j] == id_codes(*s, scope@, list@[i as int], ItemKind::Node, node_type@)[j - b.len()]);
                                }
                            }
                        }
                        i = i + 1;
                    }
                    proof {
                        lemma_extends_trans(before, d1, diags@);
                        if d1.len() > before.len() {
                            assert(diags@[before.len() as int] == diags@.subrange(0, d1.len() as int)[before.len() as int]);
                        }
                    }
                    Type::Node(Some(node_type.clone()))
                },
                None => Type::Nodes(Some(node_type.clone())),
            }
        },
        StartNode::Edge { edge_type, ids } => {
            let ghost before = diags@;
            if find_edge(s, edge_type.as_str()).is_none() {
                query_error(diags, q, &tr.loc, ErrorCode::E102, wrapped("unknown edge type `", edge_type.as_str(), "`"), "declare the edge type in the schema first");
                assert(diags@.subrange(0, before.len() as int) =~= before);
                assert(diags@[before.len() as int].message@ == in_query(unknown_edge_message(edge_type@), *q));
            } else {
                proof { lemma_extends_refl(diags@); }
            }
            let ghost d1 = diags@;
            match ids {
                Some(list) => {
                    let mut i: usize = 0;
                    proof { lemma_extends_refl(diags@); }
                    while i < list.len()
                        invariant
                            i <= list@.len(),
                            scope_flat(scope@),
                            extends(d1, diags@),
                            forall|j: int| d1.len() <= j < diags@.len() ==> #[trigger] diags@[j].error_code != ErrorCode::E101
                                && diags@[j].error_code != ErrorCode::E102,
                        decreases list.len() - i,
                    {
                        let ghost b = diags@;
                        check_id(s, q, scope, &list[i], ItemKind::Edge, edge_type, diags);
                        proof {
                            lemma_extends_trans(d1, b, diags@);
                            lemma_id_codes_plain(*s, scope@, list@[i as int], ItemKind::Edge, edge_type@);
                            assert forall|j: int| d1.len() <= j < diags@.len() implies #[trigger] diags@[j].error_code != ErrorCode::E101
                                && diags@[j].error_code != ErrorCode::E102 by {
                                if j < b.len() {
                                    assert(diags@[j] == diags@.subrange(0, b.len() as int)[j]);
                                } else {
                                    assert(codes(b).len() == b.len());
                                    assert(codes(diags@).len() == diags@.len());
                                    assert(codes(diags@)[j] == diags@[j].error_code);
                                    assert(codes(diags@)[j] == (codes(b) + id_codes(*s, scope@, list@[i as int], ItemKind::Edge, edge_type@))[j]);
                                    assert(codes(diags@)[j] == id_codes(*s, scope@, list@[i as int], ItemKind::Edge, edge_type@)[j - b.len()]);
                                }
                            }
                        }
                        i = i + 1;
                    }
                    proof {
                        lemma_extends_trans(before, d1, diags@);
                        if d1.len() > before.len() {
                            assert(diags@[before.len() as int] == diags@.subrange(0, d1.len() as int)[before.len() as int]);
                        }
                    }
                    Type::Edge(Some(edge_type.clone()))
                },
                None => Type::Edges(Some(edge_type.clone())),
            }
        },
        StartNode::Identifier(n) => {
            let ghost before = diags@;
            if check_identifier(q, &tr.loc, n.as_str(), diags) {
                let ghost mid = diags@;
                let t = check_variable(q, &tr.loc, scope, n.as_str(), diags);
                proof { lemma_extends_trans(before, mid, diags@); }
                match t {
                    Some(t) => t,
                    None => Type::Unknown,
                }
            } else {
                Type::Unknown
            }
        },
        StartNode::Anonymous => {
            proof { lemma_extends_refl(diags@); }
            parent_or_unknown(parent)
        },
        StartNode::SearchVector(sv) => check_search_vector(s, q, scope, sv, diags),
    }
}

/// Checks a traversal step by step and gives the type of what it returns.
/// `parent` is the type that an anonymous start (`_`) stands for.
#[verifier::spinoff_prover]
#[verifier::rlimit(60)]
pub fn check_traversal(
    s: &Schema,
    q: &Query,
    scope: &Vec<(String, Type)>,
    tr: &Traversal,
    parent: Option<&Type>,
    diags: &mut Vec<Diagnostic>,
) -> (r: Type)
    requires
        scope_flat(scope@),
        parent matches Some(p) ==> flat_type(*p),
    ensures
        extends(old(diags)@, final(diags)@),
        flat_type(r),
        (rejects_comparison(scope@, tr.steps@) && reported(old(diags)@, final(diags)@, ErrorCode::E621))
            || traversal_checked(*s, *q, scope@, *tr, deref_opt(parent), r, old(diags)@, final(diags)@),
        exists|d: int| old(diags)@.len() <= d <= final(diags)@.len()
            && #[trigger] start_exact(*s, *q, *tr, old(diags)@, final(diags)@.take(d)),
        (rejects_comparison(scope@, tr.steps@) && reported(old(diags)@, final(diags)@, ErrorCode::E621))
            || exists|b: Seq<int>| #[trigger] steps_exact(*q, tr.steps@, final(diags)@, b, tr.steps@.len() as int),
    decreases tr,
{
    let mut cur = check_start(s, q, scope, tr, parent, diags);
    let ghost after_start = diags@;
    proof { lemma_extends_refl(diags@); }
    let ghost mut bnd: Seq<int> = seq![diags@.len() as int];
    let ghost start = start_shape(scope@, tr.start, deref_opt(parent));
    assert(tr.steps@.take(0) =~= Seq::<Step>::empty());
    let mut excluded: Vec<String> = Vec::new();
    let mut prev_field: Option<String> = None;
    let n = tr.steps.len();
    let mut i: usize = 0;
    while i < n
        invariant
            n == tr.steps@.len(),
            i <= n,
            scope_flat(scope@),
            flat_type(cur),
            extends(old(diags)@, diags@),
            start == start_shape(scope@, tr.start, deref_opt(parent)),
            start_reported(*s, *q, *tr, old(diags)@, diags@),
            extends(old(diags)@, after_start),
            extends(after_start, diags@),
            start_exact(*s, *q, *tr, old(diags)@, after_start),
            bnd.len() == i + 1,
            bnd[i as int] == diags@.len(),
            forall|k: int| 0 <= k < i ==> #[trigger] step_bounds(*q, tr.steps@, diags@, bnd, k),
            shape_of(cur) == steps_shape(*s, tr.steps@.take(i as int), start),
            forall|k: int| 0 <= k < i && #[trigger] misplaced_exclude(tr.steps@, k)
                ==> reported_with(old(diags)@, diags@, ErrorCode::E644, in_query(misplaced_exclude_message(), *q)),
            forall|k: int, j: int| 0 <= k < i && #[trigger] reexcludes(tr.steps@, k, j)
                && shape_elem(steps_shape(*s, tr.steps@.take(k), start)) is Some
                ==> reported_with(old(diags)@, diags@, ErrorCode::E643,
                    in_query(excluded_message(tr.steps@[k].step->Exclude_0.fields@[j].1@), *q)),
            forall|f: Seq<char>| #[trigger] names_hold(excluded@, f) <==> excluded_at(tr.steps@, i as int, f),
            forall|k: int| 0 <= k < i && #[trigger] misplaced_closure(tr.steps@, k)
                ==> reported(old(diags)@, diags@, ErrorCode::E641),
            forall|k: int| 0 <= k < i ==> (#[trigger] step_failure(*s, tr.steps@[k].step,
                steps_shape(*s, tr.steps@.take(k), start)) matches Some(c) ==> reported(old(diags)@, diags@, c)),
        decreases n - i,
    {
        let ghost before = diags@;
        let ghost before_shape = shape_of(cur);
        let ghost excl0 = excluded@;
        let step = &tr.steps[i];
        proof {
            assert(tr.steps@.take(i + 1).drop_last() =~= tr.steps@.take(i as int));
            assert(tr.steps@.take(i + 1).last() == tr.steps@[i as int]);
        }
        let mut next_prev: Option<String> = None;
        proof {
            assert(decreases_to!(*tr => tr.steps@[i as int]));
        }
        match &step.step {
            StepType::Node(gs) | StepType::Edge(gs) => {
                let ghost cur0 = cur;
                match apply_graph_step(s, q, gs, &cur, diags) {
                    Some(t) => { cur = t; },
                    None => {},
                }
                proof {
                    assert(shape_elem(shape_of(cur0)) == elem_of(cur0));
                    assert(shape_of(cur) == graph_step_shape(*s, gs.step, before_shape));
                    if let Some(c) = outcome_code(elem_outcome(*s, gs.step, shape_elem(before_shape))) {
                        assert(codes(diags@).len() == codes(before).len() + 1);
                        assert(codes(diags@)[before.len() as int] == c);
                        assert(diags@[before.len() as int].error_code == c);
                        lemma_reported_at(before, diags@, before.len() as int);
                    }
                }
                excluded = Vec::new();
                proof {
                    lemma_step_extends(before, diags@);
                }
            },
            StepType::Count => {
                cur = Type::Scalar(FieldType::I64);
                excluded = Vec::new();
                proof { lemma_extends_refl(diags@); }
            },
            StepType::Exclude(ex) => {
                let mut placed = i + 1 == n;
                if !placed {
                    placed = match &tr.steps[i + 1].step {
                        StepType::Object(_) | StepType::Closure(_) => true,
                        _ => false,
                    };
                }
                assert(placed == !misplaced_exclude(tr.steps@, i as int));
                if !placed {
                    query_error(diags, q, &ex.loc, ErrorCode::E644, owned("exclude is only valid as the last step in a traversal, or as the step before an object remapping or closure"), "move exclude steps to the end of the traversal");
                    assert(diags@.subrange(0, before.len() as int) =~= before);
                    proof {
                        lemma_reported_at(before, diags@, before.len() as int);
                        assert(diags@[before.len() as int].message@ == in_query(misplaced_exclude_message(), *q));
                        assert(reported_with(before, diags@, ErrorCode::E644, in_query(misplaced_exclude_message(), *q)));
                    }
                } else {
                    proof { lemma_extends_refl(diags@); }
                }
                let ghost mid = diags@;
                validate_exclude(s, q, &cur, &ex.fields, &ex.loc, &excluded, diags);
                proof {
                    lemma_extends_trans(before, mid, diags@);
                    let seg = diags@.subrange(before.len() as int, diags@.len() as int);
                    if misplaced_exclude(tr.steps@, i as int) {
                        assert(diags@[before.len() as int] == diags@.subrange(0, mid.len() as int)[before.len() as int]);
                        assert(seg[0] == diags@[before.len() as int]);
                    } else {
                        assert(mid == before);
                        assert forall|j: int| 0 <= j < seg.len() implies #[trigger] seg[j].error_code != ErrorCode::E644 by {
                            assert(seg[j] == diags@[before.len() + j]);
                        }
                    }
                    assert(exclude_exact(*q, tr.steps@, i as int, seg));
                    lemma_reported_extends(before, mid, diags@, ErrorCode::E644);
                    lemma_reported_with_extends(before, mid, diags@, ErrorCode::E644, in_query(misplaced_exclude_message(), *q));
                    assert(shape_elem(before_shape) == elem_of(cur));
                    assert forall|j: int| #[trigger] reexcludes(tr.steps@, i as int, j) && elem_of(cur) is Some
                        implies reported_with(before, diags@, ErrorCode::E643,
                            in_query(excluded_message(tr.steps@[i as int].step->Exclude_0.fields@[j].1@), *q)) by {
                        assert(names_hold(excluded@, ex.fields@[j].1@));
                        lemma_reported_with_extends(before, mid, diags@, ErrorCode::E643,
                            in_query(excluded_message(ex.fields@[j].1@), *q));
                    }
                }
                let ghost old_excluded = excluded@;
                let mut j: usize = 0;
                while j < ex.fields.len()
                    invariant
                        j <= ex.fields@.len(),
                        forall|f: Seq<char>| #[trigger] names_hold(excluded@, f) <==> (names_hold(old_excluded, f)
                            || exists|m: int| 0 <= m < j && #[trigger] ex.fields@[m].1@ == f),
                    decreases ex.fields.len() - j,
                {
                    let ghost pre = excluded@;
                    let name = ex.fields[j].1.clone();
                    excluded.push(name);
                    proof {
                        assert forall|f: Seq<char>| #[trigger] names_hold(excluded@, f) <==> (names_hold(old_excluded, f)
                            || exists|m: int| 0 <= m < j + 1 && #[trigger] ex.fields@[m].1@ == f) by {
                            if names_hold(excluded@, f) {
                                let w = choose|w: int| 0 <= w < excluded@.len() && #[trigger] excluded@[w]@ == f;
                                if w < pre.len() {
                                    assert(pre[w]@ == f);
                                } else {
                                    assert(ex.fields@[j as int].1@ == f);
                                }
                            }
                            if names_hold(pre, f) {
                                let w = choose|w: int| 0 <= w < pre.len() && #[trigger] pre[w]@ == f;
                                assert(excluded@[w]@ == f);
                            }
                            if exists|m: int| 0 <= m < j + 1 && #[trigger] ex.fields@[m].1@ == f {
                                let m = choose|m: int| 0 <= m < j + 1 && #[trigger] ex.fields@[m].1@ == f;
                                if m == j {
                                    assert(excluded@[pre.len() as int]@ == f);
                                }
                            }
                        }
                    }
                    j = j + 1;
                }
            },
            StepType::Object(obj) => {
                proof {
                    assert(decreases_to!(tr.steps@[i as int] => tr.steps@[i as int].step->Object_0.fields));
                }
                validate_object(s, q, scope, &cur, &obj.loc, &obj.fields, diags);
                if obj.fields.len() == 1 {
                    match &obj.fields[0].value.value {
                        FieldValueType::Identifier(f) => { next_prev = Some(f.clone()); },
                        _ => {},
                    }
                }
            },
            StepType::Where(e) => {
                proof {
                    assert(decreases_to!(tr.steps@[i as int] => *tr.steps@[i as int].step->Where_0));
                }
                let _ = infer_expr_type(s, q, scope, e, Some(&cur), diags);
            },
            StepType::BooleanOperation(op) => {
                match &op.op {
                    BooleanOpType::And(items) | BooleanOpType::Or(items) => {
                        proof { lemma_extends_refl(diags@); }
                        let mut j: usize = 0;
                        while j < items.len()
                            invariant
                                j <= items@.len(),
                                scope_flat(scope@),
                                flat_type(cur),
                                extends(before, diags@),
                                step.step is BooleanOperation,
                                step.step->BooleanOperation_0.op is And ==> step.step->BooleanOperation_0.op->And_0 == *items,
                                step.step->BooleanOperation_0.op is Or ==> step.step->BooleanOperation_0.op->Or_0 == *items,
                                step.step->BooleanOperation_0.op is And || step.step->BooleanOperation_0.op is Or,
                                step == tr.steps@[i as int],
                                decreases_to!(*tr => tr.steps@[i as int]),
                            decreases items.len() - j,
                        {
                            proof {
                                if step.step->BooleanOperation_0.op is And {
                                    assert(decreases_to!(tr.steps@[i as int] => step.step->BooleanOperation_0.op->And_0@[j as int]));
                                } else {
                                    assert(decreases_to!(tr.steps@[i as int] => step.step->BooleanOperation_0.op->Or_0@[j as int]));
                                }
                            }
                            let ghost b = diags@;
                            let _ = infer_expr_type(s, q, scope, &items[j], Some(&cur), diags);
                            proof { lemma_extends_trans(before, b, diags@); }
                            j = j + 1;
                        }
                    },
                    BooleanOpType::GreaterThan(e) | BooleanOpType::GreaterThanOrEqual(e)
                    | BooleanOpType::LessThan(e) | BooleanOpType::LessThanOrEqual(e)
                    | BooleanOpType::Equal(e) | BooleanOpType::NotEqual(e) => {
                        proof {
                            assert(decreases_to!(tr.steps@[i as int] => step.step->BooleanOperation_0.op));
                        }
                        let vt = infer_expr_type(s, q, scope, e, Some(&cur), diags);
                        let ghost d1 = diags@;
                        let scalar = match &vt { Type::Scalar(_) => true, _ => false };
                        if !scalar {
                            query_error(diags, q, &op.loc, ErrorCode::E621,
                                wrapped2("boolean operation `", comparison_word(&op.op), "` cannot be applied to `", vt.kind_str(), "`"),
                                "make sure the expression evaluates to a number or a string");
                            assert(diags@.subrange(0, d1.len() as int) =~= d1);
                            proof { lemma_extends_trans(before, d1, diags@); }
                            proof { lemma_extends_trans(old(diags)@, before, diags@); }
                            proof {
                                lemma_reported_at(old(diags)@, diags@, d1.len() as int);
                                assert(may_reject(scope@, tr.steps@, i as int));
                                lemma_extends_trans(before, d1, diags@);
                                lemma_extends_trans(after_start, before, diags@);
                                assert(diags@.take(after_start.len() as int) =~= after_start);
                                assert(start_exact(*s, *q, *tr, old(diags)@, diags@.take(after_start.len() as int)));
                            }
                            return vt;
                        }
                        match &prev_field {
                            Some(f) => {
                                let is_elem = match &cur {
                                    Type::Node(Some(_)) | Type::Nodes(Some(_)) | Type::Edge(Some(_)) | Type::Edges(Some(_))
                                    | Type::Vector(Some(_)) | Type::Vectors(Some(_)) => true,
                                    _ => false,
                                };
                                if is_elem {
                                    check_access(s, q, &op.loc, &cur, f.as_str(), diags);
                                } else {
                                    query_error(diags, q, &op.loc, ErrorCode::E621, owned("boolean operation can only be applied to scalar values"), "make sure the expression evaluates to a number or a string");
                                    assert(diags@.subrange(0, d1.len() as int) =~= d1);
                                }
                            },
                            None => { proof { lemma_extends_refl(diags@); } },
                        }
                        proof { lemma_extends_trans(before, d1, diags@); }
                    },
                }
            },
            StepType::Update(u) => {
                let node_or_edge = match &cur {
                    Type::Node(Some(_)) | Type::Nodes(Some(_)) | Type::Edge(Some(_)) | Type::Edges(Some(_)) => true,
                    _ => false,
                };
                if !node_or_edge {
                    query_error(diags, q, &u.loc, ErrorCode::E604, owned("update is only valid on nodes or edges"), "update is only valid on nodes or edges");
                    assert(diags@.subrange(0, before.len() as int) =~= before);
                } else {
                    proof { lemma_extends_refl(diags@); }
                    let mut j: usize = 0;
                    while j < u.fields.len()
                        invariant
                            j <= u.fields@.len(),
                            extends(before, diags@),
                        decreases u.fields.len() - j,
                    {
                        let ghost b = diags@;
                        check_access(s, q, &u.fields[j].loc, &cur, u.fields[j].key.as_str(), diags);
                        proof { lemma_extends_trans(before, b, diags@); }
                        j = j + 1;
                    }
                }
            },
            StepType::Range((a, b)) => {
                proof {
                    assert(decreases_to!(tr.steps@[i as int] => tr.steps@[i as int].step->Range_0.0));
                    assert(decreases_to!(tr.steps@[i as int] => tr.steps@[i as int].step->Range_0.1));
                }
                let ta = infer_expr_type(s, q, scope, a, None, diags);
                let ghost d1 = diags@;
                let tb = infer_expr_type(s, q, scope, b, None, diags);
                let ghost d2 = diags@;
                let ok_a = ta.is_integer() || match &ta { Type::Unknown => true, _ => false };
                let ok_b = tb.is_integer() || match &tb { Type::Unknown => true, _ => false };
                if !ok_a || !ok_b {
                    query_error(diags, q, &step.loc, ErrorCode::E633, owned("index of range must be an integer"), "use integers for the range");
                    assert(diags@.subrange(0, d2.len() as int) =~= d2);
                } else {
                    proof { lemma_extends_refl(diags@); }
                }
                proof {
                    lemma_extends_trans(before, d1, d2);
                    lemma_extends_trans(before, d2, diags@);
                }
            },
            StepType::OrderBy(ob) => {
                proof {
                    assert(decreases_to!(tr.steps@[i as int] => *tr.steps@[i as int].step->OrderBy_0.expression));
                }
                let _ = infer_expr_type(s, q, scope, &ob.expression, Some(&cur), diags);
            },
            StepType::Closure(cl) => {
                if i + 1 != n {
                    query_error(diags, q, &cl.loc, ErrorCode::E641, owned("closure is only valid as the last step in a traversal"), "move the closure to the end of the traversal");
                    assert(diags@.subrange(0, before.len() as int) =~= before);
                    proof { lemma_reported_at(before, diags@, before.len() as int); }
                } else {
                    proof { lemma_extends_refl(diags@); }
                }
                let ghost mid = diags@;
                let mut inner = copy_scope(scope);
                bind(&mut inner, &cl.identifier, duplicate(&cur));
                proof {
                    assert(decreases_to!(tr.steps@[i as int] => tr.steps@[i as int].step->Closure_0.object.fields));
                }
                validate_object(s, q, &inner, &cur, &cl.object.loc, &cl.object.fields, diags);
                proof {
                    lemma_extends_trans(before, mid, diags@);
                    lemma_reported_extends(before, mid, diags@, ErrorCode::E641);
                }
            },
            StepType::AddEdge(add) => {
                let t = check_add_edge(s, q, scope, add, diags);
                cur = match add.edge_type.as_ref() {
                    Some(ty) => Type::Edges(Some(ty.clone())),
                    None => Type::Edges(None),
                };
            },
        }
        prev_field = next_prev;
        proof {
            lemma_extends_trans(old(diags)@, before, diags@);
            lemma_extends_trans(after_start, before, diags@);
            let bnd2 = bnd.push(diags@.len() as int);
            assert(exclude_exact(*q, tr.steps@, i as int, diags@.subrange(before.len() as int, diags@.len() as int)));
            assert forall|k: int| 0 <= k < i + 1 implies #[trigger] step_bounds(*q, tr.steps@, diags@, bnd2, k) by {
                if k < i {
                    lemma_step_bounds_extend(*q, tr.steps@, before, diags@, bnd, bnd2, k);
                }
            }
            bnd = bnd2;
            if tr.start is Node {
                lemma_reported_with_extends(old(diags)@, before, diags@, ErrorCode::E101,
                    in_query(unknown_node_message(tr.start->node_type@), *q));
            }
            if tr.start is Edge {
                lemma_reported_with_extends(old(diags)@, before, diags@, ErrorCode::E102,
                    in_query(unknown_edge_message(tr.start->edge_type@), *q));
            }
            lemma_reported_with_extends(old(diags)@, before, diags@, ErrorCode::E644, in_query(misplaced_exclude_message(), *q));
            assert forall|k: int, j: int| 0 <= k < i + 1 && #[trigger] reexcludes(tr.steps@, k, j)
                && shape_elem(steps_shape(*s, tr.steps@.take(k), start)) is Some
                implies reported_with(old(diags)@, diags@, ErrorCode::E643,
                    in_query(excluded_message(tr.steps@[k].step->Exclude_0.fields@[j].1@), *q)) by {
                lemma_reported_with_extends(old(diags)@, before, diags@, ErrorCode::E643,
                    in_query(excluded_message(tr.steps@[k].step->Exclude_0.fields@[j].1@), *q));
            }
            assert forall|f: Seq<char>| #[trigger] names_hold(excluded@, f) <==> excluded_at(tr.steps@, i + 1, f) by {
                assert(excluded_at(tr.steps@, i + 1, f) == (if tr.steps@[i as int].step is Node || tr.steps@[i as int].step is Edge
                    || tr.steps@[i as int].step is Count { false } else if tr.steps@[i as int].step matches StepType::Exclude(ex)
                    && exists|m: int| 0 <= m < ex.fields@.len() && #[trigger] ex.fields@[m].1@ == f { true }
                    else { excluded_at(tr.steps@, i as int, f) }));
                if tr.steps@[i as int].step is Node || tr.steps@[i as int].step is Edge || tr.steps@[i as int].step is Count {
                    assert(excluded@.len() == 0);
                    assert(!names_hold(excluded@, f));
                } else if tr.steps@[i as int].step is Exclude {
                    assert(names_hold(excl0, f) == excluded_at(tr.steps@, i as int, f));
                } else {
                    assert(excluded@ == excl0);
                }
            }
            lemma_reported_extends(old(diags)@, before, diags@, ErrorCode::E641);
            lemma_reported_extends_all(old(diags)@, before, diags@);
            assert(shape_of(cur) == step_shape(*s, tr.steps@[i as int].step, before_shape));
            if let Some(c) = step_failure(*s, tr.steps@[i as int].step, before_shape) {
                assert(reported(before, diags@, c));
                lemma_reported_extends(old(diags)@, before, diags@, c);
            }
            assert(tr.steps@.take(i as int) == tr.steps@.take(i as int));
        }
        i = i + 1;
    }
    assert(tr.steps@.take(n as int) =~= tr.steps@);
    proof {
        assert(steps_exact(*q, tr.steps@, diags@, bnd, n as int));
        assert(diags@.take(after_start.len() as int) =~= after_start);
        assert(start_exact(*s, *q, *tr, old(diags)@, diags@.take(after_start.len() as int)));
    }
    cur
}

/// A step's report keeps the diagnostics before it.
pub proof fn lemma_step_extends(before: Seq<Diagnostic>, after: Seq<Diagnostic>)
    requires
        after == before || (after.len() == before.len() + 1 && after.drop_last() == before),
    ensures
        extends(before, after),
{
    if after == before {
        assert(after.subrange(0, before.len() as int) =~= before);
    } else {
        assert(after.subrange(0, before.len() as int) =~= after.drop_last());
    }
}

} // verus!
