//! The typing of graph steps: from nodes to edges and back, and along
//! edges to nodes or vectors.
use vstd::prelude::*;
use crate::helixc::analyzer::diagnostic::Diagnostic;
use crate::helixc::analyzer::error_codes::ErrorCode;
use crate::helixc::analyzer::schema::{
    edge_declared, find_edge, first_edge, is_node_type, is_vector_type, node_declared,
    vector_declared,
};
use crate::helixc::analyzer::scope::{codes, in_query, query_error, wrapped, wrapped2};
use crate::helixc::analyzer::types::base_type;
use crate::helixc::analyzer::types::{Type, flat_type, kind_name};
use crate::helixc::parser::ast::{GraphStep, GraphStepType, Query, Schema};
use crate::utils::styled_string::{StyledString, styled};
use crate::utils::text::owned;

verus! {

/// The kinds of element type.
#[derive(Debug, Clone, Copy, PartialEq, Eq, Structural)]
pub enum ElemKind {
    Node,
    Nodes,
    Edge,
    Edges,
    Vector,
    Vectors,
}

/// The kind and schema name of an element type with a name.
pub open spec fn elem_of(t: Type) -> Option<(ElemKind, Seq<char>)> {
    match t {
        Type::Node(Some(n)) => Some((ElemKind::Node, n@)),
        Type::Nodes(Some(n)) => Some((ElemKind::Nodes, n@)),
        Type::Edge(Some(n)) => Some((ElemKind::Edge, n@)),
        Type::Edges(Some(n)) => Some((ElemKind::Edges, n@)),
        Type::Vector(Some(n)) => Some((ElemKind::Vector, n@)),
        Type::Vectors(Some(n)) => Some((ElemKind::Vectors, n@)),
        _ => None,
    }
}

/// The element type of kind `k` and name `n`.
pub fn make_elem(k: ElemKind, n: String) -> (r: Type)
    ensures
        elem_of(r) == Some((k, n@)),
        flat_type(r),
{
    match k {
        ElemKind::Node => Type::Node(Some(n)),
        ElemKind::Nodes => Type::Nodes(Some(n)),
        ElemKind::Edge => Type::Edge(Some(n)),
        ElemKind::Edges => Type::Edges(Some(n)),
        ElemKind::Vector => Type::Vector(Some(n)),
        ElemKind::Vectors => Type::Vectors(Some(n)),
    }
}

/// What a graph step does to the current type: it fails with a code,
/// fails without report, gives an element type (with or without a
/// report), or gives an unknown type.
pub enum StepOutcome {
    Fails(ErrorCode),
    FailsSilently,
    Gives(ElemKind, Seq<char>),
    GivesWithError(ElemKind, Seq<char>, ErrorCode),
    GivesUnknown,
}

/// Whether a kind is of nodes or vectors, which edges leave and enter.
pub open spec fn is_vertex_kind(k: ElemKind) -> bool {
    k == ElemKind::Node || k == ElemKind::Nodes || k == ElemKind::Vector || k == ElemKind::Vectors
}

/// The edge type named `l` that a step follows: the first one declared.
pub open spec fn edge_named(s: Schema, l: Seq<char>) -> int {
    choose|i: int| first_edge(s, l, i)
}

/// The outcome of `OutE<l>` (when `out`) or `InE<l>` from nodes or vectors
/// of type `n`.
pub open spec fn to_edges_outcome(s: Schema, l: Seq<char>, out: bool, n: Seq<char>) -> StepOutcome {
    if !edge_declared(s, l) {
        StepOutcome::Fails(ErrorCode::E102)
    } else {
        let e = s.edge_schemas@[edge_named(s, l)];
        let end = if out { e.from.1@ } else { e.to.1@ };
        if end == n {
            StepOutcome::Gives(ElemKind::Edges, l)
        } else {
            StepOutcome::Fails(ErrorCode::E207)
        }
    }
}

/// The outcome of `Out<l>` (when `out`) or `In<l>` from nodes or vectors of
/// type `n`.
pub open spec fn to_vertices_outcome(s: Schema, l: Seq<char>, out: bool, n: Seq<char>) -> StepOutcome {
    if !edge_declared(s, l) {
        StepOutcome::Fails(ErrorCode::E102)
    } else {
        let e = s.edge_schemas@[edge_named(s, l)];
        let end = if out { e.from.1@ } else { e.to.1@ };
        let target = if out { e.to.1@ } else { e.from.1@ };
        if !node_declared(s, target) && !vector_declared(s, target) {
            StepOutcome::Fails(ErrorCode::E102)
        } else if end != n {
            StepOutcome::Fails(ErrorCode::E207)
        } else if node_declared(s, target) {
            StepOutcome::Gives(ElemKind::Nodes, target)
        } else {
            StepOutcome::Gives(ElemKind::Vectors, target)
        }
    }
}

/// The outcome of a step from edges of type `n` (kind `k`) to the element
/// at their `From` end (when `from_end`) or `To` end, of nodes (when
/// `to_nodes`) or vectors.
pub open spec fn edge_end_outcome(s: Schema, n: Seq<char>, k: ElemKind, from_end: bool, to_nodes: bool) -> StepOutcome {
    if !edge_declared(s, n) {
        StepOutcome::FailsSilently
    } else {
        let e = s.edge_schemas@[edge_named(s, n)];
        let end = if from_end { e.from.1@ } else { e.to.1@ };
        let kind = if to_nodes {
            if k == ElemKind::Edges { ElemKind::Nodes } else { ElemKind::Node }
        } else {
            if k == ElemKind::Edges { ElemKind::Vectors } else { ElemKind::Vector }
        };
        let fits = if to_nodes { node_declared(s, end) } else { vector_declared(s, end) };
        if fits {
            StepOutcome::Gives(kind, end)
        } else {
            StepOutcome::GivesWithError(kind, end, ErrorCode::E201)
        }
    }
}

/// The typing rule of graph steps. Steps from nodes or vectors follow
/// declared edge types that leave (`Out`, `OutE`) or enter (`In`, `InE`)
/// the current type; steps from edges reach the node or vector at an end;
/// any other step fails.
pub open spec fn graph_step_outcome(s: Schema, step: GraphStepType, cur: Type) -> StepOutcome {
    elem_outcome(s, step, elem_of(cur))
}

/// The outcome of a graph step from an element type of kind and name
/// `elem`, or from a type that is no named element type (`None`).
pub open spec fn elem_outcome(s: Schema, step: GraphStepType, elem: Option<(ElemKind, Seq<char>)>) -> StepOutcome {
    match elem {
        Some((k, n)) => {
            let vertex = is_vertex_kind(k);
            let edge = k == ElemKind::Edge || k == ElemKind::Edges;
            match step {
                GraphStepType::OutE(l) => if vertex { to_edges_outcome(s, l@, true, n) } else { StepOutcome::Fails(ErrorCode::E602) },
                GraphStepType::InE(l) => if vertex { to_edges_outcome(s, l@, false, n) } else { StepOutcome::Fails(ErrorCode::E602) },
                GraphStepType::Out(l) => if vertex { to_vertices_outcome(s, l@, true, n) } else { StepOutcome::Fails(ErrorCode::E602) },
                GraphStepType::In(l) => if vertex { to_vertices_outcome(s, l@, false, n) } else { StepOutcome::Fails(ErrorCode::E602) },
                GraphStepType::FromN => if edge { edge_end_outcome(s, n, k, true, true) } else { StepOutcome::Fails(ErrorCode::E602) },
                GraphStepType::ToN => if edge { edge_end_outcome(s, n, k, false, true) } else { StepOutcome::Fails(ErrorCode::E602) },
                GraphStepType::FromV => if edge { edge_end_outcome(s, n, k, true, false) } else { StepOutcome::Fails(ErrorCode::E602) },
                GraphStepType::ToV => if edge { edge_end_outcome(s, n, k, false, false) } else { StepOutcome::Fails(ErrorCode::E602) },
                GraphStepType::ShortestPath(_) => if k == ElemKind::Node || k == ElemKind::Nodes { StepOutcome::GivesUnknown } else { StepOutcome::Fails(ErrorCode::E602) },
                GraphStepType::SearchVector(_) => if k == ElemKind::Vector || k == ElemKind::Vectors { StepOutcome::Gives(ElemKind::Vectors, n) } else { StepOutcome::Fails(ErrorCode::E602) },
            }
        },
        None => StepOutcome::Fails(ErrorCode::E602),
    }
}

/// The message, before the query's name, for a step that cannot follow
/// the current type: the step and the kind of the type, in bold.
pub open spec fn cannot_follow_message(step: GraphStepType, cur: Type) -> Seq<char> {
    "traversal step `"@ + styled(seq!['1'], step_label_text(step)) + "` cannot follow a step that returns "@
        + styled(seq!['1'], kind_name(cur)) + ""@
}

/// The message for an edge type `l` that is not declared.
pub open spec fn edge_missing_message(l: Seq<char>) -> Seq<char> {
    "Edge of type `"@ + l + "` does not exist"@
}

/// The message for an edge type `l` that does not leave (when `out`) or
/// enter nodes of type `n`.
pub open spec fn edge_direction_message(l: Seq<char>, out: bool, n: Seq<char>) -> Seq<char> {
    "Edge of type `"@ + l + (if out {
        "` exists but it is not a valid outgoing edge type for node of type `"@
    } else {
        "` exists but it is not a valid incoming edge type for node of type `"@
    }) + n + "`"@
}

/// The message for an edge type `l` whose far end names no declared type.
pub open spec fn edge_no_target_message(l: Seq<char>) -> Seq<char> {
    "Edge of type `"@ + l + "` connects to no declared node or vector type"@
}

/// The message for an edge type `n` whose end is not of the kind a step
/// reaches.
pub open spec fn edge_end_kind_message(n: Seq<char>, from_end: bool, to_nodes: bool) -> Seq<char> {
    "edge type `"@ + n + (if to_nodes { "` does not have a node type as its "@ } else { "` does not have a vector type as its "@ })
        + (if from_end { "`From` end"@ } else { "`To` end"@ }) + ""@
}

/// The message of the report of `OutE<l>` or `InE<l>`, if there is one.
pub open spec fn to_edges_message(s: Schema, l: Seq<char>, out: bool, n: Seq<char>) -> Option<Seq<char>> {
    if !edge_declared(s, l) {
        Some(edge_missing_message(l))
    } else {
        let e = s.edge_schemas@[edge_named(s, l)];
        let end = if out { e.from.1@ } else { e.to.1@ };
        if end == n { None } else { Some(edge_direction_message(l, out, n)) }
    }
}

/// The message of the report of `Out<l>` or `In<l>`, if there is one.
pub open spec fn to_vertices_message(s: Schema, l: Seq<char>, out: bool, n: Seq<char>) -> Option<Seq<char>> {
    if !edge_declared(s, l) {
        Some(edge_missing_message(l))
    } else {
        let e = s.edge_schemas@[edge_named(s, l)];
        let end = if out { e.from.1@ } else { e.to.1@ };
        let target = if out { e.to.1@ } else { e.from.1@ };
        if !node_declared(s, target) && !vector_declared(s, target) {
            Some(edge_no_target_message(l))
        } else if end != n {
            Some(edge_direction_message(l, out, n))
        } else {
            None
        }
    }
}

/// The message of the report of a step to an end of edges, if there is one.
pub open spec fn edge_end_message(s: Schema, n: Seq<char>, from_end: bool, to_nodes: bool) -> Option<Seq<char>> {
    if !edge_declared(s, n) {
        None
    } else {
        let e = s.edge_schemas@[edge_named(s, n)];
        let end = if from_end { e.from.1@ } else { e.to.1@ };
        let fits = if to_nodes { node_declared(s, end) } else { vector_declared(s, end) };
        if fits { None } else { Some(edge_end_kind_message(n, from_end, to_nodes)) }
    }
}

/// The message, before the query's name, of the report of a graph step from
/// type `cur`, if it makes one.
pub open spec fn step_message(s: Schema, step: GraphStepType, cur: Type) -> Option<Seq<char>> {
    match elem_of(cur) {
        Some((k, n)) => {
            let vertex = is_vertex_kind(k);
            let edge = k == ElemKind::Edge || k == ElemKind::Edges;
            let bad = Some(cannot_follow_message(step, cur));
            match step {
                GraphStepType::OutE(l) => if vertex { to_edges_message(s, l@, true, n) } else { bad },
                GraphStepType::InE(l) => if vertex { to_edges_message(s, l@, false, n) } else { bad },
                GraphStepType::Out(l) => if vertex { to_vertices_message(s, l@, true, n) } else { bad },
                GraphStepType::In(l) => if vertex { to_vertices_message(s, l@, false, n) } else { bad },
                GraphStepType::FromN => if edge { edge_end_message(s, n, true, true) } else { bad },
                GraphStepType::ToN => if edge { edge_end_message(s, n, false, true) } else { bad },
                GraphStepType::FromV => if edge { edge_end_message(s, n, true, false) } else { bad },
                GraphStepType::ToV => if edge { edge_end_message(s, n, false, false) } else { bad },
                GraphStepType::ShortestPath(_) => if k == ElemKind::Node || k == ElemKind::Nodes { None } else { bad },
                GraphStepType::SearchVector(_) => if k == ElemKind::Vector || k == ElemKind::Vectors { None } else { bad },
            }
        },
        None => Some(cannot_follow_message(step, cur)),
    }
}

/// A graph step from a scalar, a boolean, an object or an unknown type
/// fails, with E602.
pub proof fn law_step_needs_element_type(s: Schema, step: GraphStepType, cur: Type)
    requires
        elem_of(cur) is None,
    ensures
        graph_step_outcome(s, step, cur) == StepOutcome::Fails(ErrorCode::E602),
{
}

/// Following a declared edge type out of nodes of type `n` (`OutE<l>`)
/// gives its edges, and going from those edges to their `From` end
/// (`FromN`) returns to nodes of type `n`.
pub proof fn law_out_edge_and_back(s: Schema, l: String, n: Seq<char>, cur: Type, mid: Type)
    requires
        elem_of(cur) == Some((ElemKind::Nodes, n)),
        edge_declared(s, l@),
        s.edge_schemas@[edge_named(s, l@)].from.1@ == n,
        node_declared(s, n),
        elem_of(mid) == Some((ElemKind::Edges, l@)),
    ensures
        graph_step_outcome(s, GraphStepType::OutE(l), cur) == StepOutcome::Gives(ElemKind::Edges, l@),
        graph_step_outcome(s, GraphStepType::FromN, mid) == StepOutcome::Gives(ElemKind::Nodes, n),
{
}

/// Following a declared edge type into nodes of type `n` (`InE<l>`) gives
/// its edges, and going from those edges to their `To` end (`ToN`) returns
/// to nodes of type `n`.
pub proof fn law_in_edge_and_back(s: Schema, l: String, n: Seq<char>, cur: Type, mid: Type)
    requires
        elem_of(cur) == Some((ElemKind::Nodes, n)),
        edge_declared(s, l@),
        s.edge_schemas@[edge_named(s, l@)].to.1@ == n,
        node_declared(s, n),
        elem_of(mid) == Some((ElemKind::Edges, l@)),
    ensures
        graph_step_outcome(s, GraphStepType::InE(l), cur) == StepOutcome::Gives(ElemKind::Edges, l@),
        graph_step_outcome(s, GraphStepType::ToN, mid) == StepOutcome::Gives(ElemKind::Nodes, n),
{
}

/// `Out<l>` from nodes at the `From` end of edge type `l` reaches the
/// nodes at its `To` end; from nodes of any other type it fails with E207.
pub proof fn law_out_reaches_to_end(s: Schema, l: String, n: Seq<char>, cur: Type)
    requires
        elem_of(cur) == Some((ElemKind::Nodes, n)),
        edge_declared(s, l@),
        node_declared(s, s.edge_schemas@[edge_named(s, l@)].to.1@),
    ensures
        s.edge_schemas@[edge_named(s, l@)].from.1@ == n ==> graph_step_outcome(s, GraphStepType::Out(l), cur)
            == StepOutcome::Gives(ElemKind::Nodes, s.edge_schemas@[edge_named(s, l@)].to.1@),
        s.edge_schemas@[edge_named(s, l@)].from.1@ != n ==> graph_step_outcome(s, GraphStepType::Out(l), cur)
            == StepOutcome::Fails(ErrorCode::E207),
{
}

/// The first edge type of a name is the one that steps follow.
proof fn lemma_edge_named_is_first(s: Schema, l: Seq<char>, i: int)
    requires
        first_edge(s, l, i),
    ensures
        edge_named(s, l) == i,
{
    let j = edge_named(s, l);
    assert(first_edge(s, l, j));
    if j < i {
        assert(s.edge_schemas@[j].name.1@ != l);
    } else if i < j {
        assert(s.edge_schemas@[i].name.1@ != l);
    }
}

/// `In<l>` from nodes at the `To` end of the first edge type named `l`
/// reaches the nodes at its `From` end, when that end is a declared node
/// type; from nodes of any other type it fails with E207.
pub proof fn law_in_reaches_from_end(s: Schema, l: String, i: int, n: Seq<char>, cur: Type)
    requires
        first_edge(s, l@, i),
        elem_of(cur) == Some((ElemKind::Nodes, n)),
        node_declared(s, s.edge_schemas@[i].from.1@),
    ensures
        s.edge_schemas@[i].to.1@ == n ==> graph_step_outcome(s, GraphStepType::In(l), cur)
            == StepOutcome::Gives(ElemKind::Nodes, s.edge_schemas@[i].from.1@),
        s.edge_schemas@[i].to.1@ != n ==> graph_step_outcome(s, GraphStepType::In(l), cur)
            == StepOutcome::Fails(ErrorCode::E207),
{
    lemma_edge_named_is_first(s, l@, i);
    assert(edge_declared(s, l@));
}

/// Going out along an edge type and back in along the same type returns to
/// the type one started from: where `Out<l>` from nodes of type `n` reaches
/// nodes of type `m`, `In<l>` from nodes of type `m` reaches nodes of type
/// `n`.
pub proof fn law_out_then_in_returns(s: Schema, l: String, n: Seq<char>, m: Seq<char>, cur: Type, mid: Type)
    requires
        elem_of(cur) == Some((ElemKind::Nodes, n)),
        elem_of(mid) == Some((ElemKind::Nodes, m)),
        node_declared(s, n),
        graph_step_outcome(s, GraphStepType::Out(l), cur) == StepOutcome::Gives(ElemKind::Nodes, m),
    ensures
        graph_step_outcome(s, GraphStepType::In(l), mid) == StepOutcome::Gives(ElemKind::Nodes, n),
{
}

/// Whether the diagnostics after a step are those before it, with the
/// step's report where it makes one, and whether the result is the
/// step's outcome.
pub open spec fn step_done(
    outcome: StepOutcome,
    before: Seq<Diagnostic>,
    after: Seq<Diagnostic>,
    r: Option<Type>,
) -> bool {
    match outcome {
        StepOutcome::Fails(c) => r is None && codes(after) == codes(before).push(c),
        StepOutcome::FailsSilently => r is None && codes(after) == codes(before),
        StepOutcome::Gives(k, n) => r matches Some(t) && elem_of(t) == Some((k, n))
            && codes(after) == codes(before),
        StepOutcome::GivesWithError(k, n, c) => r matches Some(t) && elem_of(t) == Some((k, n))
            && codes(after) == codes(before).push(c),
        StepOutcome::GivesUnknown => r matches Some(t) && t is Unknown && codes(after) == codes(before),
    }
}

/// Whether `after` is `before`, or `before` with one more diagnostic.
pub open spec fn one_or_none(before: Seq<Diagnostic>, after: Seq<Diagnostic>) -> bool {
    after == before || (after.len() == before.len() + 1 && after.drop_last() == before)
}

/// How a step is named in messages.
pub open spec fn step_label_text(step: GraphStepType) -> Seq<char> {
    match step {
        GraphStepType::Out(l) => "Out<"@ + l@ + ">"@,
        GraphStepType::In(l) => "In<"@ + l@ + ">"@,
        GraphStepType::OutE(l) => "OutE<"@ + l@ + ">"@,
        GraphStepType::InE(l) => "InE<"@ + l@ + ">"@,
        GraphStepType::FromN => "FromN"@,
        GraphStepType::ToN => "ToN"@,
        GraphStepType::FromV => "FromV"@,
        GraphStepType::ToV => "ToV"@,
        GraphStepType::ShortestPath(_) => "ShortestPath"@,
        GraphStepType::SearchVector(_) => "SearchV"@,
    }
}

/// How a step is named in messages.
fn step_label(step: &GraphStepType) -> (r: String)
    ensures
        r@ == step_label_text(*step),
{
    match step {
        GraphStepType::Out(l) => wrapped("Out<", l.as_str(), ">"),
        GraphStepType::In(l) => wrapped("In<", l.as_str(), ">"),
        GraphStepType::OutE(l) => wrapped("OutE<", l.as_str(), ">"),
        GraphStepType::InE(l) => wrapped("InE<", l.as_str(), ">"),
        GraphStepType::FromN => owned("FromN"),
        GraphStepType::ToN => owned("ToN"),
        GraphStepType::FromV => owned("FromV"),
        GraphStepType::ToV => owned("ToV"),
        GraphStepType::ShortestPath(_) => owned("ShortestPath"),
        GraphStepType::SearchVector(_) => owned("SearchV"),
    }
}

/// The hint for a step that cannot follow the current type: from nodes or
/// vectors, `FromN` and `ToN` get a hint to traverse edges or nodes; from
/// edges, `Out`, `In`, `OutE` and `InE` get a hint to traverse their ends;
/// any other step a hint to re-order the traversal.
pub open spec fn step_hint_text(cur: Type, step: GraphStepType) -> Seq<char> {
    let general = "re-order the traversal or remove the invalid step"@;
    match cur {
        Type::Node(Some(n)) | Type::Nodes(Some(n)) | Type::Vector(Some(n)) | Type::Vectors(Some(n)) =>
            if step is FromN || step is ToN {
                "use `OutE` or `InE` to traverse edges from `"@ + n@ + "`, or `Out` or `In` to traverse nodes from `"@
                    + n@ + "`"@
            } else {
                general
            },
        Type::Edges(Some(n)) =>
            if step is Out || step is In || step is OutE || step is InE {
                "use `FromN` or `ToN` to traverse nodes from `"@ + n@ + "`"@
            } else {
                general
            },
        _ => general,
    }
}

/// The hint for a step that cannot follow the current type.
fn step_hint(cur: &Type, step: &GraphStepType) -> (r: String)
    ensures
        r@ == step_hint_text(*cur, *step),
{
    let from_vertex = match cur {
        Type::Node(Some(_)) | Type::Nodes(Some(_)) | Type::Vector(Some(_)) | Type::Vectors(Some(_)) => true,
        _ => false,
    };
    let to_vertex_from_edge = match step {
        GraphStepType::FromN | GraphStepType::ToN => true,
        _ => false,
    };
    let edge_step = match step {
        GraphStepType::Out(_) | GraphStepType::In(_) | GraphStepType::OutE(_) | GraphStepType::InE(_) => true,
        _ => false,
    };
    match cur {
        Type::Node(Some(n)) | Type::Nodes(Some(n)) | Type::Vector(Some(n)) | Type::Vectors(Some(n)) => {
            if to_vertex_from_edge {
                return wrapped2("use `OutE` or `InE` to traverse edges from `", n.as_str(),
                    "`, or `Out` or `In` to traverse nodes from `", n.as_str(), "`");
            }
        },
        Type::Edges(Some(n)) => {
            if edge_step {
                return wrapped("use `FromN` or `ToN` to traverse nodes from `", n.as_str(), "`");
            }
        },
        _ => {},
    }
    let _ = from_vertex;
    owned("re-order the traversal or remove the invalid step")
}

/// `OutE<l>` (when `out`) or `InE<l>` from nodes or vectors of type `n`.
fn step_to_edges(s: &Schema, q: &Query, gs: &GraphStep, l: &String, out: bool, n: &String, diags: &mut Vec<Diagnostic>) -> (r: Option<Type>)
    ensures
        step_done(to_edges_outcome(*s, l@, out, n@), old(diags)@, final(diags)@, r),
        r matches Some(t) ==> flat_type(t),
        one_or_none(old(diags)@, final(diags)@),
        to_edges_message(*s, l@, out, n@) matches Some(m) ==> final(diags)@.len() == old(diags)@.len() + 1
            && final(diags)@.last().message@ == in_query(m, *q),
{
    match find_edge(s, l.as_str()) {
        None => {
            query_error(diags, q, &gs.loc, ErrorCode::E102, wrapped("Edge of type `", l.as_str(), "` does not exist"), "check the schema for valid edge types");
            None
        },
        Some(i) => {
            proof { assert(edge_named(*s, l@) == i as int); }
            let e = &s.edge_schemas[i];
            let end = if out { &e.from.1 } else { &e.to.1 };
            if *end == *n {
                Some(Type::Edges(Some(l.clone())))
            } else {
                let dir = if out { "` exists but it is not a valid outgoing edge type for node of type `" } else { "` exists but it is not a valid incoming edge type for node of type `" };
                query_error(diags, q, &gs.loc, ErrorCode::E207, wrapped2("Edge of type `", l.as_str(), dir, n.as_str(), "`"), "check the schema for valid edge types");
                None
            }
        },
    }
}

/// `Out<l>` (when `out`) or `In<l>` from nodes or vectors of type `n`.
fn step_to_vertices(s: &Schema, q: &Query, gs: &GraphStep, l: &String, out: bool, n: &String, diags: &mut Vec<Diagnostic>) -> (r: Option<Type>)
    ensures
        step_done(to_vertices_outcome(*s, l@, out, n@), old(diags)@, final(diags)@, r),
        r matches Some(t) ==> flat_type(t),
        one_or_none(old(diags)@, final(diags)@),
        to_vertices_message(*s, l@, out, n@) matches Some(m) ==> final(diags)@.len() == old(diags)@.len() + 1
            && final(diags)@.last().message@ == in_query(m, *q),
{
    match find_edge(s, l.as_str()) {
        None => {
            query_error(diags, q, &gs.loc, ErrorCode::E102, wrapped("Edge of type `", l.as_str(), "` does not exist"), "check the schema for valid edge types");
            None
        },
        Some(i) => {
            proof { assert(edge_named(*s, l@) == i as int); }
            let e = &s.edge_schemas[i];
            let end = if out { &e.from.1 } else { &e.to.1 };
            let target = if out { &e.to.1 } else { &e.from.1 };
            let target_node = is_node_type(s, target.as_str());
            let target_vector = is_vector_type(s, target.as_str());
            if !target_node && !target_vector {
                query_error(diags, q, &gs.loc, ErrorCode::E102, wrapped("Edge of type `", l.as_str(), "` connects to no declared node or vector type"), "check the schema for valid edge types");
                None
            } else if *end != *n {
                let dir = if out { "` exists but it is not a valid outgoing edge type for node of type `" } else { "` exists but it is not a valid incoming edge type for node of type `" };
                query_error(diags, q, &gs.loc, ErrorCode::E207, wrapped2("Edge of type `", l.as_str(), dir, n.as_str(), "`"), "check the schema for valid edge types");
                None
            } else if target_node {
                Some(Type::Nodes(Some(target.clone())))
            } else {
                Some(Type::Vectors(Some(target.clone())))
            }
        },
    }
}

/// A step from edges of type `n` to the element at one of their ends.
fn step_to_edge_end(s: &Schema, q: &Query, gs: &GraphStep, n: &String, k: ElemKind, from_end: bool, to_nodes: bool, diags: &mut Vec<Diagnostic>) -> (r: Option<Type>)
    ensures
        step_done(edge_end_outcome(*s, n@, k, from_end, to_nodes), old(diags)@, final(diags)@, r),
        r matches Some(t) ==> flat_type(t),
        one_or_none(old(diags)@, final(diags)@),
        edge_end_message(*s, n@, from_end, to_nodes) matches Some(m) ==> final(diags)@.len() == old(diags)@.len() + 1
            && final(diags)@.last().message@ == in_query(m, *q),
{
    match find_edge(s, n.as_str()) {
        None => None,
        Some(i) => {
            proof { assert(edge_named(*s, n@) == i as int); }
            let e = &s.edge_schemas[i];
            let end = if from_end { &e.from.1 } else { &e.to.1 };
            let kind = if to_nodes {
                if k == ElemKind::Edges { ElemKind::Nodes } else { ElemKind::Node }
            } else {
                if k == ElemKind::Edges { ElemKind::Vectors } else { ElemKind::Vector }
            };
            let fits = if to_nodes { is_node_type(s, end.as_str()) } else { is_vector_type(s, end.as_str()) };
            if !fits {
                let what = if to_nodes { "` does not have a node type as its " } else { "` does not have a vector type as its " };
                let side = if from_end { "`From` end" } else { "`To` end" };
                query_error(diags, q, &gs.loc, ErrorCode::E201, wrapped2("edge type `", n.as_str(), what, side, ""), "set that end of the edge to a type of the right kind");
            }
            Some(make_elem(kind, end.clone()))
        },
    }
}

/// Applies a graph step to the current type `cur`, reporting in query `q`
/// what makes it fail. An anonymous type is followed as the type it stands
/// for (its `base_type`).
pub fn apply_graph_step(
    s: &Schema,
    q: &Query,
    gs: &GraphStep,
    cur: &Type,
    diags: &mut Vec<Diagnostic>,
) -> (r: Option<Type>)
    ensures
        step_done(graph_step_outcome(*s, gs.step, base_type(*cur)), old(diags)@, final(diags)@, r),
        r matches Some(t) ==> flat_type(t),
        one_or_none(old(diags)@, final(diags)@),
        step_message(*s, gs.step, base_type(*cur)) matches Some(m) ==> final(diags)@.len() == old(diags)@.len() + 1
            && final(diags)@.last().message@ == in_query(m, *q),
{
    let cur = cur.base();
    let (k, n): (ElemKind, &String) = match cur {
        Type::Node(Some(n)) => (ElemKind::Node, n),
        Type::Nodes(Some(n)) => (ElemKind::Nodes, n),
        Type::Edge(Some(n)) => (ElemKind::Edge, n),
        Type::Edges(Some(n)) => (ElemKind::Edges, n),
        Type::Vector(Some(n)) => (ElemKind::Vector, n),
        Type::Vectors(Some(n)) => (ElemKind::Vectors, n),
        _ => {
            cannot_follow(s, q, gs, cur, diags);
            return None;
        },
    };
    let vertex = k == ElemKind::Node || k == ElemKind::Nodes || k == ElemKind::Vector || k == ElemKind::Vectors;
    let edge_kind = k == ElemKind::Edge || k == ElemKind::Edges;
    let fits = match &gs.step {
        GraphStepType::OutE(_) | GraphStepType::InE(_) | GraphStepType::Out(_) | GraphStepType::In(_) => vertex,
        GraphStepType::FromN | GraphStepType::ToN | GraphStepType::FromV | GraphStepType::ToV => edge_kind,
        GraphStepType::ShortestPath(_) => k == ElemKind::Node || k == ElemKind::Nodes,
        GraphStepType::SearchVector(_) => k == ElemKind::Vector || k == ElemKind::Vectors,
    };
    if !fits {
        cannot_follow(s, q, gs, cur, diags);
        return None;
    }
    match &gs.step {
        GraphStepType::OutE(l) => step_to_edges(s, q, gs, l, true, n, diags),
        GraphStepType::InE(l) => step_to_edges(s, q, gs, l, false, n, diags),
        GraphStepType::Out(l) => step_to_vertices(s, q, gs, l, true, n, diags),
        GraphStepType::In(l) => step_to_vertices(s, q, gs, l, false, n, diags),
        GraphStepType::FromN => step_to_edge_end(s, q, gs, n, k, true, true, diags),
        GraphStepType::ToN => step_to_edge_end(s, q, gs, n, k, false, true, diags),
        GraphStepType::FromV => step_to_edge_end(s, q, gs, n, k, true, false, diags),
        GraphStepType::ToV => step_to_edge_end(s, q, gs, n, k, false, false, diags),
        GraphStepType::ShortestPath(_) => Some(Type::Unknown),
        GraphStepType::SearchVector(_) => Some(Type::Vectors(Some(n.clone()))),
    }
}

/// Reports a step that cannot follow the current type.
fn cannot_follow(s: &Schema, q: &Query, gs: &GraphStep, cur: &Type, diags: &mut Vec<Diagnostic>)
    ensures
        codes(final(diags)@) == codes(old(diags)@).push(ErrorCode::E602),
        final(diags)@.len() == old(diags)@.len() + 1,
        final(diags)@.drop_last() == old(diags)@,
        final(diags)@.last().message@ == in_query(cannot_follow_message(gs.step, *cur), *q),
{
    let label = step_label(&gs.step);
    let step_text = label.as_str().bold();
    let kind_text = cur.kind_str().bold();
    let msg = wrapped2("traversal step `", step_text.as_str(), "` cannot follow a step that returns ", kind_text.as_str(), "");
    let hint = step_hint(cur, &gs.step);
    query_error(diags, q, &gs.loc, ErrorCode::E602, msg, hint.as_str());
}

} // verus!
