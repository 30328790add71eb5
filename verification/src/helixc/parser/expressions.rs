//! Parsing of expressions, traversals and their steps.
use vstd::prelude::*;
use crate::helixc::location::Loc;
use crate::helixc::parser::ast::{
    AddEdge, AddNode, AddVector, BM25Search, BatchAddVector, BooleanOp, BooleanOpType, Closure,
    EdgeConnection, Exclude, Expression, ExpressionType, FieldAddition, FieldValue,
    FieldValueType, GraphStep, GraphStepType, Object, OrderBy, OrderByType, SearchVector,
    StartNode, Step, StepType, Traversal, Update,
};
use crate::helixc::parser::cursor::{
    ParserError, at, at_word, expect, expect_ident, expect_word, expected, kind_is, span, word_is,
};
use crate::helixc::parser::ast::{IdType, VectorData};
use crate::helixc::parser::lexer::{Tok, Token};
use crate::utils::decimal::{all_digits, numeral_value};
use crate::helixc::parser::values::{
    id_token, integer_at, parse_ids, parse_id, parse_number, parse_props, parse_type_arg, parse_value_type, parse_vector_data, type_arg_at,
};

verus! {

/// Parses `AddN<Type>` with an optional `({ properties })`.
pub fn parse_add_node(toks: &Vec<Token>, pos: usize) -> (r: Result<(AddNode, usize), ParserError>)
    requires
        pos <= toks@.len(),
    ensures
        r matches Ok((_, p)) ==> pos < p <= toks@.len(),
        r is Ok ==> word_is(toks@, pos as int, "AddN"@) && type_arg_at(toks@, pos + 1),
        r matches Ok((item, _)) ==> item.node_type matches Some(t) && t@ == toks@[pos + 2].text@,
        word_is(toks@, pos as int, "AddN"@) && type_arg_at(toks@, pos + 1) ==> {
            &&& !kind_is(toks@, pos + 4, Tok::LParen) ==> (r matches Ok((item, p)) && item.fields is None && p == pos + 4)
            &&& kind_is(toks@, pos + 4, Tok::LParen) && kind_is(toks@, pos + 5, Tok::RParen)
                ==> (r matches Ok((item, p)) && item.fields is None && p == pos + 6)
            &&& kind_is(toks@, pos + 4, Tok::LParen) && kind_is(toks@, pos + 5, Tok::LBrace) && kind_is(toks@, pos + 6, Tok::RBrace)
                && kind_is(toks@, pos + 7, Tok::RParen) ==> (r matches Ok((item, p)) && item.fields matches Some(fs)
                && fs@.len() == 0 && p == pos + 8)
            &&& kind_is(toks@, pos + 4, Tok::LParen) && !kind_is(toks@, pos + 5, Tok::LBrace)
                && !kind_is(toks@, pos + 5, Tok::RParen) ==> r is Err
        },
{
    proof { reveal_strlit("AddN"); }
    let p = expect_word(toks, pos, "AddN")?;
    let (node_type, mut p) = parse_type_arg(toks, p)?;
    let mut fields = None;
    if at(toks, p, Tok::LParen) {
        if at(toks, p + 1, Tok::LBrace) {
            let (props, q) = parse_props(toks, p + 1)?;
            fields = Some(props);
            p = expect(toks, q, Tok::RParen, "`)`")?;
        } else {
            p = expect(toks, p + 1, Tok::RParen, "`)`")?;
        }
    }
    let loc = span(toks, pos, p);
    Ok((AddNode { loc, node_type: Some(node_type), fields }, p))
}

/// Parses `AddE<Type>` with optional `({ properties })`, then any
/// `::From(id)` and `::To(id)`.
pub fn parse_add_edge(toks: &Vec<Token>, pos: usize, from_identifier: bool) -> (r: Result<
    (AddEdge, usize),
    ParserError,
>)
    requires
        pos <= toks@.len(),
    ensures
        r matches Ok((_, p)) ==> pos < p <= toks@.len(),
        r is Ok ==> word_is(toks@, pos as int, "AddE"@) && type_arg_at(toks@, pos + 1),
        r matches Ok((item, _)) ==> item.edge_type matches Some(t) && t@ == toks@[pos + 2].text@
            && item.from_identifier == from_identifier,
        word_is(toks@, pos as int, "AddE"@) && type_arg_at(toks@, pos + 1) && !kind_is(toks@, pos + 4, Tok::LParen)
            && !kind_is(toks@, pos + 4, Tok::PathSep) ==> (r matches Ok((item, p)) && item.fields is None
            && item.connection.from_id is None && item.connection.to_id is None && p == pos + 4),
        word_is(toks@, pos as int, "AddE"@) && type_arg_at(toks@, pos + 1) && kind_is(toks@, pos + 4, Tok::LParen)
            && !kind_is(toks@, pos + 5, Tok::LBrace) && !kind_is(toks@, pos + 5, Tok::RParen) ==> r is Err,
{
    proof { reveal_strlit("AddE"); }
    let p = expect_word(toks, pos, "AddE")?;
    let (edge_type, mut p) = parse_type_arg(toks, p)?;
    let mut fields = None;
    if at(toks, p, Tok::LParen) {
        if at(toks, p + 1, Tok::LBrace) {
            let (props, q) = parse_props(toks, p + 1)?;
            fields = Some(props);
            p = expect(toks, q, Tok::RParen, "`)`")?;
        } else {
            p = expect(toks, p + 1, Tok::RParen, "`)`")?;
        }
    }
    let conn_start = p;
    let mut from_id = None;
    let mut to_id = None;
    while at(toks, p, Tok::PathSep) && (at_word(toks, p + 1, "From") || at_word(toks, p + 1, "To"))
        invariant
            pos < p <= toks@.len(),
            conn_start <= p,
            word_is(toks@, pos as int, "AddE"@) && type_arg_at(toks@, pos + 1) && !kind_is(toks@, pos + 4, Tok::LParen)
                && !kind_is(toks@, pos + 4, Tok::PathSep) ==> p == pos + 4 && fields is None && from_id is None && to_id is None,
        decreases toks@.len() - p,
    {
        let is_from = at_word(toks, p + 1, "From");
        let q = expect(toks, p + 2, Tok::LParen, "`(`")?;
        let (id, q) = parse_id(toks, q)?;
        let q = expect(toks, q, Tok::RParen, "`)`")?;
        if is_from {
            from_id = Some(id);
        } else {
            to_id = Some(id);
        }
        p = q;
    }
    let conn_loc = if conn_start < p { span(toks, conn_start, p) } else { span(toks, pos, p) };
    let loc = span(toks, pos, p);
    Ok((
        AddEdge {
            loc,
            edge_type: Some(edge_type),
            fields,
            connection: EdgeConnection { loc: conn_loc, from_id, to_id },
            from_identifier,
        },
        p,
    ))
}

/// Parses `AddV<Type>(data)` or `AddV<Type>(data, { properties })`.
pub fn parse_add_vector(toks: &Vec<Token>, pos: usize) -> (r: Result<(AddVector, usize), ParserError>)
    requires
        pos <= toks@.len(),
    ensures
        r matches Ok((_, p)) ==> pos < p <= toks@.len(),
        r is Ok ==> word_is(toks@, pos as int, "AddV"@) && type_arg_at(toks@, pos + 1),
        r matches Ok((item, _)) ==> item.vector_type matches Some(t) && t@ == toks@[pos + 2].text@,
        r is Ok ==> kind_is(toks@, pos + 4, Tok::LParen),
        word_is(toks@, pos as int, "AddV"@) && type_arg_at(toks@, pos + 1) && kind_is(toks@, pos + 4, Tok::LParen)
            && kind_is(toks@, pos + 5, Tok::Ident) && !word_is(toks@, pos + 5, "Embed"@) && kind_is(toks@, pos + 6, Tok::RParen)
            ==> (r matches Ok((item, p)) && item.fields is None && p == pos + 7
            && (item.data matches Some(VectorData::Identifier(x)) && x@ == toks@[pos + 5].text@)),
{
    proof { reveal_strlit("AddV"); }
    let p = expect_word(toks, pos, "AddV")?;
    let (vector_type, p) = parse_type_arg(toks, p)?;
    let p = expect(toks, p, Tok::LParen, "`(`")?;
    let (data, mut p) = parse_vector_data(toks, p)?;
    let mut fields = None;
    if at(toks, p, Tok::Comma) {
        let (props, q) = parse_props(toks, p + 1)?;
        fields = Some(props);
        p = q;
    }
    let p = expect(toks, p, Tok::RParen, "`)`")?;
    let loc = span(toks, pos, p);
    Ok((AddVector { loc, vector_type: Some(vector_type), data: Some(data), fields }, p))
}

/// Parses `BatchAddV<Type>(variable)`.
pub fn parse_batch_add_vector(toks: &Vec<Token>, pos: usize) -> (r: Result<
    (BatchAddVector, usize),
    ParserError,
>)
    requires
        pos <= toks@.len(),
    ensures
        r matches Ok((_, p)) ==> pos < p <= toks@.len(),
        r is Ok ==> word_is(toks@, pos as int, "BatchAddV"@) && type_arg_at(toks@, pos + 1),
        r matches Ok((item, _)) ==> item.vector_type matches Some(t) && t@ == toks@[pos + 2].text@,
        r is Ok <==> word_is(toks@, pos as int, "BatchAddV"@) && type_arg_at(toks@, pos + 1)
            && kind_is(toks@, pos + 4, Tok::LParen) && kind_is(toks@, pos + 5, Tok::Ident) && kind_is(toks@, pos + 6, Tok::RParen),
        r matches Ok((item, p)) ==> p == pos + 7 && (item.vec_identifier matches Some(x) && x@ == toks@[pos + 5].text@),
{
    proof { reveal_strlit("BatchAddV"); }
    let p = expect_word(toks, pos, "BatchAddV")?;
    let (vector_type, p) = parse_type_arg(toks, p)?;
    let p = expect(toks, p, Tok::LParen, "`(`")?;
    let (name, p) = expect_ident(toks, p)?;
    let p = expect(toks, p, Tok::RParen, "`)`")?;
    let loc = span(toks, pos, p);
    Ok((
        BatchAddVector { vector_type: Some(vector_type), vec_identifier: Some(name), fields: None, loc },
        p,
    ))
}

/// Parses `SearchV<Type>(data, k)`.
pub fn parse_search_vector(toks: &Vec<Token>, pos: usize) -> (r: Result<(SearchVector, usize), ParserError>)
    requires
        pos <= toks@.len(),
    ensures
        r matches Ok((_, p)) ==> pos < p <= toks@.len(),
        r is Ok ==> word_is(toks@, pos as int, "SearchV"@) && type_arg_at(toks@, pos + 1),
        r matches Ok((item, _)) ==> item.vector_type matches Some(t) && t@ == toks@[pos + 2].text@,
        r is Ok ==> kind_is(toks@, pos + 4, Tok::LParen),
        word_is(toks@, pos as int, "SearchV"@) && type_arg_at(toks@, pos + 1) && kind_is(toks@, pos + 4, Tok::LParen)
            && kind_is(toks@, pos + 5, Tok::Ident) && !word_is(toks@, pos + 5, "Embed"@) && kind_is(toks@, pos + 6, Tok::Comma)
            && (kind_is(toks@, pos + 7, Tok::Ident) || kind_is(toks@, pos + 7, Tok::Decimal)) && kind_is(toks@, pos + 8, Tok::RParen)
            ==> (r matches Ok((item, p)) && p == pos + 9
            && (item.data matches Some(VectorData::Identifier(x)) && x@ == toks@[pos + 5].text@)),
{
    proof { reveal_strlit("SearchV"); }
    let p = expect_word(toks, pos, "SearchV")?;
    let (vector_type, p) = parse_type_arg(toks, p)?;
    let p = expect(toks, p, Tok::LParen, "`(`")?;
    let (data, p) = parse_vector_data(toks, p)?;
    let p = expect(toks, p, Tok::Comma, "`,`")?;
    let (k, p) = parse_number(toks, p)?;
    let p = expect(toks, p, Tok::RParen, "`)`")?;
    let loc = span(toks, pos, p);
    Ok((SearchVector { loc, vector_type: Some(vector_type), data: Some(data), k: Some(k), pre_filter: None }, p))
}

/// Parses `SearchBM25<Type>(text, k)`.
pub fn parse_bm25_search(toks: &Vec<Token>, pos: usize) -> (r: Result<(BM25Search, usize), ParserError>)
    requires
        pos <= toks@.len(),
    ensures
        r matches Ok((_, p)) ==> pos < p <= toks@.len(),
        r is Ok ==> word_is(toks@, pos as int, "SearchBM25"@) && type_arg_at(toks@, pos + 1),
        r matches Ok((item, _)) ==> item.type_arg matches Some(t) && t@ == toks@[pos + 2].text@,
        r is Ok ==> kind_is(toks@, pos + 4, Tok::LParen),
        word_is(toks@, pos as int, "SearchBM25"@) && type_arg_at(toks@, pos + 1) && kind_is(toks@, pos + 4, Tok::LParen)
            && (kind_is(toks@, pos + 5, Tok::Str) || (kind_is(toks@, pos + 5, Tok::Ident)
                && !word_is(toks@, pos + 5, "true"@) && !word_is(toks@, pos + 5, "false"@)))
            && kind_is(toks@, pos + 6, Tok::Comma)
            && (kind_is(toks@, pos + 7, Tok::Ident) || kind_is(toks@, pos + 7, Tok::Decimal)) && kind_is(toks@, pos + 8, Tok::RParen)
            ==> (r matches Ok((_, p)) && p == pos + 9),
{
    proof { reveal_strlit("SearchBM25"); }
    let p = expect_word(toks, pos, "SearchBM25")?;
    let (type_arg, p) = parse_type_arg(toks, p)?;
    let p = expect(toks, p, Tok::LParen, "`(`")?;
    let (data, p) = parse_value_type(toks, p)?;
    let p = expect(toks, p, Tok::Comma, "`,`")?;
    let (k, p) = parse_number(toks, p)?;
    let p = expect(toks, p, Tok::RParen, "`)`")?;
    let loc = span(toks, pos, p);
    Ok((BM25Search { loc, type_arg: Some(type_arg), data: Some(data), k: Some(k) }, p))
}

/// Whether the word at `pos` with `<` after it starts `N<Type>` (when
/// `node`) or `E<Type>`.
pub open spec fn typed_start_at(toks: Seq<Token>, pos: int, node: bool) -> bool {
    word_is(toks, pos, if node { "N"@ } else { "E"@ }) && kind_is(toks, pos + 1, Tok::Lt)
}

/// The label that an edge step at `pos` names: its type argument, or none.
pub open spec fn step_label(toks: Seq<Token>, pos: int) -> Seq<char> {
    if kind_is(toks, pos + 1, Tok::Lt) { toks[pos + 2].text@ } else { Seq::empty() }
}

/// Whether the word at `pos` is followed by no `<`, or by a whole `<Name>`.
pub open spec fn optional_type_arg(toks: Seq<Token>, pos: int) -> bool {
    !kind_is(toks, pos + 1, Tok::Lt) || type_arg_at(toks, pos + 1)
}

/// Whether the word at `pos` names a comparison: `EQ`, `NEQ`, `GT`, `GTE`,
/// `LT` or `LTE`.
pub open spec fn comparison_word_at(toks: Seq<Token>, pos: int) -> bool {
    ||| word_is(toks, pos, "EQ"@)
    ||| word_is(toks, pos, "NEQ"@)
    ||| word_is(toks, pos, "GT"@)
    ||| word_is(toks, pos, "GTE"@)
    ||| word_is(toks, pos, "LT"@)
    ||| word_is(toks, pos, "LTE"@)
}

/// Whether the word at `pos` names a graph step.
pub open spec fn step_word_at(toks: Seq<Token>, pos: int) -> bool {
    ||| word_is(toks, pos, "FromN"@)
    ||| word_is(toks, pos, "ToN"@)
    ||| word_is(toks, pos, "FromV"@)
    ||| word_is(toks, pos, "ToV"@)
    ||| word_is(toks, pos, "InN"@)
    ||| word_is(toks, pos, "OutN"@)
    ||| word_is(toks, pos, "Out"@)
    ||| word_is(toks, pos, "In"@)
    ||| word_is(toks, pos, "OutE"@)
    ||| word_is(toks, pos, "InE"@)
    ||| word_is(toks, pos, "SearchV"@)
}

/// How many ids a typed start names, or `None` where it names none (no
/// brackets) or is not typed.
pub open spec fn start_id_count(st: StartNode) -> Option<nat> {
    match st {
        StartNode::Node { ids: Some(v), .. } => Some(v@.len()),
        StartNode::Edge { ids: Some(v), .. } => Some(v@.len()),
        _ => None,
    }
}

/// The ids that a typed start names, if it names them in brackets.
pub open spec fn start_ids(st: StartNode) -> Option<Seq<IdType>> {
    match st {
        StartNode::Node { ids: Some(v), .. } => Some(v@),
        StartNode::Edge { ids: Some(v), .. } => Some(v@),
        _ => None,
    }
}

/// Whether a typed start names one id, the one that the token `t` names.
pub open spec fn one_id_named(st: StartNode, t: Token) -> bool {
    match start_ids(st) {
        Some(v) => v.len() == 1 && id_token(v[0], t),
        None => false,
    }
}

/// Parses where a traversal starts: `N<Type>(ids)?`, `E<Type>(ids)?`,
/// `SearchV<...>(...)`, `_` or a variable.
pub fn parse_start_node(toks: &Vec<Token>, pos: usize) -> (r: Result<(StartNode, usize), ParserError>)
    requires
        pos <= toks@.len(),
    ensures
        r matches Ok((_, p)) ==> pos < p <= toks@.len(),
        typed_start_at(toks@, pos as int, true) ==> (r is Ok ==> type_arg_at(toks@, pos + 1)) && (r matches Ok((st, _))
            ==> st matches StartNode::Node { node_type, .. } && node_type@ == toks@[pos + 2].text@),
        typed_start_at(toks@, pos as int, false) ==> (r is Ok ==> type_arg_at(toks@, pos + 1)) && (r matches Ok((st, _))
            ==> st matches StartNode::Edge { edge_type, .. } && edge_type@ == toks@[pos + 2].text@),
        (typed_start_at(toks@, pos as int, true) || typed_start_at(toks@, pos as int, false))
            && type_arg_at(toks@, pos + 1) ==> {
            &&& !kind_is(toks@, pos + 4, Tok::LParen) ==> (r matches Ok((st, p)) && p == pos + 4
                && start_id_count(st) is None)
            &&& kind_is(toks@, pos + 4, Tok::LParen) && kind_is(toks@, pos + 5, Tok::RParen)
                ==> (r matches Ok((st, p)) && p == pos + 6 && start_id_count(st) == Some(0nat))
            &&& kind_is(toks@, pos + 4, Tok::LParen) && (kind_is(toks@, pos + 5, Tok::Str) || kind_is(toks@, pos + 5, Tok::Ident))
                && kind_is(toks@, pos + 6, Tok::RParen) ==> (r matches Ok((st, p)) && p == pos + 7 && start_id_count(st) == Some(1nat)
                && one_id_named(st, toks@[pos + 5]))
        },
        (!typed_start_at(toks@, pos as int, true) && !typed_start_at(toks@, pos as int, false)) ==> {
            &&& word_is(toks@, pos as int, "SearchV"@) ==> (r matches Ok((st, _)) ==> st is SearchVector)
            &&& word_is(toks@, pos as int, "_"@) ==> (r matches Ok((StartNode::Anonymous, p)) && p == pos + 1)
            &&& (kind_is(toks@, pos as int, Tok::Ident) && !word_is(toks@, pos as int, "SearchV"@)
                && !word_is(toks@, pos as int, "_"@)) ==> (r matches Ok((StartNode::Identifier(n), p))
                && n@ == toks@[pos as int].text@ && p == pos + 1)
            &&& !kind_is(toks@, pos as int, Tok::Ident) ==> r is Err
        },
{
    proof {
        reveal_strlit("N");
        reveal_strlit("E");
        reveal_strlit("_");
        reveal_strlit("SearchV");
        assert("N"@.len() == 1 && "N"@[0] == 'N');
        assert("E"@.len() == 1 && "E"@[0] == 'E');
        assert("_"@.len() == 1 && "_"@[0] == '_');
        assert("SearchV"@.len() == 7);
    }
    if (at_word(toks, pos, "N") || at_word(toks, pos, "E")) && at(toks, pos + 1, Tok::Lt) {
        let is_node = at_word(toks, pos, "N");
        let (name, mut p) = parse_type_arg(toks, pos + 1)?;
        let mut ids = None;
        if at(toks, p, Tok::LParen) {
            let (list, q) = parse_ids(toks, p)?;
            ids = Some(list);
            p = q;
        }
        if is_node {
            Ok((StartNode::Node { node_type: name, ids }, p))
        } else {
            Ok((StartNode::Edge { edge_type: name, ids }, p))
        }
    } else if at_word(toks, pos, "SearchV") {
        let (sv, p) = parse_search_vector(toks, pos)?;
        Ok((StartNode::SearchVector(sv), p))
    } else if at_word(toks, pos, "_") {
        Ok((StartNode::Anonymous, pos + 1))
    } else if at(toks, pos, Tok::Ident) {
        Ok((StartNode::Identifier(toks[pos].text.clone()), pos + 1))
    } else {
        Err(expected(toks, pos, "the start of a traversal"))
    }
}

/// The graph step that the word at `pos` names, with its type argument:
/// `FromN`, `ToN`, `FromV`, `ToV`; `InN` and `OutN` as `ToN` and `FromN`;
/// `Out`, `In`, `OutE`, `InE` with their label; `SearchV`.
pub fn parse_graph_step(toks: &Vec<Token>, pos: usize) -> (r: Result<(GraphStep, usize), ParserError>)
    requires
        pos <= toks@.len(),
    ensures
        r matches Ok((_, p)) ==> pos < p <= toks@.len(),
        !step_word_at(toks@, pos as int) ==> r is Err,
        word_is(toks@, pos as int, "FromN"@) ==> (r matches Ok((g, p)) && g.step is FromN && p == pos + 1),
        word_is(toks@, pos as int, "ToN"@) ==> (r matches Ok((g, p)) && g.step is ToN && p == pos + 1),
        word_is(toks@, pos as int, "FromV"@) ==> (r matches Ok((g, p)) && g.step is FromV && p == pos + 1),
        word_is(toks@, pos as int, "ToV"@) ==> (r matches Ok((g, p)) && g.step is ToV && p == pos + 1),
        word_is(toks@, pos as int, "InN"@) ==> (r is Ok <==> optional_type_arg(toks@, pos as int))
            && (r matches Ok((g, _)) ==> g.step is ToN),
        word_is(toks@, pos as int, "OutN"@) ==> (r is Ok <==> optional_type_arg(toks@, pos as int))
            && (r matches Ok((g, _)) ==> g.step is FromN),
        word_is(toks@, pos as int, "Out"@) ==> (r is Ok <==> optional_type_arg(toks@, pos as int))
            && (r matches Ok((g, _)) ==> g.step matches GraphStepType::Out(l) && l@ == step_label(toks@, pos as int)),
        word_is(toks@, pos as int, "In"@) ==> (r is Ok <==> optional_type_arg(toks@, pos as int))
            && (r matches Ok((g, _)) ==> g.step matches GraphStepType::In(l) && l@ == step_label(toks@, pos as int)),
        word_is(toks@, pos as int, "OutE"@) ==> (r is Ok <==> optional_type_arg(toks@, pos as int))
            && (r matches Ok((g, _)) ==> g.step matches GraphStepType::OutE(l) && l@ == step_label(toks@, pos as int)),
        word_is(toks@, pos as int, "InE"@) ==> (r is Ok <==> optional_type_arg(toks@, pos as int))
            && (r matches Ok((g, _)) ==> g.step matches GraphStepType::InE(l) && l@ == step_label(toks@, pos as int)),
        word_is(toks@, pos as int, "SearchV"@) ==> (r matches Ok((g, _)) ==> g.step is SearchVector),
{
    proof {
        reveal_strlit("FromN");
        reveal_strlit("ToN");
        reveal_strlit("FromV");
        reveal_strlit("ToV");
        reveal_strlit("InN");
        reveal_strlit("OutN");
        reveal_strlit("Out");
        reveal_strlit("In");
        reveal_strlit("OutE");
        reveal_strlit("InE");
        reveal_strlit("SearchV");
        assert("FromN"@.len() == 5 && "FromN"@[4] == 'N');
        assert("FromV"@.len() == 5 && "FromV"@[4] == 'V');
        assert("ToN"@.len() == 3 && "ToN"@[0] == 'T' && "ToN"@[2] == 'N');
        assert("ToV"@.len() == 3 && "ToV"@[0] == 'T' && "ToV"@[2] == 'V');
        assert("InN"@.len() == 3 && "InN"@[0] == 'I' && "InN"@[2] == 'N');
        assert("InE"@.len() == 3 && "InE"@[0] == 'I' && "InE"@[2] == 'E');
        assert("Out"@.len() == 3 && "Out"@[0] == 'O' && "Out"@[2] == 't');
        assert("OutN"@.len() == 4 && "OutN"@[3] == 'N');
        assert("OutE"@.len() == 4 && "OutE"@[3] == 'E');
        assert("In"@.len() == 2);
        assert("SearchV"@.len() == 7);
    }
    if at_word(toks, pos, "FromN") || at_word(toks, pos, "ToN") || at_word(toks, pos, "FromV")
        || at_word(toks, pos, "ToV") {
        let step = if at_word(toks, pos, "FromN") {
            GraphStepType::FromN
        } else if at_word(toks, pos, "ToN") {
            GraphStepType::ToN
        } else if at_word(toks, pos, "FromV") {
            GraphStepType::FromV
        } else {
            GraphStepType::ToV
        };
        Ok((GraphStep { loc: span(toks, pos, pos + 1), step }, pos + 1))
    } else if at_word(toks, pos, "InN") || at_word(toks, pos, "OutN") {
        let step = if at_word(toks, pos, "InN") { GraphStepType::ToN } else { GraphStepType::FromN };
        let p = if at(toks, pos + 1, Tok::Lt) {
            let (_label, p) = parse_type_arg(toks, pos + 1)?;
            p
        } else {
            pos + 1
        };
        Ok((GraphStep { loc: span(toks, pos, p), step }, p))
    } else if at_word(toks, pos, "Out") || at_word(toks, pos, "In") || at_word(toks, pos, "OutE")
        || at_word(toks, pos, "InE") {
        let (label, p) = if at(toks, pos + 1, Tok::Lt) {
            parse_type_arg(toks, pos + 1)?
        } else {
            (String::new(), pos + 1)
        };
        let step = if at_word(toks, pos, "Out") {
            GraphStepType::Out(label)
        } else if at_word(toks, pos, "In") {
            GraphStepType::In(label)
        } else if at_word(toks, pos, "OutE") {
            GraphStepType::OutE(label)
        } else {
            GraphStepType::InE(label)
        };
        Ok((GraphStep { loc: span(toks, pos, p), step }, p))
    } else if at_word(toks, pos, "SearchV") {
        let (sv, p) = parse_search_vector(toks, pos)?;
        Ok((GraphStep { loc: span(toks, pos, p), step: GraphStepType::SearchVector(sv) }, p))
    } else {
        Err(expected(toks, pos, "a step"))
    }
}

/// The integer literal at `pos`, with a minus sign before it when
/// `negative`, where it fits an `i32`.
fn small_integer_at(toks: &Vec<Token>, pos: usize, negative: bool) -> (r: Result<i32, ParserError>)
    requires
        pos < toks@.len(),
    ensures
        ({
            let t = toks@[pos as int].text@;
            let v: int = if negative { -numeral_value(t) } else { numeral_value(t) as int };
            let digits = t.len() > 0 && all_digits(t);
            &&& r matches Ok(x) ==> digits && x == v
            &&& r is Ok <==> digits && i32::MIN <= v <= i32::MAX
        }),
{
    let v = integer_at(toks, pos, negative)?;
    if -2147483648 <= v && v <= 2147483647 {
        Ok(v as i32)
    } else {
        Err(expected(toks, pos, "a number that fits 32 bits"))
    }
}

/// Parses an expression.
pub fn parse_expression(toks: &Vec<Token>, pos: usize) -> (r: Result<(Expression, usize), ParserError>)
    requires
        pos <= toks@.len(),
    ensures
        r matches Ok((_, p)) ==> pos < p <= toks@.len(),
        kind_is(toks@, pos as int, Tok::Str) ==> (r matches Ok((e, p))
            && e.expr matches ExpressionType::StringLiteral(t) && t@ == toks@[pos as int].text@ && p == pos + 1),
        kind_is(toks@, pos as int, Tok::Decimal) ==> (r matches Ok((e, p))
            && e.expr matches ExpressionType::FloatLiteral(t) && t@ == toks@[pos as int].text@ && p == pos + 1),
        kind_is(toks@, pos as int, Tok::Int) ==> (r matches Ok((e, _)) ==> e.expr is IntegerLiteral),
        word_is(toks@, pos as int, "true"@) ==> (r matches Ok((e, p))
            && e.expr matches ExpressionType::BooleanLiteral(b) && b && p == pos + 1),
        word_is(toks@, pos as int, "false"@) ==> (r matches Ok((e, p))
            && e.expr matches ExpressionType::BooleanLiteral(b) && !b && p == pos + 1),
        word_is(toks@, pos as int, "NONE"@) ==> (r matches Ok((e, p)) && e.expr is Empty && p == pos + 1),
        word_is(toks@, pos as int, "EXISTS"@) ==> (r matches Ok((e, _)) ==> e.expr is Exists),
        word_is(toks@, pos as int, "AddN"@) ==> (r matches Ok((e, _)) ==> e.expr is AddNode),
        word_is(toks@, pos as int, "AddE"@) ==> (r matches Ok((e, _)) ==> e.expr is AddEdge),
        word_is(toks@, pos as int, "AddV"@) ==> (r matches Ok((e, _)) ==> e.expr is AddVector),
        word_is(toks@, pos as int, "BatchAddV"@) ==> (r matches Ok((e, _)) ==> e.expr is BatchAddVector),
        word_is(toks@, pos as int, "SearchBM25"@) ==> (r matches Ok((e, _)) ==> e.expr is BM25Search),
    decreases toks@.len() - pos, 4int,
{
    proof {
        reveal_strlit("EXISTS");
        reveal_strlit("AND");
        reveal_strlit("OR");
        reveal_strlit("AddN");
        reveal_strlit("AddE");
        reveal_strlit("AddV");
        reveal_strlit("BatchAddV");
        reveal_strlit("SearchBM25");
        reveal_strlit("SearchV");
        reveal_strlit("true");
        reveal_strlit("false");
        reveal_strlit("NONE");
        assert("EXISTS"@.len() == 6);
        assert("AND"@.len() == 3);
        assert("OR"@.len() == 2);
        assert("AddN"@.len() == 4 && "AddN"@[0] == 'A' && "AddN"@[3] == 'N');
        assert("AddE"@.len() == 4 && "AddE"@[0] == 'A' && "AddE"@[3] == 'E');
        assert("AddV"@.len() == 4 && "AddV"@[0] == 'A' && "AddV"@[3] == 'V');
        assert("NONE"@.len() == 4 && "NONE"@[0] == 'N');
        assert("true"@.len() == 4 && "true"@[0] == 't');
        assert("false"@.len() == 5);
        assert("BatchAddV"@.len() == 9);
        assert("SearchBM25"@.len() == 10);
        assert("SearchV"@.len() == 7);
    }
    if at_word(toks, pos, "EXISTS") {
        let p = expect(toks, pos + 1, Tok::LParen, "`(`")?;
        let (inner, p) = parse_expression(toks, p)?;
        let p = expect(toks, p, Tok::RParen, "`)`")?;
        let loc = span(toks, pos, p);
        Ok((Expression { loc, expr: ExpressionType::Exists(Box::new(inner)) }, p))
    } else if (at_word(toks, pos, "AND") || at_word(toks, pos, "OR")) && at(toks, pos + 1, Tok::LParen) {
        let is_and = at_word(toks, pos, "AND");
        let mut p = pos + 2;
        let mut items: Vec<Expression> = Vec::new();
        while !at(toks, p, Tok::RParen)
            invariant
                pos < p <= toks@.len(),
                word_is(toks@, pos as int, "AND"@) || word_is(toks@, pos as int, "OR"@),
                "AND"@.len() == 3 && "OR"@.len() == 2 && "true"@.len() == 4 && "false"@.len() == 5 && "NONE"@.len() == 4,
            decreases toks@.len() - p,
        {
            let (e, q) = parse_expression(toks, p)?;
            items.push(e);
            p = q;
            if at(toks, p, Tok::Comma) {
                p = p + 1;
            } else if !at(toks, p, Tok::RParen) {
                return Err(expected(toks, p, "`,` or `)`"));
            }
        }
        let p = p + 1;
        let loc = span(toks, pos, p);
        let expr = if is_and { ExpressionType::And(items) } else { ExpressionType::Or(items) };
        Ok((Expression { loc, expr }, p))
    } else if at_word(toks, pos, "AddN") {
        let (n, p) = parse_add_node(toks, pos)?;
        Ok((Expression { loc: span(toks, pos, p), expr: ExpressionType::AddNode(n) }, p))
    } else if at_word(toks, pos, "AddE") {
        let (e, p) = parse_add_edge(toks, pos, false)?;
        Ok((Expression { loc: span(toks, pos, p), expr: ExpressionType::AddEdge(e) }, p))
    } else if at_word(toks, pos, "AddV") {
        let (v, p) = parse_add_vector(toks, pos)?;
        Ok((Expression { loc: span(toks, pos, p), expr: ExpressionType::AddVector(v) }, p))
    } else if at_word(toks, pos, "BatchAddV") {
        let (v, p) = parse_batch_add_vector(toks, pos)?;
        Ok((Expression { loc: span(toks, pos, p), expr: ExpressionType::BatchAddVector(v) }, p))
    } else if at_word(toks, pos, "SearchBM25") {
        let (b, p) = parse_bm25_search(toks, pos)?;
        Ok((Expression { loc: span(toks, pos, p), expr: ExpressionType::BM25Search(b) }, p))
    } else if at_word(toks, pos, "SearchV") && !at(toks, pos + 1, Tok::PathSep) {
        let (sv, p) = parse_search_vector(toks, pos)?;
        if at(toks, p, Tok::PathSep) {
            parse_traversal(toks, pos)
        } else {
            Ok((Expression { loc: span(toks, pos, p), expr: ExpressionType::SearchVector(sv) }, p))
        }
    } else if at(toks, pos, Tok::Str) {
        let loc = span(toks, pos, pos + 1);
        Ok((Expression { loc, expr: ExpressionType::StringLiteral(toks[pos].text.clone()) }, pos + 1))
    } else if at(toks, pos, Tok::Int) {
        let v = small_integer_at(toks, pos, false)?;
        Ok((Expression { loc: span(toks, pos, pos + 1), expr: ExpressionType::IntegerLiteral(v) }, pos + 1))
    } else if at(toks, pos, Tok::Minus) && at(toks, pos + 1, Tok::Int) {
        let v = small_integer_at(toks, pos + 1, true)?;
        Ok((Expression { loc: span(toks, pos, pos + 2), expr: ExpressionType::IntegerLiteral(v) }, pos + 2))
    } else if at(toks, pos, Tok::Decimal) {
        let loc = span(toks, pos, pos + 1);
        Ok((Expression { loc, expr: ExpressionType::FloatLiteral(toks[pos].text.clone()) }, pos + 1))
    } else if at_word(toks, pos, "true") || at_word(toks, pos, "false") {
        let b = at_word(toks, pos, "true");
        Ok((Expression { loc: span(toks, pos, pos + 1), expr: ExpressionType::BooleanLiteral(b) }, pos + 1))
    } else if at_word(toks, pos, "NONE") {
        Ok((Expression { loc: span(toks, pos, pos + 1), expr: ExpressionType::Empty }, pos + 1))
    } else {
        parse_traversal(toks, pos)
    }
}

/// Parses a traversal: a start, then `::step` any number of times. A lone
/// variable is an identifier expression.
pub fn parse_traversal(toks: &Vec<Token>, pos: usize) -> (r: Result<(Expression, usize), ParserError>)
    requires
        pos <= toks@.len(),
    ensures
        r matches Ok((_, p)) ==> pos < p <= toks@.len(),
        r matches Ok((e, _)) ==> match e.expr {
            ExpressionType::Identifier(n) => kind_is(toks@, pos as int, Tok::Ident) && n@ == toks@[pos as int].text@,
            ExpressionType::Traversal(tr) => {
                &&& !(tr.steps@.len() == 0 && tr.start is Identifier)
                &&& typed_start_at(toks@, pos as int, true) ==> (tr.start matches StartNode::Node { node_type, .. }
                    && node_type@ == toks@[pos + 2].text@)
                &&& typed_start_at(toks@, pos as int, false) ==> (tr.start matches StartNode::Edge { edge_type, .. }
                    && edge_type@ == toks@[pos + 2].text@)
            },
            _ => false,
        },
        !kind_is(toks@, pos as int, Tok::Ident) ==> r is Err,
        kind_is(toks@, pos as int, Tok::Ident) && !typed_start_at(toks@, pos as int, true) && !typed_start_at(toks@, pos as int, false)
            && !word_is(toks@, pos as int, "SearchV"@) && !word_is(toks@, pos as int, "_"@) && !kind_is(toks@, pos + 1, Tok::PathSep)
            ==> (r matches Ok((e, p)) && p == pos + 1
            && (e.expr matches ExpressionType::Identifier(n) && n@ == toks@[pos as int].text@)),
        word_is(toks@, pos as int, "_"@) && !kind_is(toks@, pos + 1, Tok::PathSep) ==> (r matches Ok((e, p)) && p == pos + 1
            && (e.expr matches ExpressionType::Traversal(tr) && tr.start is Anonymous && tr.steps@.len() == 0)),
    decreases toks@.len() - pos, 3int,
{
    proof {
        reveal_strlit("N");
        reveal_strlit("E");
        reveal_strlit("_");
        reveal_strlit("SearchV");
        assert("_"@[0] == '_' && "N"@[0] == 'N' && "E"@[0] == 'E' && "SearchV"@.len() == 7 && "_"@.len() == 1);
    }
    let (start, mut p) = parse_start_node(toks, pos)?;
    let mut steps: Vec<Step> = Vec::new();
    while at(toks, p, Tok::PathSep)
        invariant
            pos < p <= toks@.len(),
            ((kind_is(toks@, pos as int, Tok::Ident) && !typed_start_at(toks@, pos as int, true)
                && !typed_start_at(toks@, pos as int, false) && !word_is(toks@, pos as int, "SearchV"@))
                || word_is(toks@, pos as int, "_"@)) && !kind_is(toks@, pos + 1, Tok::PathSep)
                ==> p == pos + 1 && steps@.len() == 0,
        decreases toks@.len() - p,
    {
        let (step, q) = parse_step(toks, p + 1)?;
        steps.push(step);
        p = q;
    }
    let loc = span(toks, pos, p);
    if steps.len() == 0 {
        match start {
            StartNode::Identifier(name) => {
                return Ok((Expression { loc, expr: ExpressionType::Identifier(name) }, p));
            },
            _ => {
                let tr = Traversal { start, steps, loc: span(toks, pos, p) };
                return Ok((Expression { loc, expr: ExpressionType::Traversal(Box::new(tr)) }, p));
            },
        }
    }
    let tr = Traversal { start, steps, loc: span(toks, pos, p) };
    Ok((Expression { loc, expr: ExpressionType::Traversal(Box::new(tr)) }, p))
}

/// The comparison that the word at `pos` names, applied to `e`.
fn comparison(toks: &Vec<Token>, pos: usize, e: Expression) -> (r: BooleanOpType)
    requires
        pos < toks@.len(),
    ensures
        r == if word_is(toks@, pos as int, "EQ"@) {
            BooleanOpType::Equal(Box::new(e))
        } else if word_is(toks@, pos as int, "NEQ"@) {
            BooleanOpType::NotEqual(Box::new(e))
        } else if word_is(toks@, pos as int, "GT"@) {
            BooleanOpType::GreaterThan(Box::new(e))
        } else if word_is(toks@, pos as int, "GTE"@) {
            BooleanOpType::GreaterThanOrEqual(Box::new(e))
        } else if word_is(toks@, pos as int, "LT"@) {
            BooleanOpType::LessThan(Box::new(e))
        } else {
            BooleanOpType::LessThanOrEqual(Box::new(e))
        },
{
    if at_word(toks, pos, "EQ") {
        BooleanOpType::Equal(Box::new(e))
    } else if at_word(toks, pos, "NEQ") {
        BooleanOpType::NotEqual(Box::new(e))
    } else if at_word(toks, pos, "GT") {
        BooleanOpType::GreaterThan(Box::new(e))
    } else if at_word(toks, pos, "GTE") {
        BooleanOpType::GreaterThanOrEqual(Box::new(e))
    } else if at_word(toks, pos, "LT") {
        BooleanOpType::LessThan(Box::new(e))
    } else {
        BooleanOpType::LessThanOrEqual(Box::new(e))
    }
}

/// Parses one step of a traversal (what follows `::`).
pub fn parse_step(toks: &Vec<Token>, pos: usize) -> (r: Result<(Step, usize), ParserError>)
    requires
        pos <= toks@.len(),
    ensures
        r matches Ok((_, p)) ==> pos < p <= toks@.len(),
        word_is(toks@, pos as int, "COUNT"@) ==> (r matches Ok((st, p)) && st.step is Count && p == pos + 1),
        word_is(toks@, pos as int, "ID"@) ==> (r matches Ok((st, p)) && st.step is Object && p == pos + 1),
        r matches Ok((st, _)) ==> {
            &&& st.step is Count <==> word_is(toks@, pos as int, "COUNT"@)
            &&& st.step is Where <==> word_is(toks@, pos as int, "WHERE"@)
            &&& st.step is BooleanOperation <==> comparison_word_at(toks@, pos as int)
            &&& st.step is Range <==> word_is(toks@, pos as int, "RANGE"@)
            &&& st.step is Update <==> word_is(toks@, pos as int, "UPDATE"@)
            &&& st.step is OrderBy <==> word_is(toks@, pos as int, "ORDER"@)
            &&& st.step is AddEdge <==> word_is(toks@, pos as int, "AddE"@)
            &&& st.step is Exclude <==> kind_is(toks@, pos as int, Tok::Bang)
            &&& st.step is Closure <==> kind_is(toks@, pos as int, Tok::Pipe)
            &&& st.step is Object <==> (word_is(toks@, pos as int, "ID"@) || kind_is(toks@, pos as int, Tok::LBrace))
        },
    decreases toks@.len() - pos, 2int,
{
    proof {
        reveal_strlit("COUNT");
        reveal_strlit("ID");
        reveal_strlit("WHERE");
        reveal_strlit("EQ");
        reveal_strlit("NEQ");
        reveal_strlit("GT");
        reveal_strlit("GTE");
        reveal_strlit("LT");
        reveal_strlit("LTE");
        reveal_strlit("RANGE");
        reveal_strlit("UPDATE");
        reveal_strlit("ORDER");
        reveal_strlit("AddE");
        assert("COUNT"@.len() == 5 && "COUNT"@[0] == 'C');
        assert("WHERE"@.len() == 5 && "WHERE"@[0] == 'W');
        assert("RANGE"@.len() == 5 && "RANGE"@[0] == 'R');
        assert("ORDER"@.len() == 5 && "ORDER"@[0] == 'O');
        assert("ID"@.len() == 2 && "ID"@[0] == 'I');
        assert("EQ"@.len() == 2 && "EQ"@[0] == 'E');
        assert("GT"@.len() == 2 && "GT"@[0] == 'G');
        assert("LT"@.len() == 2 && "LT"@[0] == 'L');
        assert("NEQ"@.len() == 3 && "NEQ"@[0] == 'N');
        assert("GTE"@.len() == 3 && "GTE"@[0] == 'G');
        assert("LTE"@.len() == 3 && "LTE"@[0] == 'L');
        assert("UPDATE"@.len() == 6);
        assert("AddE"@.len() == 4);
    }
    if at_word(toks, pos, "COUNT") {
        Ok((Step { loc: span(toks, pos, pos + 1), step: StepType::Count }, pos + 1))
    } else if at_word(toks, pos, "ID") {
        let loc = span(toks, pos, pos + 1);
        let key = crate::utils::text::owned("id");
        let value = FieldValue { loc: span(toks, pos, pos + 1), value: FieldValueType::Identifier(crate::utils::text::owned("id")) };
        let field = FieldAddition { key, value, loc: span(toks, pos, pos + 1) };
        let obj = Object { loc: span(toks, pos, pos + 1), fields: vec![field], should_spread: false };
        Ok((Step { loc, step: StepType::Object(obj) }, pos + 1))
    } else if at_word(toks, pos, "WHERE") {
        let p = expect(toks, pos + 1, Tok::LParen, "`(`")?;
        let (e, p) = parse_expression(toks, p)?;
        let p = expect(toks, p, Tok::RParen, "`)`")?;
        Ok((Step { loc: span(toks, pos, p), step: StepType::Where(Box::new(e)) }, p))
    } else if at_word(toks, pos, "EQ") || at_word(toks, pos, "NEQ") || at_word(toks, pos, "GT")
        || at_word(toks, pos, "GTE") || at_word(toks, pos, "LT") || at_word(toks, pos, "LTE") {
        let p = expect(toks, pos + 1, Tok::LParen, "`(`")?;
        let (e, p) = parse_expression(toks, p)?;
        let p = expect(toks, p, Tok::RParen, "`)`")?;
        let op = comparison(toks, pos, e);
        let loc = span(toks, pos, p);
        Ok((Step { loc, step: StepType::BooleanOperation(BooleanOp { loc: span(toks, pos, p), op }) }, p))
    } else if at_word(toks, pos, "RANGE") {
        let p = expect(toks, pos + 1, Tok::LParen, "`(`")?;
        let (a, p) = parse_expression(toks, p)?;
        let p = expect(toks, p, Tok::Comma, "`,`")?;
        let (b, p) = parse_expression(toks, p)?;
        let p = expect(toks, p, Tok::RParen, "`)`")?;
        Ok((Step { loc: span(toks, pos, p), step: StepType::Range((a, b)) }, p))
    } else if at_word(toks, pos, "UPDATE") {
        let p = expect(toks, pos + 1, Tok::LParen, "`(`")?;
        let (fields, _spread, p) = parse_object(toks, p)?;
        let p = expect(toks, p, Tok::RParen, "`)`")?;
        let loc = span(toks, pos, p);
        Ok((Step { loc, step: StepType::Update(Update { fields, loc: span(toks, pos, p) }) }, p))
    } else if at_word(toks, pos, "ORDER") {
        let p = expect(toks, pos + 1, Tok::Lt, "`<`")?;
        let asc = at_word(toks, p, "Asc");
        if !asc && !at_word(toks, p, "Desc") {
            return Err(expected(toks, p, "`Asc` or `Desc`"));
        }
        let p = expect(toks, p + 1, Tok::Gt, "`>`")?;
        let p = expect(toks, p, Tok::LParen, "`(`")?;
        let (e, p) = parse_expression(toks, p)?;
        let p = expect(toks, p, Tok::RParen, "`)`")?;
        let order_by_type = if asc { OrderByType::Asc } else { OrderByType::Desc };
        let loc = span(toks, pos, p);
        Ok((Step { loc, step: StepType::OrderBy(OrderBy { loc: span(toks, pos, p), order_by_type, expression: Box::new(e) }) }, p))
    } else if at_word(toks, pos, "AddE") {
        let (e, p) = parse_add_edge(toks, pos, true)?;
        Ok((Step { loc: span(toks, pos, p), step: StepType::AddEdge(e) }, p))
    } else if at(toks, pos, Tok::LBrace) {
        if at(toks, pos + 1, Tok::RBrace) {
            return Err(expected(toks, pos + 1, "a field: an object must have at least one field"));
        }
        let (fields, should_spread, p) = parse_object(toks, pos)?;
        let loc = span(toks, pos, p);
        Ok((Step { loc, step: StepType::Object(Object { loc: span(toks, pos, p), fields, should_spread }) }, p))
    } else if at(toks, pos, Tok::Bang) {
        let mut p = expect(toks, pos + 1, Tok::LBrace, "`{`")?;
        let mut fields: Vec<(Loc, String)> = Vec::new();
        while !at(toks, p, Tok::RBrace)
            invariant
                pos < p <= toks@.len(),
                kind_is(toks@, pos as int, Tok::Bang),
            decreases toks@.len() - p,
        {
            let (name, q) = expect_ident(toks, p)?;
            fields.push((span(toks, p, q), name));
            p = q;
            if at(toks, p, Tok::Comma) {
                p = p + 1;
            } else if !at(toks, p, Tok::RBrace) {
                return Err(expected(toks, p, "`,` or `}`"));
            }
        }
        let p = p + 1;
        let loc = span(toks, pos, p);
        Ok((Step { loc, step: StepType::Exclude(Exclude { fields, loc: span(toks, pos, p) }) }, p))
    } else if at(toks, pos, Tok::Pipe) {
        let (name, p) = expect_ident(toks, pos + 1)?;
        let p = expect(toks, p, Tok::Pipe, "`|`")?;
        let obj_start = p;
        let (fields, should_spread, p) = parse_object(toks, p)?;
        let object = Object { loc: span(toks, obj_start, p), fields, should_spread };
        let loc = span(toks, pos, p);
        Ok((Step { loc, step: StepType::Closure(Closure { identifier: name, object, loc: span(toks, pos, p) }) }, p))
    } else {
        let (gs, p) = parse_graph_step(toks, pos)?;
        Ok((Step { loc: span(toks, pos, p), step: StepType::Node(gs) }, p))
    }
}

/// Parses `{ field, name: value, .., ... }`: the fields, and whether `..`
/// was among them.
pub fn parse_object(toks: &Vec<Token>, pos: usize) -> (r: Result<(Vec<FieldAddition>, bool, usize), ParserError>)
    requires
        pos <= toks@.len(),
    ensures
        r matches Ok((_, _, p)) ==> pos < p <= toks@.len(),
        !kind_is(toks@, pos as int, Tok::LBrace) ==> r is Err,
        r matches Ok((_, _, p)) ==> kind_is(toks@, pos as int, Tok::LBrace) && kind_is(toks@, p - 1, Tok::RBrace),
        kind_is(toks@, pos as int, Tok::LBrace) && kind_is(toks@, pos + 1, Tok::RBrace)
            ==> (r matches Ok((fields, spread, p)) && fields@.len() == 0 && !spread && p == pos + 2),
    decreases toks@.len() - pos, 1int,
{
    let mut p = expect(toks, pos, Tok::LBrace, "`{`")?;
    let mut fields: Vec<FieldAddition> = Vec::new();
    let mut should_spread = false;
    while !at(toks, p, Tok::RBrace)
        invariant
            pos < p <= toks@.len(),
            kind_is(toks@, pos as int, Tok::LBrace),
            kind_is(toks@, pos + 1, Tok::RBrace) ==> p == pos + 1 && fields@.len() == 0 && !should_spread,
        decreases toks@.len() - p,
    {
        if at(toks, p, Tok::Dot) && at(toks, p + 1, Tok::Dot) {
            should_spread = true;
            p = p + 2;
        } else {
            let start = p;
            let (key, q) = expect_ident(toks, p)?;
            if at(toks, q, Tok::Colon) {
                let vstart = q + 1;
                if at(toks, vstart, Tok::LBrace) {
                    let (inner, _spread, e) = parse_object(toks, vstart)?;
                    let value = FieldValue { loc: span(toks, vstart, e), value: FieldValueType::Fields(inner) };
                    fields.push(FieldAddition { key, value, loc: span(toks, start, e) });
                    p = e;
                } else {
                    let (expr, e) = parse_expression(toks, vstart)?;
                    let vloc = span(toks, vstart, e);
                    let value = match expr.expr {
                        ExpressionType::Traversal(tr) => FieldValue { loc: vloc, value: FieldValueType::Traversal(tr) },
                        other => FieldValue { loc: vloc, value: FieldValueType::Expression(Expression { loc: expr.loc, expr: other }) },
                    };
                    fields.push(FieldAddition { key, value, loc: span(toks, start, e) });
                    p = e;
                }
            } else {
                let value = FieldValue { loc: span(toks, start, q), value: FieldValueType::Identifier(toks[start].text.clone()) };
                fields.push(FieldAddition { key, value, loc: span(toks, start, q) });
                p = q;
            }
        }
        if at(toks, p, Tok::Comma) {
            p = p + 1;
        } else if !at(toks, p, Tok::RBrace) {
            return Err(expected(toks, p, "`,` or `}`"));
        }
    }
    Ok((fields, should_spread, p + 1))
}

} // verus!
