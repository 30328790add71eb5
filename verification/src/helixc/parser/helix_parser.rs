//! Parsing of statements, queries, migrations and whole sources.
use vstd::prelude::*;
use crate::helixc::location::Loc;
use crate::helixc::parser::ast::{
    Assignment, BuiltInMacro, Content, Expression, FieldValue, FieldValueType, ForLoop, ForLoopVars, HxFile, Migration, MigrationItem, MigrationItemMapping, MigrationPropertyMapping, Query, Schema, Source, Statement, StatementType, ValueCast, ValueType,
};
use crate::helixc::parser::cursor::{
    ParserError, at, at_word, expect, expect_ident, expect_word, expected, span, kind_is, word_is,
};
use crate::helixc::parser::definitions::{
    distinct_parameter_names, names_type, parse_edge_def, parse_field_type, parse_node_def, parse_parameters,
    parse_vector_def,
};
use crate::helixc::parser::expressions::parse_expression;
use crate::helixc::parser::lexer::{Tok, Token, token_fits, tokenize};
use crate::helixc::parser::values::parse_value_type;
use crate::utils::decimal::parse_numeral;
use crate::utils::text::{chars_of, owned, push_str, string_from_chars, string_push};

verus! {

/// The parser of HelixQL sources.
pub struct HelixParser {}

/// Whether a new top-level item starts at `pos`: a query, a macro before
/// one, a schema item or block, or a migration.
pub open spec fn item_starts(toks: Seq<Token>, pos: int) -> bool {
    ||| word_is(toks, pos, "QUERY"@)
    ||| kind_is(toks, pos, Tok::Hash)
    ||| word_is(toks, pos, "MIGRATION"@)
    ||| ((word_is(toks, pos, "N"@) || word_is(toks, pos, "E"@) || word_is(toks, pos, "V"@)
        || word_is(toks, pos, "schema"@)) && kind_is(toks, pos + 1, Tok::PathSep))
}

fn at_item_start(toks: &Vec<Token>, pos: usize) -> (r: bool)
    ensures
        r == item_starts(toks@, pos as int),
{
    at_word(toks, pos, "QUERY") || at(toks, pos, Tok::Hash) || at_word(toks, pos, "MIGRATION")
        || ((at_word(toks, pos, "N") || at_word(toks, pos, "E") || at_word(toks, pos, "V")
        || at_word(toks, pos, "schema")) && pos < toks.len() && at(toks, pos + 1, Tok::PathSep))
}

/// Parses what a loop binds: a name, `{a, b}`, or `name.field`.
/// Where a list of names separated by commas (one may end it) and closed
/// by `}` that starts at `p` ends, if one does.
pub open spec fn name_list_end(toks: Seq<Token>, p: int) -> Option<int>
    decreases toks.len() - p,
{
    if p < 0 || p >= toks.len() {
        None
    } else if kind_is(toks, p, Tok::RBrace) {
        Some(p + 1)
    } else if kind_is(toks, p, Tok::Ident) {
        if kind_is(toks, p + 1, Tok::Comma) {
            name_list_end(toks, p + 2)
        } else if kind_is(toks, p + 1, Tok::RBrace) {
            Some(p + 2)
        } else {
            None
        }
    } else {
        None
    }
}

/// Parses the variables of a loop: `name`, `name.field` or
/// `{ name, ... }`.
fn parse_for_vars(toks: &Vec<Token>, pos: usize) -> (r: Result<(ForLoopVars, usize), ParserError>)
    requires
        pos <= toks@.len(),
    ensures
        r matches Ok((_, p)) ==> pos < p <= toks@.len(),
        kind_is(toks@, pos as int, Tok::LBrace) ==> (r is Ok <==> name_list_end(toks@, pos + 1) is Some)
            && (r matches Ok((v, p)) ==> v is ObjectDestructuring && Some(p as int) == name_list_end(toks@, pos + 1)),
        kind_is(toks@, pos as int, Tok::Ident) && !kind_is(toks@, pos + 1, Tok::Dot) ==> (r matches Ok((
            ForLoopVars::Identifier { name, .. }, p)) && name@ == toks@[pos as int].text@ && p == pos + 1),
        kind_is(toks@, pos as int, Tok::Ident) && kind_is(toks@, pos + 1, Tok::Dot) ==> (r is Ok <==> kind_is(toks@, pos + 2, Tok::Ident))
            && (r matches Ok((v, p)) ==> v matches ForLoopVars::ObjectAccess { name, field, .. }
                && name@ == toks@[pos as int].text@ && field@ == toks@[pos + 2].text@ && p == pos + 3),
        !kind_is(toks@, pos as int, Tok::LBrace) && !kind_is(toks@, pos as int, Tok::Ident) ==> r is Err,
{
    if at(toks, pos, Tok::LBrace) {
        let mut p = pos + 1;
        let mut fields: Vec<(Loc, String)> = Vec::new();
        while !at(toks, p, Tok::RBrace)
            invariant
                pos < p <= toks@.len(),
                name_list_end(toks@, p as int) == name_list_end(toks@, pos + 1),
                kind_is(toks@, pos as int, Tok::LBrace),
            decreases toks@.len() - p,
        {
            let (name, q) = expect_ident(toks, p)?;
            fields.push((span(toks, p, q), name));
            p = q;
            if at(toks, p, Tok::Comma) {
                p = p + 1;
            } else if !at(toks, p, Tok::RBrace) {
                return Err(expected(toks, p, "`,` or `}`"));
            }
            proof {
                if kind_is(toks@, p as int, Tok::RBrace) {
                    assert(name_list_end(toks@, p as int) == Some(p + 1));
                }
            }
        }
        proof {
            if p < toks@.len() {
                assert(name_list_end(toks@, p as int) == Some(p + 1));
            }
        }
        let p = p + 1;
        Ok((ForLoopVars::ObjectDestructuring { fields, loc: span(toks, pos, p) }, p))
    } else {
        let (name, p) = expect_ident(toks, pos)?;
        if at(toks, p, Tok::Dot) {
            let (field, q) = expect_ident(toks, p + 1)?;
            Ok((ForLoopVars::ObjectAccess { name, field, loc: span(toks, pos, q) }, q))
        } else {
            Ok((ForLoopVars::Identifier { name, loc: span(toks, pos, p) }, p))
        }
    }
}

/// Parses a statement: `name <- expression`, `DROP expression`, a loop, or
/// an expression.
pub fn parse_statement(toks: &Vec<Token>, pos: usize) -> (r: Result<(Statement, usize), ParserError>)
    requires
        pos <= toks@.len(),
    ensures
        r matches Ok((_, p)) ==> pos < p <= toks@.len(),
        r matches Ok((st, _)) ==> {
            &&& (st.statement is Drop <==> word_is(toks@, pos as int, "DROP"@))
            &&& (st.statement is ForLoop <==> word_is(toks@, pos as int, "FOR"@))
            &&& (st.statement is Assignment <==> !word_is(toks@, pos as int, "DROP"@) && !word_is(toks@, pos as int, "FOR"@)
                && kind_is(toks@, pos as int, Tok::Ident) && kind_is(toks@, pos + 1, Tok::Arrow))
            &&& st.statement matches StatementType::Assignment(a) ==> a.variable@ == toks@[pos as int].text@
        },
        word_is(toks@, pos as int, "DROP"@) && kind_is(toks@, pos + 1, Tok::Str)
            ==> (r matches Ok((st, p)) && st.statement is Drop && p == pos + 2),
        kind_is(toks@, pos as int, Tok::Ident) && !word_is(toks@, pos as int, "DROP"@) && !word_is(toks@, pos as int, "FOR"@)
            && kind_is(toks@, pos + 1, Tok::Arrow) && kind_is(toks@, pos + 2, Tok::Str)
            ==> (r matches Ok((st, p)) && st.statement is Assignment && p == pos + 3),
        word_is(toks@, pos as int, "FOR"@) && kind_is(toks@, pos + 1, Tok::Ident) && !kind_is(toks@, pos + 2, Tok::Dot)
            && word_is(toks@, pos + 2, "IN"@) && kind_is(toks@, pos + 3, Tok::Ident) && kind_is(toks@, pos + 4, Tok::LBrace)
            && kind_is(toks@, pos + 5, Tok::RBrace) ==> (r matches Ok((st, p)) && st.statement is ForLoop && p == pos + 6),
        word_is(toks@, pos as int, "FOR"@) && !kind_is(toks@, pos + 1, Tok::Ident) && !kind_is(toks@, pos + 1, Tok::LBrace) ==> r is Err,
        kind_is(toks@, pos as int, Tok::Str) ==> (r matches Ok((st, p)) && st.statement is Expression && p == pos + 1),
    decreases toks@.len() - pos, 1int,
{
    proof {
        reveal_strlit("DROP");
        reveal_strlit("FOR");
        assert("DROP"@.len() == 4 && "FOR"@.len() == 3);
    }
    if at_word(toks, pos, "DROP") {
        let (e, p) = parse_expression(toks, pos + 1)?;
        Ok((Statement { loc: span(toks, pos, p), statement: StatementType::Drop(e) }, p))
    } else if at_word(toks, pos, "FOR") {
        let (variable, p) = parse_for_vars(toks, pos + 1)?;
        let p = expect_word(toks, p, "IN")?;
        let in_at = p;
        let (in_name, p) = expect_ident(toks, p)?;
        let (statements, p) = parse_block(toks, p)?;
        let loc = span(toks, pos, p);
        let fl = ForLoop { variable, in_variable: (span(toks, in_at, in_at + 1), in_name), statements, loc };
        Ok((Statement { loc: span(toks, pos, p), statement: StatementType::ForLoop(fl) }, p))
    } else if at(toks, pos, Tok::Ident) && at(toks, pos + 1, Tok::Arrow) {
        let variable = toks[pos].text.clone();
        let (value, p) = parse_expression(toks, pos + 2)?;
        let loc = span(toks, pos, p);
        let a = Assignment { variable, value, loc: span(toks, pos, p) };
        Ok((Statement { loc, statement: StatementType::Assignment(a) }, p))
    } else {
        let (e, p) = parse_expression(toks, pos)?;
        Ok((Statement { loc: span(toks, pos, p), statement: StatementType::Expression(e) }, p))
    }
}

/// Parses `{ statements }`.
pub fn parse_block(toks: &Vec<Token>, pos: usize) -> (r: Result<(Vec<Statement>, usize), ParserError>)
    requires
        pos <= toks@.len(),
    ensures
        r matches Ok((_, p)) ==> pos < p <= toks@.len(),
        !kind_is(toks@, pos as int, Tok::LBrace) ==> r is Err,
        r matches Ok((_, p)) ==> kind_is(toks@, pos as int, Tok::LBrace) && kind_is(toks@, p - 1, Tok::RBrace),
        kind_is(toks@, pos as int, Tok::LBrace) && kind_is(toks@, pos + 1, Tok::RBrace)
            ==> (r matches Ok((sts, p)) && sts@.len() == 0 && p == pos + 2),
        kind_is(toks@, pos as int, Tok::LBrace) && kind_is(toks@, pos + 1, Tok::Str) && kind_is(toks@, pos + 2, Tok::RBrace)
            ==> (r matches Ok((sts, p)) && sts@.len() == 1 && p == pos + 3),
    decreases toks@.len() - pos, 0int,
{
    let mut p = expect(toks, pos, Tok::LBrace, "`{`")?;
    let mut statements: Vec<Statement> = Vec::new();
    while !at(toks, p, Tok::RBrace)
        invariant
            pos < p <= toks@.len(),
            kind_is(toks@, pos as int, Tok::LBrace),
            kind_is(toks@, pos + 1, Tok::RBrace) ==> p == pos + 1 && statements@.len() == 0,
            kind_is(toks@, pos + 1, Tok::Str) && kind_is(toks@, pos + 2, Tok::RBrace)
                ==> (p == pos + 1 && statements@.len() == 0) || (p == pos + 2 && statements@.len() == 1),
        decreases toks@.len() - p,
    {
        let (s, q) = parse_statement(toks, p)?;
        statements.push(s);
        p = q;
    }
    Ok((statements, p + 1))
}

/// Parses `#[mcp]` or `#[model("name")]`.
fn parse_macro(toks: &Vec<Token>, pos: usize) -> (r: Result<(BuiltInMacro, usize), ParserError>)
    requires
        pos <= toks@.len(),
    ensures
        r matches Ok((_, p)) ==> pos < p <= toks@.len(),
        r is Ok <==> kind_is(toks@, pos as int, Tok::Hash) && kind_is(toks@, pos + 1, Tok::LBracket) && (
            (word_is(toks@, pos + 2, "mcp"@) && kind_is(toks@, pos + 3, Tok::RBracket))
            || (word_is(toks@, pos + 2, "model"@) && kind_is(toks@, pos + 3, Tok::LParen)
                && kind_is(toks@, pos + 4, Tok::Str) && kind_is(toks@, pos + 5, Tok::RParen)
                && kind_is(toks@, pos + 6, Tok::RBracket))),
        r matches Ok((BuiltInMacro::MCP, p)) ==> word_is(toks@, pos + 2, "mcp"@) && p == pos + 4,
        r matches Ok((BuiltInMacro::Model(name), p)) ==> word_is(toks@, pos + 2, "model"@)
            && name@ == toks@[pos + 4].text@ && p == pos + 7,
{
    proof {
        reveal_strlit("mcp");
        reveal_strlit("model");
        assert("mcp"@ != "model"@) by {
            assert("mcp"@.len() == 3 && "model"@.len() == 5);
        }
    }
    let p = expect(toks, pos, Tok::Hash, "`#`")?;
    let p = expect(toks, p, Tok::LBracket, "`[`")?;
    if at_word(toks, p, "mcp") {
        let p = expect(toks, p + 1, Tok::RBracket, "`]`")?;
        Ok((BuiltInMacro::MCP, p))
    } else if at_word(toks, p, "model") {
        let p = expect(toks, p + 1, Tok::LParen, "`(`")?;
        if !at(toks, p, Tok::Str) {
            return Err(expected(toks, p, "a model name"));
        }
        let name = toks[p].text.clone();
        let p = expect(toks, p + 1, Tok::RParen, "`)`")?;
        let p = expect(toks, p, Tok::RBracket, "`]`")?;
        Ok((BuiltInMacro::Model(name), p))
    } else {
        Err(expected(toks, p, "`mcp` or `model`"))
    }
}

/// The text of characters `a..b`, or nothing where that is not a range of
/// `chars`.
fn text_between(chars: &Vec<char>, a: usize, b: usize) -> (r: String)
    ensures
        a <= b <= chars@.len() ==> r@ == chars@.subrange(a as int, b as int),
{
    if a <= b && b <= chars.len() {
        string_from_chars(chars, a, b)
    } else {
        String::new()
    }
}

/// Parses a query: an optional macro, `QUERY name(parameters) =>`, its
/// statements, and `RETURN` values.
pub fn parse_query(toks: &Vec<Token>, pos: usize, chars: &Vec<char>, filepath: &String) -> (r: Result<
    (Query, usize),
    ParserError,
>)
    requires
        pos <= toks@.len(),
    ensures
        r matches Ok((q, p)) ==> pos < p <= toks@.len() && distinct_parameter_names(q.parameters@)
            && q.loc.filepath == Some(*filepath) && q.return_values@.len() >= 1,
        r is Ok && !kind_is(toks@, pos as int, Tok::Hash) ==> word_is(toks@, pos as int, "QUERY"@),
        r matches Ok((q, _)) ==> (q.built_in_macro is Some <==> kind_is(toks@, pos as int, Tok::Hash)),
        !kind_is(toks@, pos as int, Tok::Hash) ==> (r matches Ok((q, _)) ==> q.name@ == toks@[pos + 1].text@),
        !kind_is(toks@, pos as int, Tok::Hash) && word_is(toks@, pos as int, "QUERY"@) && !(kind_is(toks@, pos + 1, Tok::Ident)
            && kind_is(toks@, pos + 2, Tok::LParen)) ==> r is Err,
        word_is(toks@, pos as int, "QUERY"@) && kind_is(toks@, pos + 1, Tok::Ident)
            && kind_is(toks@, pos + 2, Tok::LParen) && kind_is(toks@, pos + 3, Tok::RParen) && kind_is(toks@, pos + 4, Tok::FatArrow)
            && word_is(toks@, pos + 5, "RETURN"@) && kind_is(toks@, pos + 6, Tok::Str) && !kind_is(toks@, pos + 7, Tok::Comma)
            ==> (r matches Ok((q, p)) && p == pos + 7 && q.parameters@.len() == 0 && q.statements@.len() == 0
            && q.return_values@.len() == 1),
{
    proof { reveal_strlit("QUERY"); }
    let (built_in_macro, p) = if at(toks, pos, Tok::Hash) {
        let (m, p) = parse_macro(toks, pos)?;
        (Some(m), p)
    } else {
        (None, pos)
    };
    let p = expect_word(toks, p, "QUERY")?;
    let (name, p) = expect_ident(toks, p)?;
    let (parameters, p) = parse_parameters(toks, p)?;
    let mut p = expect(toks, p, Tok::FatArrow, "`=>`")?;
    let mut statements: Vec<Statement> = Vec::new();
    while p < toks.len() && !at_word(toks, p, "RETURN") && !at_item_start(toks, p)
        invariant
            pos < p <= toks@.len(),
            word_is(toks@, pos as int, "QUERY"@) && kind_is(toks@, pos + 1, Tok::Ident)
                && kind_is(toks@, pos + 2, Tok::LParen) && kind_is(toks@, pos + 3, Tok::RParen) && kind_is(toks@, pos + 4, Tok::FatArrow)
                && word_is(toks@, pos + 5, "RETURN"@) && kind_is(toks@, pos + 6, Tok::Str) && !kind_is(toks@, pos + 7, Tok::Comma)
                ==> p == pos + 5 && statements@.len() == 0 && parameters@.len() == 0,
        decreases toks@.len() - p,
    {
        let (s, q) = parse_statement(toks, p)?;
        statements.push(s);
        p = q;
    }
    let mut return_values: Vec<Expression> = Vec::new();
    if !at_word(toks, p, "RETURN") {
        return Err(expected(toks, p, "`RETURN`"));
    }
    {
        let (e, q) = parse_expression(toks, p + 1)?;
        return_values.push(e);
        p = q;
        while at(toks, p, Tok::Comma)
            invariant
                pos < p <= toks@.len(),
                return_values@.len() >= 1,
                word_is(toks@, pos as int, "QUERY"@) && kind_is(toks@, pos + 1, Tok::Ident)
                    && kind_is(toks@, pos + 2, Tok::LParen) && kind_is(toks@, pos + 3, Tok::RParen) && kind_is(toks@, pos + 4, Tok::FatArrow)
                    && word_is(toks@, pos + 5, "RETURN"@) && kind_is(toks@, pos + 6, Tok::Str) && !kind_is(toks@, pos + 7, Tok::Comma)
                    ==> p == pos + 7 && return_values@.len() == 1 && statements@.len() == 0 && parameters@.len() == 0,
            decreases toks@.len() - p,
        {
            let (e, q) = parse_expression(toks, p + 1)?;
            return_values.push(e);
            p = q;
        }
    }
    let original_query = text_between(chars, toks[pos].start, toks[p - 1].end);
    let mut loc = span(toks, pos, p);
    loc.filepath = Some(filepath.clone());
    Ok((Query { original_query, built_in_macro, name, parameters, statements, return_values, loc }, p))
}

/// The word before `::` that names the kind of a migration item.
pub open spec fn item_word(item: MigrationItem) -> Seq<char> {
    match item {
        MigrationItem::Node(_) => "N"@,
        MigrationItem::Edge(_) => "E"@,
        MigrationItem::Vector(_) => "V"@,
    }
}

/// The name of the type a migration item names.
pub open spec fn item_type_name(item: MigrationItem) -> Seq<char> {
    match item {
        MigrationItem::Node(n) => n@,
        MigrationItem::Edge(n) => n@,
        MigrationItem::Vector(n) => n@,
    }
}

/// Whether `N::Name`, `E::Name` or `V::Name` stands at `pos`.
pub open spec fn migration_item_at(toks: Seq<Token>, pos: int) -> bool {
    &&& (word_is(toks, pos, "N"@) || word_is(toks, pos, "E"@) || word_is(toks, pos, "V"@))
    &&& kind_is(toks, pos + 1, Tok::PathSep)
    &&& kind_is(toks, pos + 2, Tok::Ident)
}

/// Parses `N::Name`, `E::Name` or `V::Name` in a migration.
fn parse_migration_item(toks: &Vec<Token>, pos: usize) -> (r: Result<((Loc, MigrationItem), usize), ParserError>)
    requires
        pos <= toks@.len(),
    ensures
        r is Ok <==> migration_item_at(toks@, pos as int),
        r matches Ok((it, p)) ==> {
            &&& p == pos + 3 && p <= toks@.len()
            &&& word_is(toks@, pos as int, item_word(it.1))
            &&& item_type_name(it.1) == toks@[pos + 2].text@
        },
{
    proof {
        reveal_strlit("N");
        reveal_strlit("E");
        reveal_strlit("V");
    }
    let kind_at = pos;
    if !(at_word(toks, pos, "N") || at_word(toks, pos, "E") || at_word(toks, pos, "V")) {
        return Err(expected(toks, pos, "`N::`, `E::` or `V::`"));
    }
    let p = expect(toks, pos + 1, Tok::PathSep, "`::`")?;
    let (name, p) = expect_ident(toks, p)?;
    let item = if at_word(toks, kind_at, "N") {
        MigrationItem::Node(name)
    } else if at_word(toks, kind_at, "E") {
        MigrationItem::Edge(name)
    } else {
        MigrationItem::Vector(name)
    };
    Ok(((span(toks, pos, p), item), p))
}

/// A copy of a migration item.
fn copy_item(item: &MigrationItem) -> (r: MigrationItem)
    ensures
        r == *item,
{
    match item {
        MigrationItem::Node(n) => MigrationItem::Node(n.clone()),
        MigrationItem::Edge(n) => MigrationItem::Edge(n.clone()),
        MigrationItem::Vector(n) => MigrationItem::Vector(n.clone()),
    }
}

/// Parses `name: value` with an optional `AS type` in a migration; a
/// property parsed so has no default.
fn parse_property_mapping(toks: &Vec<Token>, pos: usize) -> (r: Result<(MigrationPropertyMapping, usize), ParserError>)
    requires
        pos <= toks@.len(),
    ensures
        r matches Ok((_, p)) ==> pos < p <= toks@.len(),
        r matches Ok((pm, _)) ==> {
            &&& kind_is(toks@, pos as int, Tok::Ident) && kind_is(toks@, pos + 1, Tok::Colon)
            &&& pm.property_name.1@ == toks@[pos as int].text@
            &&& pm.default is None
        },
        !(kind_is(toks@, pos as int, Tok::Ident) && kind_is(toks@, pos + 1, Tok::Colon)) ==> r is Err,
        kind_is(toks@, pos + 2, Tok::Decimal) ==> r is Err,
        kind_is(toks@, pos as int, Tok::Ident) && kind_is(toks@, pos + 1, Tok::Colon) && (kind_is(toks@, pos + 2, Tok::Str)
            || (kind_is(toks@, pos + 2, Tok::Ident) && !word_is(toks@, pos + 2, "true"@) && !word_is(toks@, pos + 2, "false"@))) ==> {
            &&& !word_is(toks@, pos + 3, "AS"@) ==> (r matches Ok((pm, p)) && pm.cast is None && p == pos + 3)
            &&& word_is(toks@, pos + 3, "AS"@) && kind_is(toks@, pos + 4, Tok::Ident) ==> (r matches Ok((pm, p))
                && p == pos + 5 && (pm.cast matches Some(c) && names_type(toks@[pos + 4].text@, c.cast_to)))
        },
{
    let (name, p) = expect_ident(toks, pos)?;
    let p = expect(toks, p, Tok::Colon, "`:`")?;
    let vstart = p;
    let (v, p) = parse_value_type(toks, p)?;
    let vloc = span(toks, vstart, p);
    let value = match v {
        ValueType::Literal { value, loc: _ } => FieldValueType::Literal(value),
        ValueType::Identifier { value, loc: _ } => FieldValueType::Identifier(value),
        _ => { return Err(expected(toks, vstart, "a literal or a field name")); },
    };
    let (cast, p) = if at_word(toks, p, "AS") {
        let (ft, q) = parse_field_type(toks, p + 1)?;
        (Some(ValueCast { loc: span(toks, p, q), cast_to: ft }), q)
    } else {
        (None, p)
    };
    Ok((
        MigrationPropertyMapping {
            property_name: (span(toks, pos, pos + 1), name),
            property_value: FieldValue { loc: vloc, value },
            default: None,
            cast,
            loc: span(toks, pos, p),
        },
        p,
    ))
}

/// Whether `schema::N` stands at `pos`, with a version `N` that fits in a
/// `usize`.
pub open spec fn version_at_tok(toks: Seq<Token>, pos: int) -> bool {
    &&& word_is(toks, pos, "schema"@)
    &&& kind_is(toks, pos + 1, Tok::PathSep)
    &&& kind_is(toks, pos + 2, Tok::Int)
    &&& toks[pos + 2].text@.len() > 0
    &&& crate::utils::decimal::all_digits(toks[pos + 2].text@)
    &&& crate::utils::decimal::numeral_value(toks[pos + 2].text@) <= usize::MAX
}

/// Parses `schema::N` and gives the version.
fn parse_version(toks: &Vec<Token>, pos: usize) -> (r: Result<((Loc, usize), usize), ParserError>)
    requires
        pos <= toks@.len(),
    ensures
        r is Ok <==> version_at_tok(toks@, pos as int),
        r matches Ok((v, p)) ==> p == pos + 3 && p <= toks@.len()
            && v.1 == crate::utils::decimal::numeral_value(toks@[pos + 2].text@),
{
    let p = expect_word(toks, pos, "schema")?;
    let p = expect(toks, p, Tok::PathSep, "`::`")?;
    if !at(toks, p, Tok::Int) {
        return Err(expected(toks, p, "a schema version"));
    }
    match parse_numeral(toks[p].text.as_str()) {
        Some(v) => {
            if v <= usize::MAX as u128 {
                Ok(((span(toks, p, p + 1), v as usize), p + 1))
            } else {
                Err(expected(toks, p, "a smaller schema version"))
            }
        },
        None => Err(expected(toks, p, "a schema version")),
    }
}

/// Parses `MIGRATION schema::A => schema::B { item => item { mappings } ... }`.
pub fn parse_migration(toks: &Vec<Token>, pos: usize, filepath: &String) -> (r: Result<(Migration, usize), ParserError>)
    requires
        pos <= toks@.len(),
    ensures
        r matches Ok((m, p)) ==> pos < p <= toks@.len() && m.loc.filepath == Some(*filepath),
        r matches Ok((m, _)) ==> {
            &&& word_is(toks@, pos as int, "MIGRATION"@)
            &&& version_at_tok(toks@, pos + 1) && version_at_tok(toks@, pos + 5)
            &&& kind_is(toks@, pos + 4, Tok::FatArrow)
            &&& m.from_version.1 == crate::utils::decimal::numeral_value(toks@[pos + 3].text@)
            &&& m.to_version.1 == crate::utils::decimal::numeral_value(toks@[pos + 7].text@)
            &&& forall|k: int, j: int| 0 <= k < m.body@.len() && 0 <= j < m.body@[k].remappings@.len()
                ==> (#[trigger] m.body@[k].remappings@[j]).default is None
        },
        !(word_is(toks@, pos as int, "MIGRATION"@) && version_at_tok(toks@, pos + 1) && kind_is(toks@, pos + 4, Tok::FatArrow)
            && version_at_tok(toks@, pos + 5) && kind_is(toks@, pos + 8, Tok::LBrace)) ==> r is Err,
        word_is(toks@, pos as int, "MIGRATION"@) && version_at_tok(toks@, pos + 1) && kind_is(toks@, pos + 4, Tok::FatArrow)
            && version_at_tok(toks@, pos + 5) && kind_is(toks@, pos + 8, Tok::LBrace) && kind_is(toks@, pos + 9, Tok::RBrace)
            ==> (r matches Ok((m, p)) && m.body@.len() == 0 && p == pos + 10),
{
    let p = expect_word(toks, pos, "MIGRATION")?;
    let (from_version, p) = parse_version(toks, p)?;
    let p = expect(toks, p, Tok::FatArrow, "`=>`")?;
    let (to_version, p) = parse_version(toks, p)?;
    let mut p = expect(toks, p, Tok::LBrace, "`{`")?;
    let mut body: Vec<MigrationItemMapping> = Vec::new();
    while !at(toks, p, Tok::RBrace)
        invariant
            pos < p <= toks@.len(),
            forall|k: int, j: int| 0 <= k < body@.len() && 0 <= j < body@[k].remappings@.len()
                ==> (#[trigger] body@[k].remappings@[j]).default is None,
            word_is(toks@, pos as int, "MIGRATION"@) && version_at_tok(toks@, pos + 1) && kind_is(toks@, pos + 4, Tok::FatArrow)
                && version_at_tok(toks@, pos + 5) && kind_is(toks@, pos + 8, Tok::LBrace) && kind_is(toks@, pos + 9, Tok::RBrace)
                ==> p == pos + 9 && body@.len() == 0,
        decreases toks@.len() - p,
    {
        let start = p;
        let (from_item, q) = parse_migration_item(toks, p)?;
        let q = expect(toks, q, Tok::FatArrow, "`=>`")?;
        let (to_item, q) = if at_word(toks, q, "_") {
            let copy = (from_item.0.clone(), copy_item(&from_item.1));
            let q = if at(toks, q + 1, Tok::PathSep) { q + 2 } else { q + 1 };
            (copy, q)
        } else {
            parse_migration_item(toks, q)?
        };
        let mut q = expect(toks, q, Tok::LBrace, "`{`")?;
        let mut remappings: Vec<MigrationPropertyMapping> = Vec::new();
        while !at(toks, q, Tok::RBrace)
            invariant
                pos < p < q <= toks@.len(),
                forall|j: int| 0 <= j < remappings@.len() ==> (#[trigger] remappings@[j]).default is None,
                !(word_is(toks@, pos as int, "MIGRATION"@) && version_at_tok(toks@, pos + 1) && kind_is(toks@, pos + 4, Tok::FatArrow)
                    && version_at_tok(toks@, pos + 5) && kind_is(toks@, pos + 8, Tok::LBrace) && kind_is(toks@, pos + 9, Tok::RBrace)),
            decreases toks@.len() - q,
        {
            let (m, e) = parse_property_mapping(toks, q)?;
            remappings.push(m);
            q = e;
            if at(toks, q, Tok::Comma) {
                q = q + 1;
            } else if !at(toks, q, Tok::RBrace) {
                return Err(expected(toks, q, "`,` or `}`"));
            }
        }
        q = q + 1;
        body.push(MigrationItemMapping { from_item, to_item, remappings, loc: span(toks, start, q) });
        p = q;
        if at(toks, p, Tok::Comma) {
            p = p + 1;
        }
    }
    let p = p + 1;
    let mut loc = span(toks, pos, p);
    loc.filepath = Some(filepath.clone());
    Ok((Migration { from_version, to_version, body, loc }, p))
}

/// Whether a parsed query is whole: its parameters have distinct names and
/// it returns at least one value.
pub open spec fn query_whole(q: Query) -> bool {
    distinct_parameter_names(q.parameters@) && q.return_values@.len() >= 1
}

/// Whether no two schemas have the same version.
pub open spec fn distinct_versions(schemas: Seq<Schema>) -> bool {
    forall|i: int, j: int|
        0 <= i < j < schemas.len() ==> #[trigger] schemas[i].version.1 != #[trigger] schemas[j].version.1
}

/// The texts of the files, each followed by a line break.
pub open spec fn joined_contents(files: Seq<HxFile>) -> Seq<char>
    decreases files.len(),
{
    if files.len() == 0 {
        Seq::empty()
    } else {
        joined_contents(files.drop_last()) + files.last().content@ + seq!['\n']
    }
}

/// The index of the schema of version `v`, adding an empty one where there
/// is none.
fn schema_slot(schemas: &mut Vec<Schema>, v: usize, loc: &Loc) -> (r: usize)
    requires
        distinct_versions(old(schemas)@),
    ensures
        distinct_versions(final(schemas)@),
        r < final(schemas)@.len(),
        final(schemas)@[r as int].version.1 == v,
        final(schemas)@.len() >= old(schemas)@.len(),
{
    let mut i: usize = 0;
    while i < schemas.len()
        invariant
            i <= schemas@.len(),
            schemas@ == old(schemas)@,
            distinct_versions(schemas@),
            forall|j: int| 0 <= j < i ==> #[trigger] schemas@[j].version.1 != v,
        decreases schemas.len() - i,
    {
        if schemas[i].version.1 == v {
            return i;
        }
        i = i + 1;
    }
    schemas.push(Schema {
        loc: loc.clone(),
        version: (loc.clone(), v),
        node_schemas: Vec::new(),
        edge_schemas: Vec::new(),
        vector_schemas: Vec::new(),
    });
    schemas.len() - 1
}

/// Parses a node, edge or vector definition into the schema of version `v`.
fn parse_schema_item(toks: &Vec<Token>, pos: usize, v: usize, filepath: &String, schemas: &mut Vec<Schema>) -> (r: Result<usize, ParserError>)
    requires
        pos <= toks@.len(),
        distinct_versions(old(schemas)@),
    ensures
        distinct_versions(final(schemas)@),
        r matches Ok(p) ==> pos < p <= toks@.len(),
        !(word_is(toks@, pos as int, "N"@) || word_is(toks@, pos as int, "E"@) || word_is(toks@, pos as int, "V"@)) ==> r is Err,
        r is Ok ==> exists|i: int| 0 <= i < final(schemas)@.len() && #[trigger] final(schemas)@[i].version.1 == v,
        word_is(toks@, pos as int, "N"@) && kind_is(toks@, pos + 1, Tok::PathSep) && kind_is(toks@, pos + 2, Tok::Ident)
            && kind_is(toks@, pos + 3, Tok::LBrace) && kind_is(toks@, pos + 4, Tok::RBrace) ==> (r matches Ok(p) && p == pos + 5),
        word_is(toks@, pos as int, "V"@) && kind_is(toks@, pos + 1, Tok::PathSep) && kind_is(toks@, pos + 2, Tok::Ident)
            && !kind_is(toks@, pos + 3, Tok::LBrace) ==> (r matches Ok(p) && p == pos + 3),
{
    proof {
        reveal_strlit("N");
        reveal_strlit("E");
        reveal_strlit("V");
        assert("N"@[0] == 'N' && "E"@[0] == 'E' && "V"@[0] == 'V');
    }
    if at_word(toks, pos, "N") {
        let (n, p) = parse_node_def(toks, pos, filepath)?;
        let i = schema_slot(schemas, v, &n.loc);
        let mut s = schemas.remove(i);
        s.node_schemas.push(n);
        schemas.insert(i, s);
        assert(schemas@[i as int].version.1 == v);
        Ok(p)
    } else if at_word(toks, pos, "E") {
        let (e, p) = parse_edge_def(toks, pos, filepath)?;
        let i = schema_slot(schemas, v, &e.loc);
        let mut s = schemas.remove(i);
        s.edge_schemas.push(e);
        schemas.insert(i, s);
        assert(schemas@[i as int].version.1 == v);
        Ok(p)
    } else if at_word(toks, pos, "V") {
        let (vs, p) = parse_vector_def(toks, pos, filepath)?;
        let i = schema_slot(schemas, v, &vs.loc);
        let mut s = schemas.remove(i);
        s.vector_schemas.push(vs);
        schemas.insert(i, s);
        assert(schemas@[i as int].version.1 == v);
        Ok(p)
    } else {
        Err(expected(toks, pos, "`N::`, `E::` or `V::`"))
    }
}

/// Parses the items of one text into `source`: the text of the file named
/// `name`.
fn parse_text(text: &String, name: &String, source: &mut Source) -> (r: Result<(), ParserError>)
    requires
        distinct_versions(old(source).schema@),
        forall|i: int| 0 <= i < old(source).queries@.len()
            ==> query_whole(#[trigger] old(source).queries@[i]),
    ensures
        final(source).source == old(source).source,
        distinct_versions(final(source).schema@),
        forall|i: int| 0 <= i < final(source).queries@.len()
            ==> query_whole(#[trigger] final(source).queries@[i]),
        r is Ok ==> final(source).migrations@.len() >= old(source).migrations@.len()
            && final(source).migrations@.subrange(0, old(source).migrations@.len() as int) == old(source).migrations@
            && final(source).queries@.len() >= old(source).queries@.len()
            && final(source).queries@.subrange(0, old(source).queries@.len() as int) == old(source).queries@,
        text@.len() == 0 ==> r is Ok && final(source).schema@ == old(source).schema@
            && final(source).migrations@ == old(source).migrations@ && final(source).queries@ == old(source).queries@,
{
    let chars = chars_of(text.as_str());
    let toks = match tokenize(&chars) {
        Ok(t) => t,
        Err(e) => {
            let message = owned("unexpected character");
            return Err(ParserError { message, position: e.position });
        },
    };
    let ghost text_before = source.source;
    proof {
        if chars@.len() == 0 && toks@.len() > 0 {
            assert(token_fits(chars@, toks@[0]));
        }
    }
    let mut p: usize = 0;
    while p < toks.len()
        invariant
            p <= toks@.len(),
            text_before == old(source).source,
            source.source == text_before,
            toks@.len() == 0 ==> source.schema@ == old(source).schema@ && source.migrations@ == old(source).migrations@
                && source.queries@ == old(source).queries@,
            text@.len() == 0 ==> toks@.len() == 0,
            source.migrations@.len() >= old(source).migrations@.len(),
            source.migrations@.subrange(0, old(source).migrations@.len() as int) == old(source).migrations@,
            source.queries@.len() >= old(source).queries@.len(),
            source.queries@.subrange(0, old(source).queries@.len() as int) == old(source).queries@,
            distinct_versions(source.schema@),
            forall|i: int| 0 <= i < source.queries@.len()
                ==> query_whole(#[trigger] source.queries@[i]),
        decreases toks.len() - p,
    {
        if at_word(&toks, p, "schema") && at(&toks, p + 1, Tok::PathSep) {
            let ((_, v), q) = parse_version(&toks, p)?;
            let mut q = expect(&toks, q, Tok::LBrace, "`{`")?;
            while !at(&toks, q, Tok::RBrace)
                invariant
                    p < q <= toks@.len(),
                    text@.len() == 0 ==> toks@.len() == 0,
                    text_before == old(source).source,
                    source.source == text_before,
                    source.migrations@.len() >= old(source).migrations@.len(),
                    source.migrations@.subrange(0, old(source).migrations@.len() as int) == old(source).migrations@,
                    source.queries@.len() >= old(source).queries@.len(),
                    source.queries@.subrange(0, old(source).queries@.len() as int) == old(source).queries@,
                    distinct_versions(source.schema@),
                    forall|i: int| 0 <= i < source.queries@.len()
                        ==> query_whole(#[trigger] source.queries@[i]),
                decreases toks.len() - q,
            {
                q = parse_schema_item(&toks, q, v, name, &mut source.schema)?;
            }
            p = q + 1;
        } else if at_word(&toks, p, "MIGRATION") {
            let (m, q) = parse_migration(&toks, p, name)?;
            let ghost before = source.migrations@;
            source.migrations.push(m);
            assert(source.migrations@.subrange(0, old(source).migrations@.len() as int)
                =~= before.subrange(0, old(source).migrations@.len() as int));
            p = q;
        } else if at_word(&toks, p, "QUERY") || at(&toks, p, Tok::Hash) {
            let (qd, q) = parse_query(&toks, p, &chars, name)?;
            let ghost before = source.queries@;
            source.queries.push(qd);
            assert(source.queries@.subrange(0, old(source).queries@.len() as int)
                =~= before.subrange(0, old(source).queries@.len() as int));
            p = q;
        } else {
            p = parse_schema_item(&toks, p, 1, name, &mut source.schema)?;
        }
    }
    Ok(())
}

impl HelixParser {
    /// Parses every file of `input`, or its text where it names no file.
    /// Definitions outside a `schema::N { }` block belong to schema
    /// version 1.
    pub fn parse_source(input: &Content) -> (r: Result<Source, ParserError>)
        ensures
            r matches Ok(src) ==> {
                &&& input.files@.len() > 0 ==> src.source@ == joined_contents(input.files@)
                &&& input.files@.len() == 0 ==> src.source@ == input.content@ + seq!['\n']
                &&& distinct_versions(src.schema@)
                &&& forall|i: int| 0 <= i < src.queries@.len()
                    ==> query_whole(#[trigger] src.queries@[i])
            },
            (if input.files@.len() == 0 { input.content@.len() == 0 } else {
                forall|k: int| 0 <= k < input.files@.len() ==> (#[trigger] input.files@[k]).content@.len() == 0
            }) ==> (r matches Ok(src) && src.schema@.len() == 0 && src.migrations@.len() == 0 && src.queries@.len() == 0),
    {
        let mut source = Source {
            source: String::new(),
            schema: Vec::new(),
            migrations: Vec::new(),
            queries: Vec::new(),
        };
        if input.files.len() == 0 {
            push_str(&mut source.source, input.content.as_str());
            string_push(&mut source.source, '\n');
            let unnamed = String::new();
            parse_text(&input.content, &unnamed, &mut source)?;
            return Ok(source);
        }
        let mut f: usize = 0;
        while f < input.files.len()
            invariant
                f <= input.files@.len(),
                source.source@ == joined_contents(input.files@.take(f as int)),
                distinct_versions(source.schema@),
                forall|i: int| 0 <= i < source.queries@.len() ==> query_whole(#[trigger] source.queries@[i]),
                (forall|k: int| 0 <= k < input.files@.len() ==> (#[trigger] input.files@[k]).content@.len() == 0)
                    ==> source.schema@.len() == 0 && source.migrations@.len() == 0 && source.queries@.len() == 0,
            decreases input.files.len() - f,
        {
            let file = &input.files[f];
            assert(input.files@.take(f + 1).drop_last() =~= input.files@.take(f as int));
            push_str(&mut source.source, file.content.as_str());
            string_push(&mut source.source, '\n');
            assert(input.files@.take(f + 1).last() == input.files@[f as int]);
            assert(source.source@ =~= joined_contents(input.files@.take(f + 1)));
            parse_text(&file.content, &file.name, &mut source)?;
            f = f + 1;
        }
        assert(input.files@.take(input.files@.len() as int) =~= input.files@);
        Ok(source)
    }
}

} // verus!
