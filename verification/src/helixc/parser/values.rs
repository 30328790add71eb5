//! Parsing of literal values, property lists, element ids and vector data.
use vstd::prelude::*;
use crate::helixc::parser::ast::{
    EvaluatesToNumber, EvaluatesToNumberType, EvaluatesToString, Embed, IdType, ValueType,
    VectorData,
};
use crate::helixc::parser::cursor::{ParserError, at, at_word, expect, expect_ident, expected, kind_is, span, word_is};
use crate::helixc::parser::lexer::{Tok, Token};
use crate::protocol::value::Value;
use crate::utils::decimal::{all_digits, numeral_value, parse_numeral};

verus! {

/// The value of the integer literal at `pos`, with a minus sign before it
/// when `negative`, where it fits an `i64`.
pub fn integer_at(toks: &Vec<Token>, pos: usize, negative: bool) -> (r: Result<i64, ParserError>)
    requires
        pos < toks@.len(),
    ensures
        ({
            let t = toks@[pos as int].text@;
            let v: int = if negative { -numeral_value(t) } else { numeral_value(t) as int };
            let digits = t.len() > 0 && all_digits(t);
            &&& r matches Ok(x) ==> digits && x == v
            &&& r is Ok <==> digits && i64::MIN <= v <= i64::MAX
        }),
{
    match parse_numeral(toks[pos].text.as_str()) {
        Some(v) => {
            if !negative && v <= 9223372036854775807 {
                Ok(v as i64)
            } else if negative && v <= 9223372036854775808 {
                Ok((0 - (v as i128)) as i64)
            } else {
                Err(expected(toks, pos, "a number that fits 64 bits"))
            }
        },
        None => Err(expected(toks, pos, "a number")),
    }
}

/// Parses the value of a property: a literal, a variable or `{...}`.
pub fn parse_value_type(toks: &Vec<Token>, pos: usize) -> (r: Result<(ValueType, usize), ParserError>)
    requires
        pos <= toks@.len(),
    ensures
        r matches Ok((_, p)) ==> pos < p <= toks@.len(),
        kind_is(toks@, pos as int, Tok::Str) ==> (r matches Ok((ValueType::Literal { value: Value::String(t), .. }, p))
            && t@ == toks@[pos as int].text@ && p == pos + 1),
        kind_is(toks@, pos as int, Tok::Int) ==> ({
            let t = toks@[pos as int].text@;
            &&& r is Ok <==> t.len() > 0 && all_digits(t) && numeral_value(t) <= i64::MAX
            &&& r matches Ok((v, p)) ==> v matches ValueType::Literal { value: Value::I64(x), .. }
                && x == numeral_value(t) && p == pos + 1
        }),
        kind_is(toks@, pos as int, Tok::Minus) && kind_is(toks@, pos + 1, Tok::Int) ==> ({
            let t = toks@[pos + 1].text@;
            &&& r is Ok <==> t.len() > 0 && all_digits(t) && -numeral_value(t) >= i64::MIN
            &&& r matches Ok((v, p)) ==> v matches ValueType::Literal { value: Value::I64(x), .. }
                && x == -numeral_value(t) && p == pos + 2
        }),
        kind_is(toks@, pos as int, Tok::Decimal) ==> (r matches Ok((ValueType::Decimal { text, .. }, p))
            && text@ == toks@[pos as int].text@ && p == pos + 1),
        (word_is(toks@, pos as int, "true"@) || word_is(toks@, pos as int, "false"@)) ==> (r matches Ok((
            ValueType::Literal { value: Value::Boolean(b), .. }, p)) && b == word_is(toks@, pos as int, "true"@) && p == pos + 1),
        kind_is(toks@, pos as int, Tok::Ident) && !word_is(toks@, pos as int, "true"@) && !word_is(toks@, pos as int, "false"@)
            ==> (r matches Ok((ValueType::Identifier { value, .. }, p)) && value@ == toks@[pos as int].text@ && p == pos + 1),
        r matches Ok((ValueType::Object { .. }, _)) ==> kind_is(toks@, pos as int, Tok::LBrace),
        !(kind_is(toks@, pos as int, Tok::Str) || kind_is(toks@, pos as int, Tok::Int)
            || (kind_is(toks@, pos as int, Tok::Minus) && kind_is(toks@, pos + 1, Tok::Int))
            || kind_is(toks@, pos as int, Tok::Decimal) || kind_is(toks@, pos as int, Tok::Ident)
            || kind_is(toks@, pos as int, Tok::LBrace)) ==> r is Err,
    decreases toks@.len() - pos, 1int,
{
    if at(toks, pos, Tok::Str) {
        let loc = span(toks, pos, pos + 1);
        Ok((ValueType::Literal { value: Value::String(toks[pos].text.clone()), loc }, pos + 1))
    } else if at(toks, pos, Tok::Int) {
        let v = integer_at(toks, pos, false)?;
        let loc = span(toks, pos, pos + 1);
        Ok((ValueType::Literal { value: Value::I64(v), loc }, pos + 1))
    } else if at(toks, pos, Tok::Minus) && at(toks, pos + 1, Tok::Int) {
        let v = integer_at(toks, pos + 1, true)?;
        let loc = span(toks, pos, pos + 2);
        Ok((ValueType::Literal { value: Value::I64(v), loc }, pos + 2))
    } else if at(toks, pos, Tok::Decimal) {
        let loc = span(toks, pos, pos + 1);
        Ok((ValueType::Decimal { text: toks[pos].text.clone(), loc }, pos + 1))
    } else if at_word(toks, pos, "true") || at_word(toks, pos, "false") {
        let b = at_word(toks, pos, "true");
        let loc = span(toks, pos, pos + 1);
        Ok((ValueType::Literal { value: Value::Boolean(b), loc }, pos + 1))
    } else if at(toks, pos, Tok::Ident) {
        let loc = span(toks, pos, pos + 1);
        Ok((ValueType::Identifier { value: toks[pos].text.clone(), loc }, pos + 1))
    } else if at(toks, pos, Tok::LBrace) {
        let (fields, p) = parse_props(toks, pos)?;
        let loc = span(toks, pos, p);
        Ok((ValueType::Object { fields, loc }, p))
    } else {
        Err(expected(toks, pos, "a value"))
    }
}

/// Whether the token at `i` is a whole value on its own that reads: a
/// text, a decimal, a name (a variable, `true` or `false`), or an integer
/// that fits an `i64`.
pub open spec fn one_token_value(toks: Seq<Token>, i: int) -> bool {
    ||| kind_is(toks, i, Tok::Str)
    ||| kind_is(toks, i, Tok::Decimal)
    ||| kind_is(toks, i, Tok::Ident)
    ||| kind_is(toks, i, Tok::Int) && toks[i].text@.len() > 0 && all_digits(toks[i].text@)
        && numeral_value(toks[i].text@) <= i64::MAX
}

/// Whether `v` is the value that the single token `t` writes.
pub open spec fn value_of_token(v: ValueType, t: Token) -> bool {
    match t.kind {
        Tok::Str => v matches ValueType::Literal { value: Value::String(x), .. } && x@ == t.text@,
        Tok::Decimal => v matches ValueType::Decimal { text, .. } && text@ == t.text@,
        Tok::Int => v matches ValueType::Literal { value: Value::I64(x), .. } && x == numeral_value(t.text@),
        Tok::Ident => if t.text@ == "true"@ || t.text@ == "false"@ {
            v matches ValueType::Literal { value: Value::Boolean(b), .. } && b == (t.text@ == "true"@)
        } else {
            v matches ValueType::Identifier { value, .. } && value@ == t.text@
        },
        _ => false,
    }
}

/// Whether the tokens from `pos` are a property list of `n > 0` entries
/// `{k1: v1, ..., kn: vn}`, each key a name and each value one token: the
/// key of entry `j` at `pos + 1 + 4j`, its value at `pos + 3 + 4j`.
pub open spec fn prop_list_at(toks: Seq<Token>, pos: int, n: int) -> bool {
    &&& n > 0
    &&& kind_is(toks, pos, Tok::LBrace)
    &&& forall|j: int| 0 <= j < n ==> {
        &&& #[trigger] kind_is(toks, pos + 1 + 4 * j, Tok::Ident)
        &&& kind_is(toks, pos + 2 + 4 * j, Tok::Colon)
        &&& one_token_value(toks, pos + 3 + 4 * j)
        &&& kind_is(toks, pos + 4 + 4 * j, if j < n - 1 { Tok::Comma } else { Tok::RBrace })
    }
}

/// A property list has one length.
proof fn lemma_prop_list_one_length(toks: Seq<Token>, pos: int, n1: int, n2: int)
    requires
        prop_list_at(toks, pos, n1),
        prop_list_at(toks, pos, n2),
    ensures
        n1 == n2,
{
    if n1 < n2 {
        assert(kind_is(toks, pos + 1 + 4 * (n1 - 1), Tok::Ident));
        assert(kind_is(toks, pos + 4 + 4 * (n1 - 1), Tok::RBrace));
        assert(kind_is(toks, pos + 1 + 4 * (n1 - 1), Tok::Ident));
        assert(kind_is(toks, pos + 4 + 4 * (n1 - 1), Tok::Comma));
    } else if n2 < n1 {
        assert(kind_is(toks, pos + 1 + 4 * (n2 - 1), Tok::Ident));
        assert(kind_is(toks, pos + 4 + 4 * (n2 - 1), Tok::RBrace));
        assert(kind_is(toks, pos + 1 + 4 * (n2 - 1), Tok::Ident));
        assert(kind_is(toks, pos + 4 + 4 * (n2 - 1), Tok::Comma));
    }
}

/// Parses `{ name: value, ... }`.
pub fn parse_props(toks: &Vec<Token>, pos: usize) -> (r: Result<(Vec<(String, ValueType)>, usize), ParserError>)
    requires
        pos <= toks@.len(),
    ensures
        r matches Ok((_, p)) ==> pos < p <= toks@.len(),
        !kind_is(toks@, pos as int, Tok::LBrace) ==> r is Err,
        r matches Ok((_, p)) ==> kind_is(toks@, pos as int, Tok::LBrace) && kind_is(toks@, p - 1, Tok::RBrace),
        kind_is(toks@, pos as int, Tok::LBrace) && kind_is(toks@, pos + 1, Tok::RBrace)
            ==> (r matches Ok((fields, p)) && fields@.len() == 0 && p == pos + 2),
        forall|n: int| #[trigger] prop_list_at(toks@, pos as int, n) ==> (r matches Ok((fields, p)) && {
            &&& fields@.len() == n
            &&& p == pos + 1 + 4 * n
            &&& forall|j: int| 0 <= j < n ==> {
                &&& (#[trigger] fields@[j]).0@ == toks@[pos + 1 + 4 * j].text@
                &&& value_of_token(fields@[j].1, toks@[pos + 3 + 4 * j])
            }
        }),
    decreases toks@.len() - pos, 0int,
{
    let ghost listed = exists|n: int| prop_list_at(toks@, pos as int, n);
    let ghost n: int = if listed { choose|n: int| prop_list_at(toks@, pos as int, n) } else { 0 };
    let mut p = expect(toks, pos, Tok::LBrace, "`{`")?;
    let mut fields: Vec<(String, ValueType)> = Vec::new();
    while !at(toks, p, Tok::RBrace)
        invariant
            pos < p <= toks@.len(),
            kind_is(toks@, pos as int, Tok::LBrace),
            kind_is(toks@, pos + 1, Tok::RBrace) ==> p == pos + 1 && fields@.len() == 0,
            listed == exists|m: int| prop_list_at(toks@, pos as int, m),
            listed ==> prop_list_at(toks@, pos as int, n),
            listed ==> fields@.len() <= n,
            listed && fields@.len() < n ==> p == pos + 1 + 4 * fields@.len(),
            listed && fields@.len() == n ==> p == pos + 4 * n,
            listed ==> forall|j: int| 0 <= j < fields@.len() ==> {
                &&& (#[trigger] fields@[j]).0@ == toks@[pos + 1 + 4 * j].text@
                &&& value_of_token(fields@[j].1, toks@[pos + 3 + 4 * j])
            },
        decreases toks@.len() - p,
    {
        let ghost k = fields@.len() as int;
        proof {
            if listed {
                if k == n {
                    assert(kind_is(toks@, pos + 1 + 4 * (n - 1), Tok::Ident));
                    assert(kind_is(toks@, pos + 4 + 4 * (n - 1), Tok::RBrace));
                }
                assert(kind_is(toks@, pos + 1 + 4 * k, Tok::Ident));
            }
        }
        let (name, q) = expect_ident(toks, p)?;
        let q = expect(toks, q, Tok::Colon, "`:`")?;
        let (v, q) = parse_value_type(toks, q)?;
        proof {
            if listed {
                let t = toks@[pos + 3 + 4 * k];
                assert(one_token_value(toks@, pos + 3 + 4 * k));
                if t.kind == Tok::Ident && (t.text@ == "true"@ || t.text@ == "false"@) {
                    assert(word_is(toks@, pos + 3 + 4 * k, "true"@) || word_is(toks@, pos + 3 + 4 * k, "false"@));
                }
                assert(value_of_token(v, t));
                assert(q == pos + 4 + 4 * k);
            }
        }
        let ghost before = fields@;
        fields.push((name, v));
        proof {
            if listed {
                assert forall|j: int| 0 <= j < fields@.len() implies {
                    &&& (#[trigger] fields@[j]).0@ == toks@[pos + 1 + 4 * j].text@
                    &&& value_of_token(fields@[j].1, toks@[pos + 3 + 4 * j])
                } by {
                    if j < k {
                        assert(fields@[j] == before[j]);
                    }
                }
            }
        }
        p = q;
        if at(toks, p, Tok::Comma) {
            p = p + 1;
        } else if !at(toks, p, Tok::RBrace) {
            return Err(expected(toks, p, "`,` or `}`"));
        }
    }
    proof {
        if listed {
            if fields@.len() < n {
                assert(kind_is(toks@, pos + 1 + 4 * (fields@.len() as int), Tok::Ident));
            }
            assert forall|m: int| #[trigger] prop_list_at(toks@, pos as int, m) implies m == n by {
                lemma_prop_list_one_length(toks@, pos as int, m, n);
            }
        }
    }
    Ok((fields, p + 1))
}

/// Parses an element id: a literal, a variable, or `{field: value}` to find
/// it by an indexed field.
pub fn parse_id(toks: &Vec<Token>, pos: usize) -> (r: Result<(IdType, usize), ParserError>)
    requires
        pos <= toks@.len(),
    ensures
        r matches Ok((_, p)) ==> pos < p <= toks@.len(),
        kind_is(toks@, pos as int, Tok::Str) ==> (r matches Ok((IdType::Literal { value, .. }, p))
            && value@ == toks@[pos as int].text@ && p == pos + 1),
        kind_is(toks@, pos as int, Tok::Ident) ==> (r matches Ok((IdType::Identifier { value, .. }, p))
            && value@ == toks@[pos as int].text@ && p == pos + 1),
        r matches Ok((IdType::ByIndex { .. }, _)) ==> kind_is(toks@, pos as int, Tok::LBrace),
        !(kind_is(toks@, pos as int, Tok::Str) || kind_is(toks@, pos as int, Tok::Ident)
            || kind_is(toks@, pos as int, Tok::LBrace)) ==> r is Err,
{
    if at(toks, pos, Tok::Str) {
        let loc = span(toks, pos, pos + 1);
        Ok((IdType::Literal { value: toks[pos].text.clone(), loc }, pos + 1))
    } else if at(toks, pos, Tok::Ident) {
        let loc = span(toks, pos, pos + 1);
        Ok((IdType::Identifier { value: toks[pos].text.clone(), loc }, pos + 1))
    } else if at(toks, pos, Tok::LBrace) {
        let (name, p) = expect_ident(toks, pos + 1)?;
        let index = IdType::Identifier { value: name, loc: span(toks, pos + 1, p) };
        let p = expect(toks, p, Tok::Colon, "`:`")?;
        let (value, p) = parse_value_type(toks, p)?;
        let p = expect(toks, p, Tok::RBrace, "`}`")?;
        let loc = span(toks, pos, p);
        Ok((IdType::ByIndex { index: Box::new(index), value: Box::new(value), loc }, p))
    } else {
        Err(expected(toks, pos, "an id"))
    }
}

/// Parses `(id, id, ...)`.
/// Whether `id` is the id that the token `t` names: a text as a literal, a
/// name as a variable.
pub open spec fn id_token(id: IdType, t: Token) -> bool {
    match id {
        IdType::Literal { value, .. } => t.kind == Tok::Str && value@ == t.text@,
        IdType::Identifier { value, .. } => t.kind == Tok::Ident && value@ == t.text@,
        _ => false,
    }
}

pub fn parse_ids(toks: &Vec<Token>, pos: usize) -> (r: Result<(Vec<IdType>, usize), ParserError>)
    requires
        pos <= toks@.len(),
    ensures
        r matches Ok((_, p)) ==> pos < p <= toks@.len(),
        !kind_is(toks@, pos as int, Tok::LParen) ==> r is Err,
        r matches Ok((_, p)) ==> kind_is(toks@, pos as int, Tok::LParen) && kind_is(toks@, p - 1, Tok::RParen),
        kind_is(toks@, pos as int, Tok::LParen) && kind_is(toks@, pos + 1, Tok::RParen)
            ==> (r matches Ok((ids, p)) && ids@.len() == 0 && p == pos + 2),
        kind_is(toks@, pos as int, Tok::LParen) && (kind_is(toks@, pos + 1, Tok::Str) || kind_is(toks@, pos + 1, Tok::Ident))
            && kind_is(toks@, pos + 2, Tok::RParen) ==> (r matches Ok((ids, p)) && ids@.len() == 1 && p == pos + 3
            && id_token(ids@[0], toks@[pos + 1])),
{
    let mut p = expect(toks, pos, Tok::LParen, "`(`")?;
    let mut ids: Vec<IdType> = Vec::new();
    while !at(toks, p, Tok::RParen)
        invariant
            pos < p <= toks@.len(),
            kind_is(toks@, pos as int, Tok::LParen),
            kind_is(toks@, pos + 1, Tok::RParen) ==> p == pos + 1 && ids@.len() == 0,
            (kind_is(toks@, pos + 1, Tok::Str) || kind_is(toks@, pos + 1, Tok::Ident)) && kind_is(toks@, pos + 2, Tok::RParen)
                ==> (p == pos + 1 && ids@.len() == 0) || (p == pos + 2 && ids@.len() == 1 && id_token(ids@[0], toks@[pos + 1])),
        decreases toks@.len() - p,
    {
        let (id, q) = parse_id(toks, p)?;
        ids.push(id);
        p = q;
        if at(toks, p, Tok::Comma) {
            p = p + 1;
        } else if !at(toks, p, Tok::RParen) {
            return Err(expected(toks, p, "`,` or `)`"));
        }
    }
    Ok((ids, p + 1))
}

/// Whether `<Name>` stands at `pos`.
pub open spec fn type_arg_at(toks: Seq<Token>, pos: int) -> bool {
    kind_is(toks, pos, Tok::Lt) && kind_is(toks, pos + 1, Tok::Ident) && kind_is(toks, pos + 2, Tok::Gt)
}

/// Parses `<Name>` and gives the name.
pub fn parse_type_arg(toks: &Vec<Token>, pos: usize) -> (r: Result<(String, usize), ParserError>)
    requires
        pos <= toks@.len(),
    ensures
        r is Ok <==> type_arg_at(toks@, pos as int),
        r matches Ok((s, p)) ==> p == pos + 3 && p <= toks@.len() && s@ == toks@[pos + 1].text@,
{
    let p = expect(toks, pos, Tok::Lt, "`<`")?;
    let (name, p) = expect_ident(toks, p)?;
    let p = expect(toks, p, Tok::Gt, "`>`")?;
    Ok((name, p))
}

/// Parses a text that is a variable or a string literal.
pub fn parse_text_source(toks: &Vec<Token>, pos: usize) -> (r: Result<(EvaluatesToString, usize), ParserError>)
    requires
        pos <= toks@.len(),
    ensures
        r matches Ok((_, p)) ==> p == pos + 1 && p <= toks@.len(),
        kind_is(toks@, pos as int, Tok::Str) ==> (r matches Ok((EvaluatesToString::StringLiteral(t), _))
            && t@ == toks@[pos as int].text@),
        kind_is(toks@, pos as int, Tok::Ident) ==> (r matches Ok((EvaluatesToString::Identifier(t), _))
            && t@ == toks@[pos as int].text@),
        !(kind_is(toks@, pos as int, Tok::Str) || kind_is(toks@, pos as int, Tok::Ident)) ==> r is Err,
{
    if at(toks, pos, Tok::Str) {
        Ok((EvaluatesToString::StringLiteral(toks[pos].text.clone()), pos + 1))
    } else if at(toks, pos, Tok::Ident) {
        Ok((EvaluatesToString::Identifier(toks[pos].text.clone()), pos + 1))
    } else {
        Err(expected(toks, pos, "a text or a variable"))
    }
}

/// Parses the data of a vector: `[numbers]`, `Embed(text)` or a variable.
pub fn parse_vector_data(toks: &Vec<Token>, pos: usize) -> (r: Result<(VectorData, usize), ParserError>)
    requires
        pos <= toks@.len(),
    ensures
        r matches Ok((_, p)) ==> pos < p <= toks@.len(),
        r matches Ok((VectorData::Vector(_), _)) ==> kind_is(toks@, pos as int, Tok::LBracket),
        r matches Ok((VectorData::Embed(_), _)) ==> word_is(toks@, pos as int, "Embed"@),
        kind_is(toks@, pos as int, Tok::Ident) && !word_is(toks@, pos as int, "Embed"@) ==> (r matches Ok((
            VectorData::Identifier(x), p)) && x@ == toks@[pos as int].text@ && p == pos + 1),
        !(kind_is(toks@, pos as int, Tok::LBracket) || kind_is(toks@, pos as int, Tok::Ident)) ==> r is Err,
{
    if at(toks, pos, Tok::LBracket) {
        let mut p = pos + 1;
        let mut numbers: Vec<String> = Vec::new();
        while !at(toks, p, Tok::RBracket)
            invariant
                pos < p <= toks@.len(),
                kind_is(toks@, pos as int, Tok::LBracket),
            decreases toks@.len() - p,
        {
            let negative = at(toks, p, Tok::Minus);
            let q = if negative { p + 1 } else { p };
            if !(at(toks, q, Tok::Decimal) || at(toks, q, Tok::Int)) {
                return Err(expected(toks, q, "a number"));
            }
            let mut text = String::new();
            if negative {
                crate::utils::text::string_push(&mut text, '-');
            }
            crate::utils::text::push_str(&mut text, toks[q].text.as_str());
            numbers.push(text);
            p = q + 1;
            if at(toks, p, Tok::Comma) {
                p = p + 1;
            } else if !at(toks, p, Tok::RBracket) {
                return Err(expected(toks, p, "`,` or `]`"));
            }
        }
        Ok((VectorData::Vector(numbers), p + 1))
    } else if at_word(toks, pos, "Embed") {
        let p = expect(toks, pos + 1, Tok::LParen, "`(`")?;
        let (value, p) = parse_text_source(toks, p)?;
        let p = expect(toks, p, Tok::RParen, "`)`")?;
        let loc = span(toks, pos, p);
        Ok((VectorData::Embed(Embed { loc, value }), p))
    } else if at(toks, pos, Tok::Ident) {
        Ok((VectorData::Identifier(toks[pos].text.clone()), pos + 1))
    } else {
        Err(expected(toks, pos, "vector data"))
    }
}

/// Parses a count: an integer, a decimal or a variable.
pub fn parse_number(toks: &Vec<Token>, pos: usize) -> (r: Result<(EvaluatesToNumber, usize), ParserError>)
    requires
        pos <= toks@.len(),
    ensures
        r matches Ok((_, p)) ==> p == pos + 1 && p <= toks@.len(),
        kind_is(toks@, pos as int, Tok::Int) ==> ({
            let t = toks@[pos as int].text@;
            &&& r is Ok <==> t.len() > 0 && all_digits(t) && numeral_value(t) <= i64::MAX
            &&& r matches Ok((n, _)) ==> n.value matches EvaluatesToNumberType::I64(v) && v == numeral_value(t)
        }),
        kind_is(toks@, pos as int, Tok::Decimal) ==> (r matches Ok((n, _))
            && n.value matches EvaluatesToNumberType::Decimal(d) && d@ == toks@[pos as int].text@),
        kind_is(toks@, pos as int, Tok::Ident) ==> (r matches Ok((n, _))
            && n.value matches EvaluatesToNumberType::Identifier(x) && x@ == toks@[pos as int].text@),
        !(kind_is(toks@, pos as int, Tok::Int) || kind_is(toks@, pos as int, Tok::Decimal)
            || kind_is(toks@, pos as int, Tok::Ident)) ==> r is Err,
{
    if at(toks, pos, Tok::Int) {
        let v = integer_at(toks, pos, false)?;
        let loc = span(toks, pos, pos + 1);
        Ok((EvaluatesToNumber { loc, value: EvaluatesToNumberType::I64(v) }, pos + 1))
    } else if at(toks, pos, Tok::Decimal) {
        let loc = span(toks, pos, pos + 1);
        Ok((EvaluatesToNumber { loc, value: EvaluatesToNumberType::Decimal(toks[pos].text.clone()) }, pos + 1))
    } else if at(toks, pos, Tok::Ident) {
        let loc = span(toks, pos, pos + 1);
        Ok((EvaluatesToNumber { loc, value: EvaluatesToNumberType::Identifier(toks[pos].text.clone()) }, pos + 1))
    } else {
        Err(expected(toks, pos, "a number or a variable"))
    }
}

} // verus!
