//! Parsing of types, fields, schema items and query parameters.
use vstd::prelude::*;
use crate::helixc::parser::ast::{DefaultValue, EdgeSchema, Field, FieldPrefix, FieldType, NodeSchema, Parameter, VectorSchema};
use crate::helixc::parser::cursor::{ParserError, kind_is, word_is, at, at_word, expect, expect_word, expect_ident, expected, span};
use crate::helixc::parser::lexer::{Tok, Token};
use crate::utils::decimal::{all_digits, numeral_value, parse_numeral};
use crate::utils::text::{owned, push_str, str_equal};

verus! {

/// The type that a single name stands for, when it is a built-in one.
pub open spec fn builtin_type(t: Seq<char>) -> Option<FieldType> {
    if t == "String"@ { Some(FieldType::String) }
    else if t == "Boolean"@ { Some(FieldType::Boolean) }
    else if t == "F32"@ { Some(FieldType::F32) }
    else if t == "F64"@ { Some(FieldType::F64) }
    else if t == "I8"@ { Some(FieldType::I8) }
    else if t == "I16"@ { Some(FieldType::I16) }
    else if t == "I32"@ { Some(FieldType::I32) }
    else if t == "I64"@ { Some(FieldType::I64) }
    else if t == "U8"@ { Some(FieldType::U8) }
    else if t == "U16"@ { Some(FieldType::U16) }
    else if t == "U32"@ { Some(FieldType::U32) }
    else if t == "U64"@ { Some(FieldType::U64) }
    else if t == "U128"@ { Some(FieldType::U128) }
    else if t == "ID"@ { Some(FieldType::Uuid) }
    else if t == "Date"@ { Some(FieldType::Date) }
    else { None }
}

/// Whether `ft` is the type that the name `t` stands for: a built-in type,
/// or else the schema type of that name.
pub open spec fn names_type(t: Seq<char>, ft: FieldType) -> bool {
    match builtin_type(t) {
        Some(b) => ft == b,
        None => ft matches FieldType::Identifier(n) && n@ == t,
    }
}

/// The type that the name `t` stands for.
pub fn named_type_of(t: &String) -> (r: FieldType)
    ensures
        names_type(t@, r),
{
    let s = t.as_str();
    if str_equal(s, "String") { FieldType::String }
    else if str_equal(s, "Boolean") { FieldType::Boolean }
    else if str_equal(s, "F32") { FieldType::F32 }
    else if str_equal(s, "F64") { FieldType::F64 }
    else if str_equal(s, "I8") { FieldType::I8 }
    else if str_equal(s, "I16") { FieldType::I16 }
    else if str_equal(s, "I32") { FieldType::I32 }
    else if str_equal(s, "I64") { FieldType::I64 }
    else if str_equal(s, "U8") { FieldType::U8 }
    else if str_equal(s, "U16") { FieldType::U16 }
    else if str_equal(s, "U32") { FieldType::U32 }
    else if str_equal(s, "U64") { FieldType::U64 }
    else if str_equal(s, "U128") { FieldType::U128 }
    else if str_equal(s, "ID") { FieldType::Uuid }
    else if str_equal(s, "Date") { FieldType::Date }
    else { FieldType::Identifier(t.clone()) }
}

/// Parses a type: a name, `[type]`, or `{name: type, ...}`.
pub fn parse_field_type(toks: &Vec<Token>, pos: usize) -> (r: Result<(FieldType, usize), ParserError>)
    requires
        pos <= toks@.len(),
    ensures
        r matches Ok((_, p)) ==> pos < p <= toks@.len(),
        kind_is(toks@, pos as int, Tok::Ident) ==> (r matches Ok((ft, p)) && p == pos + 1
            && names_type(toks@[pos as int].text@, ft)),
    decreases toks@.len() - pos,
{
    if at(toks, pos, Tok::Ident) {
        let ft = named_type_of(&toks[pos].text);
        Ok((ft, pos + 1))
    } else if at(toks, pos, Tok::LBracket) {
        let (inner, p) = parse_field_type(toks, pos + 1)?;
        let p = expect(toks, p, Tok::RBracket, "`]`")?;
        Ok((FieldType::Array(Box::new(inner)), p))
    } else if at(toks, pos, Tok::LBrace) {
        let mut fields: Vec<(String, FieldType)> = Vec::new();
        let mut p = pos + 1;
        while !at(toks, p, Tok::RBrace)
            invariant
                pos < p <= toks@.len(),
                !kind_is(toks@, pos as int, Tok::Ident),
            decreases toks@.len() - p,
        {
            let (name, q) = expect_ident(toks, p)?;
            let q = expect(toks, q, Tok::Colon, "`:`")?;
            let (ft, q) = parse_field_type(toks, q)?;
            fields.push((name, ft));
            p = q;
            if at(toks, p, Tok::Comma) {
                p = p + 1;
            } else if !at(toks, p, Tok::RBrace) {
                return Err(expected(toks, p, "`,` or `}`"));
            }
        }
        Ok((FieldType::Object(fields), p + 1))
    } else {
        Err(expected(toks, pos, "a type"))
    }
}

/// The default of an integer field, written as `v` with a minus sign before
/// it when `negative`, where the value fits the field's type.
pub open spec fn integer_default(ft: FieldType, negative: bool, v: int) -> Option<DefaultValue> {
    let n = if negative { -v } else { v };
    match ft {
        FieldType::I8 => if i8::MIN <= n <= i8::MAX { Some(DefaultValue::I8(n as i8)) } else { None },
        FieldType::I16 => if i16::MIN <= n <= i16::MAX { Some(DefaultValue::I16(n as i16)) } else { None },
        FieldType::I32 => if i32::MIN <= n <= i32::MAX { Some(DefaultValue::I32(n as i32)) } else { None },
        FieldType::I64 => if i64::MIN <= n <= i64::MAX { Some(DefaultValue::I64(n as i64)) } else { None },
        FieldType::U8 => if 0 <= n <= u8::MAX { Some(DefaultValue::U8(n as u8)) } else { None },
        FieldType::U16 => if 0 <= n <= u16::MAX { Some(DefaultValue::U16(n as u16)) } else { None },
        FieldType::U32 => if 0 <= n <= u32::MAX { Some(DefaultValue::U32(n as u32)) } else { None },
        FieldType::U64 => if 0 <= n <= u64::MAX { Some(DefaultValue::U64(n as u64)) } else { None },
        FieldType::U128 => if 0 <= n <= u128::MAX { Some(DefaultValue::U128(n as u128)) } else { None },
        _ => None,
    }
}

/// The default of an integer field, where the value fits its type.
pub fn integer_default_of(ft: &FieldType, negative: bool, v: u128) -> (r: Option<DefaultValue>)
    ensures
        r == integer_default(*ft, negative, v as int),
{
    match ft {
        FieldType::I8 => {
            if !negative && v <= 127 { Some(DefaultValue::I8(v as i8)) }
            else if negative && v <= 128 { Some(DefaultValue::I8((0 - (v as i16)) as i8)) }
            else { None }
        },
        FieldType::I16 => {
            if !negative && v <= 32767 { Some(DefaultValue::I16(v as i16)) }
            else if negative && v <= 32768 { Some(DefaultValue::I16((0 - (v as i32)) as i16)) }
            else { None }
        },
        FieldType::I32 => {
            if !negative && v <= 2147483647 { Some(DefaultValue::I32(v as i32)) }
            else if negative && v <= 2147483648 { Some(DefaultValue::I32((0 - (v as i64)) as i32)) }
            else { None }
        },
        FieldType::I64 => {
            if !negative && v <= 9223372036854775807 { Some(DefaultValue::I64(v as i64)) }
            else if negative && v <= 9223372036854775808 {
                Some(DefaultValue::I64((0 - (v as i128)) as i64))
            } else { None }
        },
        FieldType::U8 => if !negative && v <= 255 || v == 0 { Some(DefaultValue::U8(v as u8)) } else { None },
        FieldType::U16 => if !negative && v <= 65535 || v == 0 { Some(DefaultValue::U16(v as u16)) } else { None },
        FieldType::U32 => if !negative && v <= 4294967295 || v == 0 { Some(DefaultValue::U32(v as u32)) } else { None },
        FieldType::U64 => if !negative && v <= 18446744073709551615 || v == 0 { Some(DefaultValue::U64(v as u64)) } else { None },
        FieldType::U128 => if !negative || v == 0 { Some(DefaultValue::U128(v)) } else { None },
        _ => None,
    }
}

/// The integer default at `pos` for a field of type `ft`: digits, with a
/// minus sign before them or not, whose value fits the field's type.
pub open spec fn int_default_at(toks: Seq<Token>, pos: int, ft: FieldType) -> Option<DefaultValue> {
    let negative = kind_is(toks, pos, Tok::Minus);
    let q = if negative { pos + 1 } else { pos };
    if kind_is(toks, q, Tok::Int) && toks[q].text@.len() > 0 && all_digits(toks[q].text@)
        && numeral_value(toks[q].text@) <= u128::MAX {
        integer_default(ft, negative, numeral_value(toks[q].text@) as int)
    } else {
        None
    }
}

/// Whether a default value for a field of type `ft` stands at `pos`:
/// `NOW`, `true`, `false`, a text, a decimal for a float field, or an
/// integer that fits the field's type.
pub open spec fn default_parses(toks: Seq<Token>, pos: int, ft: FieldType) -> bool {
    ||| word_is(toks, pos, "NOW"@) || word_is(toks, pos, "true"@) || word_is(toks, pos, "false"@)
    ||| kind_is(toks, pos, Tok::Str)
    ||| kind_is(toks, pos, Tok::Decimal) && (ft is F32 || ft is F64)
    ||| int_default_at(toks, pos, ft) is Some
}

/// Parses the value after `DEFAULT` for a field of type `ft`.
pub fn parse_default_value(toks: &Vec<Token>, pos: usize, ft: &FieldType) -> (r: Result<
    (DefaultValue, usize),
    ParserError,
>)
    requires
        pos <= toks@.len(),
    ensures
        r matches Ok((_, p)) ==> pos < p <= toks@.len(),
        r is Ok <==> default_parses(toks@, pos as int, *ft),
        r matches Ok((d, p)) ==> match d {
            DefaultValue::Now => word_is(toks@, pos as int, "NOW"@) && p == pos + 1,
            DefaultValue::Boolean(b) => word_is(toks@, pos as int, if b { "true"@ } else { "false"@ }) && p == pos + 1,
            DefaultValue::String(t) => kind_is(toks@, pos as int, Tok::Str) && t@ == toks@[pos as int].text@ && p == pos + 1,
            DefaultValue::Decimal(t) => kind_is(toks@, pos as int, Tok::Decimal) && t@ == toks@[pos as int].text@ && p == pos + 1,
            _ => int_default_at(toks@, pos as int, *ft) == Some(d)
                && p == if kind_is(toks@, pos as int, Tok::Minus) { pos + 2 } else { pos + 1 },
        },
{
    if at_word(toks, pos, "NOW") {
        Ok((DefaultValue::Now, pos + 1))
    } else if at_word(toks, pos, "true") {
        Ok((DefaultValue::Boolean(true), pos + 1))
    } else if at_word(toks, pos, "false") {
        Ok((DefaultValue::Boolean(false), pos + 1))
    } else if at(toks, pos, Tok::Str) {
        Ok((DefaultValue::String(toks[pos].text.clone()), pos + 1))
    } else if at(toks, pos, Tok::Decimal) {
        match ft {
            FieldType::F32 | FieldType::F64 => Ok((DefaultValue::Decimal(toks[pos].text.clone()), pos + 1)),
            _ => Err(expected(toks, pos, "a default value of the field's type")),
        }
    } else {
        let negative = at(toks, pos, Tok::Minus);
        let q = if negative { pos + 1 } else { pos };
        if !at(toks, q, Tok::Int) {
            return Err(expected(toks, q, "a default value"));
        }
        let v = match parse_numeral(toks[q].text.as_str()) {
            Some(v) => v,
            None => { return Err(expected(toks, q, "a smaller number")); },
        };
        match integer_default_of(ft, negative, v) {
            Some(d) => Ok((d, q + 1)),
            None => Err(expected(toks, q, "a default value of the field's type")),
        }
    }
}

/// Parses `INDEX? name: type (DEFAULT value)?`.
pub fn parse_field_def(toks: &Vec<Token>, pos: usize) -> (r: Result<(Field, usize), ParserError>)
    requires
        pos <= toks@.len(),
    ensures
        r matches Ok((f, p)) ==> pos < p <= toks@.len() && (f.prefix == FieldPrefix::Index
            <==> word_is(toks@, pos as int, "INDEX"@)),
        ({
            let q = if word_is(toks@, pos as int, "INDEX"@) { pos + 1 } else { pos as int };
            &&& !(kind_is(toks@, q, Tok::Ident) && kind_is(toks@, q + 1, Tok::Colon)) ==> r is Err
            &&& r matches Ok((f, _)) ==> f.name@ == toks@[q].text@
            &&& kind_is(toks@, q, Tok::Ident) && kind_is(toks@, q + 1, Tok::Colon) && kind_is(toks@, q + 2, Tok::Ident)
                && !word_is(toks@, q + 3, "DEFAULT"@) ==> (r matches Ok((f, p)) && p == q + 3 && f.defaults is None
                && names_type(toks@[q + 2].text@, f.field_type))
        }),
{
    let indexed = at_word(toks, pos, "INDEX");
    let p = if indexed { pos + 1 } else { pos };
    let (name, p) = expect_ident(toks, p)?;
    let p = expect(toks, p, Tok::Colon, "`:`")?;
    let (field_type, p) = parse_field_type(toks, p)?;
    let (defaults, p) = if at_word(toks, p, "DEFAULT") {
        let (d, q) = parse_default_value(toks, p + 1, &field_type)?;
        (Some(d), q)
    } else {
        (None, p)
    };
    let prefix = if indexed { FieldPrefix::Index } else { FieldPrefix::Empty };
    let loc = span(toks, pos, p);
    Ok((Field { prefix, defaults, name, field_type, loc }, p))
}

/// Parses `{ field, field, ... }`.
pub fn parse_field_defs(toks: &Vec<Token>, pos: usize) -> (r: Result<(Vec<Field>, usize), ParserError>)
    requires
        pos <= toks@.len(),
    ensures
        r matches Ok((_, p)) ==> pos < p <= toks@.len(),
        !kind_is(toks@, pos as int, Tok::LBrace) ==> r is Err,
        r matches Ok((_, p)) ==> kind_is(toks@, pos as int, Tok::LBrace) && kind_is(toks@, p - 1, Tok::RBrace),
        kind_is(toks@, pos as int, Tok::LBrace) && kind_is(toks@, pos + 1, Tok::RBrace)
            ==> (r matches Ok((fields, p)) && fields@.len() == 0 && p == pos + 2),
{
    let mut p = expect(toks, pos, Tok::LBrace, "`{`")?;
    let mut fields: Vec<Field> = Vec::new();
    while !at(toks, p, Tok::RBrace)
        invariant
            pos < p <= toks@.len(),
            kind_is(toks@, pos as int, Tok::LBrace),
            kind_is(toks@, pos + 1, Tok::RBrace) ==> p == pos + 1 && fields@.len() == 0,
        decreases toks@.len() - p,
    {
        let (f, q) = parse_field_def(toks, p)?;
        fields.push(f);
        p = q;
        if at(toks, p, Tok::Comma) {
            p = p + 1;
        } else if !at(toks, p, Tok::RBrace) {
            return Err(expected(toks, p, "`,` or `}`"));
        }
    }
    Ok((fields, p + 1))
}

/// Parses `N::Name { fields }`, with the file it is in.
pub fn parse_node_def(toks: &Vec<Token>, pos: usize, filepath: &String) -> (r: Result<
    (NodeSchema, usize),
    ParserError,
>)
    requires
        pos <= toks@.len(),
    ensures
        r matches Ok((n, p)) ==> pos < p <= toks@.len() && n.loc.filepath == Some(*filepath),
        r is Ok ==> word_is(toks@, pos as int, "N"@) && kind_is(toks@, pos + 1, Tok::PathSep),
        r matches Ok((n, _)) ==> n.name.1@ == toks@[pos + 2].text@,
        word_is(toks@, pos as int, "N"@) && kind_is(toks@, pos + 1, Tok::PathSep) && kind_is(toks@, pos + 2, Tok::Ident) ==> {
            &&& !kind_is(toks@, pos + 3, Tok::LBrace) ==> r is Err
            &&& kind_is(toks@, pos + 3, Tok::LBrace) && kind_is(toks@, pos + 4, Tok::RBrace)
                ==> (r matches Ok((n, p)) && n.fields@.len() == 0 && p == pos + 5)
        },
{
    let p = expect_word(toks, pos, "N")?;
    let p = expect(toks, p, Tok::PathSep, "`::`")?;
    let name_at = p;
    let (name, p) = expect_ident(toks, p)?;
    let (fields, p) = parse_field_defs(toks, p)?;
    let mut loc = span(toks, pos, p);
    loc.filepath = Some(filepath.clone());
    Ok((NodeSchema { name: (span(toks, name_at, name_at + 1), name), fields, loc }, p))
}

/// Parses `V::Name { fields }`, with the file it is in.
pub fn parse_vector_def(toks: &Vec<Token>, pos: usize, filepath: &String) -> (r: Result<
    (VectorSchema, usize),
    ParserError,
>)
    requires
        pos <= toks@.len(),
    ensures
        r matches Ok((v, p)) ==> pos < p <= toks@.len() && v.loc.filepath == Some(*filepath),
        r is Ok ==> word_is(toks@, pos as int, "V"@) && kind_is(toks@, pos + 1, Tok::PathSep),
        r matches Ok((v, _)) ==> v.name@ == toks@[pos + 2].text@,
        word_is(toks@, pos as int, "V"@) && kind_is(toks@, pos + 1, Tok::PathSep) && kind_is(toks@, pos + 2, Tok::Ident) ==> {
            &&& !kind_is(toks@, pos + 3, Tok::LBrace) ==> (r matches Ok((v, p)) && v.fields@.len() == 0 && p == pos + 3)
            &&& kind_is(toks@, pos + 3, Tok::LBrace) && kind_is(toks@, pos + 4, Tok::RBrace)
                ==> (r matches Ok((v, p)) && v.fields@.len() == 0 && p == pos + 5)
        },
{
    let p = expect_word(toks, pos, "V")?;
    let p = expect(toks, p, Tok::PathSep, "`::`")?;
    let (name, p) = expect_ident(toks, p)?;
    let (fields, p) = if at(toks, p, Tok::LBrace) {
        parse_field_defs(toks, p)?
    } else {
        (Vec::new(), p)
    };
    let mut loc = span(toks, pos, p);
    loc.filepath = Some(filepath.clone());
    Ok((VectorSchema { name, fields, loc }, p))
}

/// Parses `E::Name { From: A, To: B, Properties: { fields } }`, with the file
/// it is in. The properties may be left out.
pub fn parse_edge_def(toks: &Vec<Token>, pos: usize, filepath: &String) -> (r: Result<
    (EdgeSchema, usize),
    ParserError,
>)
    requires
        pos <= toks@.len(),
    ensures
        r matches Ok((e, p)) ==> pos < p <= toks@.len() && e.loc.filepath == Some(*filepath),
        r is Ok ==> word_is(toks@, pos as int, "E"@) && kind_is(toks@, pos + 1, Tok::PathSep)
            && kind_is(toks@, pos + 3, Tok::LBrace) && word_is(toks@, pos + 4, "From"@),
        r matches Ok((e, _)) ==> e.name.1@ == toks@[pos + 2].text@ && e.from.1@ == toks@[pos + 6].text@
            && e.to.1@ == toks@[pos + 10].text@,
        word_is(toks@, pos as int, "E"@) && kind_is(toks@, pos + 1, Tok::PathSep) && kind_is(toks@, pos + 2, Tok::Ident)
            && kind_is(toks@, pos + 3, Tok::LBrace) && word_is(toks@, pos + 4, "From"@) && kind_is(toks@, pos + 5, Tok::Colon)
            && kind_is(toks@, pos + 6, Tok::Ident) && kind_is(toks@, pos + 7, Tok::Comma) && word_is(toks@, pos + 8, "To"@)
            && kind_is(toks@, pos + 9, Tok::Colon) && kind_is(toks@, pos + 10, Tok::Ident) ==> {
            &&& kind_is(toks@, pos + 11, Tok::RBrace) ==> (r matches Ok((e, p)) && e.properties is None && p == pos + 12)
            &&& !kind_is(toks@, pos + 11, Tok::RBrace) && !kind_is(toks@, pos + 11, Tok::Comma) ==> r is Err
        },
{
    let p = expect_word(toks, pos, "E")?;
    let p = expect(toks, p, Tok::PathSep, "`::`")?;
    let name_at = p;
    let (name, p) = expect_ident(toks, p)?;
    let p = expect(toks, p, Tok::LBrace, "`{`")?;
    let p = expect_word(toks, p, "From")?;
    let p = expect(toks, p, Tok::Colon, "`:`")?;
    let from_at = p;
    let (from, p) = expect_ident(toks, p)?;
    let p = expect(toks, p, Tok::Comma, "`,`")?;
    let p = expect_word(toks, p, "To")?;
    let p = expect(toks, p, Tok::Colon, "`:`")?;
    let to_at = p;
    let (to, mut p) = expect_ident(toks, p)?;
    let mut properties: Option<Vec<Field>> = None;
    if at(toks, p, Tok::Comma) {
        p = p + 1;
        if at_word(toks, p, "Properties") {
            let q = expect(toks, p + 1, Tok::Colon, "`:`")?;
            let (fields, q) = parse_field_defs(toks, q)?;
            properties = Some(fields);
            p = q;
            if at(toks, p, Tok::Comma) {
                p = p + 1;
            }
        }
    }
    let p = expect(toks, p, Tok::RBrace, "`}`")?;
    let mut loc = span(toks, pos, p);
    loc.filepath = Some(filepath.clone());
    Ok((
        EdgeSchema {
            name: (span(toks, name_at, name_at + 1), name),
            from: (span(toks, from_at, from_at + 1), from),
            to: (span(toks, to_at, to_at + 1), to),
            properties,
            loc,
        },
        p,
    ))
}

/// Whether no two parameters have the same name.
pub open spec fn distinct_parameter_names(params: Seq<Parameter>) -> bool {
    forall|i: int, j: int|
        0 <= i < j < params.len() ==> #[trigger] params[i].name.1@ != #[trigger] params[j].name.1@
}

/// Whether a parameter in `params` is named `name`.
fn has_parameter(params: &Vec<Parameter>, name: &String) -> (r: bool)
    ensures
        r == exists|i: int| 0 <= i < params@.len() && #[trigger] params@[i].name.1@ == name@,
{
    let mut i: usize = 0;
    while i < params.len()
        invariant
            i <= params@.len(),
            forall|j: int| 0 <= j < i ==> #[trigger] params@[j].name.1@ != name@,
        decreases params.len() - i,
    {
        if params[i].name.1 == *name {
            return true;
        }
        i = i + 1;
    }
    false
}

/// Parses `(name: type, ...)`. Two parameters of one name are refused.
pub fn parse_parameters(toks: &Vec<Token>, pos: usize) -> (r: Result<(Vec<Parameter>, usize), ParserError>)
    requires
        pos <= toks@.len(),
    ensures
        r matches Ok((params, p)) ==> pos < p <= toks@.len() && distinct_parameter_names(params@),
        !kind_is(toks@, pos as int, Tok::LParen) ==> r is Err,
        r matches Ok((_, p)) ==> kind_is(toks@, pos as int, Tok::LParen) && kind_is(toks@, p - 1, Tok::RParen),
        kind_is(toks@, pos as int, Tok::LParen) && kind_is(toks@, pos + 1, Tok::RParen)
            ==> (r matches Ok((params, p)) && params@.len() == 0 && p == pos + 2),
        kind_is(toks@, pos as int, Tok::LParen) && kind_is(toks@, pos + 1, Tok::Ident) && kind_is(toks@, pos + 2, Tok::Colon)
            && kind_is(toks@, pos + 3, Tok::Ident) && kind_is(toks@, pos + 4, Tok::RParen)
            ==> (r matches Ok((params, p)) && params@.len() == 1 && p == pos + 5
            && params@[0].name.1@ == toks@[pos + 1].text@ && names_type(toks@[pos + 3].text@, params@[0].param_type.1)),
{
    let mut p = expect(toks, pos, Tok::LParen, "`(`")?;
    let mut params: Vec<Parameter> = Vec::new();
    while !at(toks, p, Tok::RParen)
        invariant
            pos < p <= toks@.len(),
            kind_is(toks@, pos as int, Tok::LParen),
            kind_is(toks@, pos + 1, Tok::RParen) ==> p == pos + 1 && params@.len() == 0,
            kind_is(toks@, pos + 1, Tok::Ident) && kind_is(toks@, pos + 2, Tok::Colon)
                && kind_is(toks@, pos + 3, Tok::Ident) && kind_is(toks@, pos + 4, Tok::RParen)
                ==> (p == pos + 1 && params@.len() == 0) || (p == pos + 4 && params@.len() == 1
                    && params@[0].name.1@ == toks@[pos + 1].text@ && names_type(toks@[pos + 3].text@, params@[0].param_type.1)),
            distinct_parameter_names(params@),
        decreases toks@.len() - p,
    {
        let start = p;
        let (name, q) = expect_ident(toks, p)?;
        let q = expect(toks, q, Tok::Colon, "`:`")?;
        let type_at = q;
        let (param_type, q) = parse_field_type(toks, q)?;
        if has_parameter(&params, &name) {
            let mut message = owned("Duplicate parameter name: ");
            push_str(&mut message, name.as_str());
            push_str(&mut message, "\nPlease use unique parameter names.");
            return Err(ParserError { message, position: toks[start].start });
        }
        let param = Parameter {
            name: (span(toks, start, start + 1), name),
            param_type: (span(toks, type_at, q), param_type),
            is_optional: false,
            loc: span(toks, start, q),
        };
        params.push(param);
        p = q;
        if at(toks, p, Tok::Comma) {
            p = p + 1;
        } else if !at(toks, p, Tok::RParen) {
            return Err(expected(toks, p, "`,` or `)`"));
        }
    }
    Ok((params, p + 1))
}

} // verus!
