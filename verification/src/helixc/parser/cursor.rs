//! Reading a token list: looking at, checking and consuming tokens.
use vstd::prelude::*;
use crate::helixc::location::Loc;
use crate::helixc::parser::lexer::{Tok, Token};
use crate::utils::text::{owned, push_str, str_equal};

verus! {

/// Why a text could not be parsed, and the character offset where.
#[derive(Debug)]
pub struct ParserError {
    pub message: String,
    pub position: usize,
}

/// Whether the token at `pos` exists and is of kind `k`.
pub open spec fn kind_is(toks: Seq<Token>, pos: int, k: Tok) -> bool {
    0 <= pos < toks.len() && toks[pos].kind == k
}

/// Whether the token at `pos` is the word `w`.
pub open spec fn word_is(toks: Seq<Token>, pos: int, w: Seq<char>) -> bool {
    0 <= pos < toks.len() && toks[pos].kind == Tok::Ident && toks[pos].text@ == w
}

/// Whether the token at `pos` exists and is of kind `k`.
pub fn at(toks: &Vec<Token>, pos: usize, k: Tok) -> (r: bool)
    ensures
        r == kind_is(toks@, pos as int, k),
        r ==> pos < toks.len(),
{
    pos < toks.len() && toks[pos].kind == k
}

/// Whether the token at `pos` is the word `w`.
pub fn at_word(toks: &Vec<Token>, pos: usize, w: &str) -> (r: bool)
    ensures
        r == word_is(toks@, pos as int, w@),
        r ==> pos < toks.len(),
{
    pos < toks.len() && toks[pos].kind == Tok::Ident && str_equal(toks[pos].text.as_str(), w)
}

/// The character offset of the token at `pos`, or the end of the last
/// token when `pos` is past them.
pub fn offset_of(toks: &Vec<Token>, pos: usize) -> (r: usize)
    ensures
        pos < toks@.len() ==> r == toks@[pos as int].start,
{
    if pos < toks.len() {
        toks[pos].start
    } else if toks.len() > 0 {
        toks[toks.len() - 1].end
    } else {
        0
    }
}

/// An error at the token at `pos`: `expected <what>`.
pub fn expected(toks: &Vec<Token>, pos: usize, what: &str) -> (e: ParserError)
    ensures
        e.message@ == "expected "@ + what@,
{
    let mut message = owned("expected ");
    push_str(&mut message, what);
    ParserError { message, position: offset_of(toks, pos) }
}

/// Consumes a token of kind `k`.
pub fn expect(toks: &Vec<Token>, pos: usize, k: Tok, what: &str) -> (r: Result<
    usize,
    ParserError,
>)
    ensures
        r is Ok <==> kind_is(toks@, pos as int, k),
        r matches Ok(p) ==> p == pos + 1,
{
    if pos < toks.len() && toks[pos].kind == k {
        Ok(pos + 1)
    } else {
        Err(expected(toks, pos, what))
    }
}

/// Consumes the word `w`.
pub fn expect_word(toks: &Vec<Token>, pos: usize, w: &str) -> (r: Result<usize, ParserError>)
    ensures
        r is Ok <==> word_is(toks@, pos as int, w@),
        r matches Ok(p) ==> p == pos + 1,
{
    if pos < toks.len() && at_word(toks, pos, w) {
        Ok(pos + 1)
    } else {
        Err(expected(toks, pos, w))
    }
}

/// Consumes a name and gives its text.
pub fn expect_ident(toks: &Vec<Token>, pos: usize) -> (r: Result<(String, usize), ParserError>)
    ensures
        r is Ok <==> kind_is(toks@, pos as int, Tok::Ident),
        r matches Ok((s, p)) ==> p == pos + 1 && s@ == toks@[pos as int].text@,
{
    if pos < toks.len() && toks[pos].kind == Tok::Ident {
        Ok((toks[pos].text.clone(), pos + 1))
    } else {
        Err(expected(toks, pos, "a name"))
    }
}

/// The span from the start of token `a` to the end of token `b - 1`.
pub fn span(toks: &Vec<Token>, a: usize, b: usize) -> (r: Loc)
    requires
        a < b <= toks@.len(),
    ensures
        r.filepath is None,
        r.start == toks@[a as int].start,
        r.end == toks@[b - 1].end,
{
    Loc::new(toks[a].start, toks[b - 1].end)
}

} // verus!
