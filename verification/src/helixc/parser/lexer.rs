//! Splits HelixQL text into tokens.
use vstd::prelude::*;
use crate::utils::text::string_from_chars;

verus! {

/// The kinds of token.
#[derive(Debug, Clone, Copy, PartialEq, Eq, Structural)]
pub enum Tok {
    /// A name: a letter or `_`, then letters, digits and `_`.
    Ident,
    /// A run of digits.
    Int,
    /// Digits, `.`, digits.
    Decimal,
    /// A text between double quotes.
    Str,
    /// `<-`
    Arrow,
    /// `=>`
    FatArrow,
    /// `::`
    PathSep,
    Lt,
    Gt,
    LParen,
    RParen,
    LBrace,
    RBrace,
    LBracket,
    RBracket,
    Comma,
    Colon,
    Bang,
    Pipe,
    Minus,
    Dot,
    Question,
    Hash,
    Equals,
}

/// A token: its kind, its text, and the characters `start..end` it spans.
#[derive(Debug)]
pub struct Token {
    pub kind: Tok,
    pub text: String,
    pub start: usize,
    pub end: usize,
}

pub open spec fn is_digit(c: char) -> bool {
    '0' as u32 <= c as u32 && c as u32 <= '9' as u32
}

pub open spec fn is_ident_start(c: char) -> bool {
    ||| c == '_'
    ||| ('a' as u32 <= c as u32 && c as u32 <= 'z' as u32)
    ||| ('A' as u32 <= c as u32 && c as u32 <= 'Z' as u32)
}

pub open spec fn is_ident_char(c: char) -> bool {
    is_ident_start(c) || is_digit(c)
}

pub open spec fn is_space(c: char) -> bool {
    c == ' ' || c == '\t' || c == '\n' || c == '\r'
}

/// The spelling of a punctuation token.
pub open spec fn punct_spelling(k: Tok) -> Seq<char> {
    match k {
        Tok::Arrow => seq!['<', '-'],
        Tok::FatArrow => seq!['=', '>'],
        Tok::PathSep => seq![':', ':'],
        Tok::Lt => seq!['<'],
        Tok::Gt => seq!['>'],
        Tok::LParen => seq!['('],
        Tok::RParen => seq![')'],
        Tok::LBrace => seq!['{'],
        Tok::RBrace => seq!['}'],
        Tok::LBracket => seq!['['],
        Tok::RBracket => seq![']'],
        Tok::Comma => seq![','],
        Tok::Colon => seq![':'],
        Tok::Bang => seq!['!'],
        Tok::Pipe => seq!['|'],
        Tok::Minus => seq!['-'],
        Tok::Dot => seq!['.'],
        Tok::Question => seq!['?'],
        Tok::Hash => seq!['#'],
        Tok::Equals => seq!['='],
        _ => seq![],
    }
}

/// Whether `t` is a token of `chars`: it lies within the text, and its kind
/// and text agree with the characters it spans.
pub open spec fn token_fits(chars: Seq<char>, t: Token) -> bool {
    &&& t.start < t.end <= chars.len()
    &&& match t.kind {
        Tok::Ident => {
            &&& t.text@ == chars.subrange(t.start as int, t.end as int)
            &&& is_ident_start(chars[t.start as int])
            &&& forall|i: int| t.start <= i < t.end ==> is_ident_char(#[trigger] chars[i])
            &&& (t.end == chars.len() || !is_ident_char(chars[t.end as int]))
        },
        Tok::Int => {
            &&& t.text@ == chars.subrange(t.start as int, t.end as int)
            &&& forall|i: int| t.start <= i < t.end ==> is_digit(#[trigger] chars[i])
        },
        Tok::Decimal => {
            &&& t.text@ == chars.subrange(t.start as int, t.end as int)
            &&& is_digit(chars[t.start as int])
            &&& is_digit(chars[t.end - 1])
        },
        Tok::Str => {
            &&& t.start + 2 <= t.end
            &&& chars[t.start as int] == '"'
            &&& chars[t.end - 1] == '"'
            &&& t.text@ == chars.subrange(t.start + 1, t.end - 1)
            &&& forall|i: int| t.start < i < t.end - 1 ==> #[trigger] chars[i] != '"'
        },
        _ => {
            &&& t.text@.len() == 0
            &&& chars.subrange(t.start as int, t.end as int) == punct_spelling(t.kind)
        },
    }
}

/// Whether `toks` are tokens of `chars` in order, none overlapping another.
pub open spec fn tokens_fit(chars: Seq<char>, toks: Seq<Token>) -> bool {
    &&& forall|i: int| 0 <= i < toks.len() ==> token_fits(chars, #[trigger] toks[i])
    &&& forall|i: int, j: int| #![trigger toks[i], toks[j]] 0 <= i < j < toks.len() ==> toks[i].end <= toks[j].start
}

/// Whether the character at `k` lies in one of the tokens.
pub open spec fn in_token(toks: Seq<Token>, k: int) -> bool {
    exists|j: int| 0 <= j < toks.len() && #[trigger] toks[j].start <= k && k < toks[j].end
}

/// Whether the character at `k` lies in a `//` comment: one that starts
/// outside every token, at or before `k`, with no line break up to `k`.
pub open spec fn in_comment(chars: Seq<char>, toks: Seq<Token>, k: int) -> bool {
    exists|a: int| #![trigger chars[a], chars[a + 1]]
        0 <= a <= k && a + 1 < chars.len() && chars[a] == '/' && chars[a + 1] == '/' && !in_token(toks, a)
            && forall|m: int| a <= m <= k ==> #[trigger] chars[m] != '\n'
}

/// Whether every character of `chars` before `end` lies in a token, is a
/// blank, or lies in a comment.
pub open spec fn all_read(chars: Seq<char>, toks: Seq<Token>, end: int) -> bool {
    forall|k: int| 0 <= k < end ==> in_token(toks, k) || is_space(#[trigger] chars[k]) || in_comment(chars, toks, k)
}

/// Adding a token that starts at or after `i` keeps what was read before
/// `i` read.
proof fn lemma_push_keeps_read(chars: Seq<char>, toks: Seq<Token>, t: Token, i: int)
    requires
        all_read(chars, toks, i),
        t.start >= i,
    ensures
        all_read(chars, toks.push(t), i),
{
    let p = toks.push(t);
    assert forall|k: int| 0 <= k < i implies in_token(p, k) || is_space(#[trigger] chars[k]) || in_comment(chars, p, k) by {
        if in_token(toks, k) {
            let j = choose|j: int| 0 <= j < toks.len() && #[trigger] toks[j].start <= k && k < toks[j].end;
            assert(p[j] == toks[j]);
        } else if in_comment(chars, toks, k) {
            let a = choose|a: int| #![trigger chars[a], chars[a + 1]]
                0 <= a <= k && a + 1 < chars.len() && chars[a] == '/' && chars[a + 1] == '/' && !in_token(toks, a)
                    && forall|m: int| a <= m <= k ==> #[trigger] chars[m] != '\n';
            assert(!in_token(p, a)) by {
                if in_token(p, a) {
                    let j = choose|j: int| 0 <= j < p.len() && #[trigger] p[j].start <= a && a < p[j].end;
                    if j < toks.len() {
                        assert(p[j] == toks[j]);
                    }
                }
            }
        }
    }
}

/// Adding a token that starts at `i` reads everything up to its end.
proof fn lemma_push_token_read(chars: Seq<char>, toks: Seq<Token>, t: Token, i: int)
    requires
        all_read(chars, toks, i),
        t.start == i,
    ensures
        all_read(chars, toks.push(t), t.end as int),
{
    lemma_push_keeps_read(chars, toks, t, i);
    let p = toks.push(t);
    assert forall|k: int| 0 <= k < t.end implies in_token(p, k) || is_space(#[trigger] chars[k]) || in_comment(chars, p, k) by {
        if k >= i {
            assert(p[toks.len() as int] == t);
            assert(p[toks.len() as int].start <= k && k < p[toks.len() as int].end);
        }
    }
}

/// A lexing failure: the position of a character that starts no token, or
/// of a quote that is never closed.
#[derive(Debug, Clone, Copy, PartialEq, Eq, Structural)]
pub struct LexError {
    pub position: usize,
}

fn is_digit_exec(c: char) -> (r: bool)
    ensures
        r == is_digit(c),
{
    '0' as u32 <= c as u32 && c as u32 <= '9' as u32
}

fn is_ident_start_exec(c: char) -> (r: bool)
    ensures
        r == is_ident_start(c),
{
    c == '_' || ('a' as u32 <= c as u32 && c as u32 <= 'z' as u32) || ('A' as u32 <= c as u32
        && c as u32 <= 'Z' as u32)
}

fn is_ident_char_exec(c: char) -> (r: bool)
    ensures
        r == is_ident_char(c),
{
    is_ident_start_exec(c) || is_digit_exec(c)
}

/// The token kind of a one-character punctuation mark, if it is one.
fn single_punct(c: char) -> (r: Option<Tok>)
    ensures
        match r {
            Some(k) => punct_spelling(k) == seq![c] && k != Tok::Ident && k != Tok::Int
                && k != Tok::Decimal && k != Tok::Str,
            None => true,
        },
        r is Some <==> (c == '<' || c == '>' || c == '(' || c == ')' || c == '{' || c == '}' || c == '['
            || c == ']' || c == ',' || c == ':' || c == '!' || c == '|' || c == '-' || c == '.' || c == '?'
            || c == '#' || c == '='),
{
    match c {
        '<' => Some(Tok::Lt),
        '>' => Some(Tok::Gt),
        '(' => Some(Tok::LParen),
        ')' => Some(Tok::RParen),
        '{' => Some(Tok::LBrace),
        '}' => Some(Tok::RBrace),
        '[' => Some(Tok::LBracket),
        ']' => Some(Tok::RBracket),
        ',' => Some(Tok::Comma),
        ':' => Some(Tok::Colon),
        '!' => Some(Tok::Bang),
        '|' => Some(Tok::Pipe),
        '-' => Some(Tok::Minus),
        '.' => Some(Tok::Dot),
        '?' => Some(Tok::Question),
        '#' => Some(Tok::Hash),
        '=' => Some(Tok::Equals),
        _ => None,
    }
}

/// The token kind of a two-character punctuation mark, if `a` then `b`
/// spell one.
fn double_punct(a: char, b: char) -> (r: Option<Tok>)
    ensures
        match r {
            Some(k) => punct_spelling(k) == seq![a, b] && k != Tok::Ident && k != Tok::Int
                && k != Tok::Decimal && k != Tok::Str,
            None => true,
        },
        r is Some <==> ((a == '<' && b == '-') || (a == '=' && b == '>') || (a == ':' && b == ':')),
{
    if a == '<' && b == '-' {
        Some(Tok::Arrow)
    } else if a == '=' && b == '>' {
        Some(Tok::FatArrow)
    } else if a == ':' && b == ':' {
        Some(Tok::PathSep)
    } else {
        None
    }
}

/// Whether `c` is a one-character punctuation mark.
pub open spec fn is_punct(c: char) -> bool {
    c == '<' || c == '>' || c == '(' || c == ')' || c == '{' || c == '}' || c == '['
        || c == ']' || c == ',' || c == ':' || c == '!' || c == '|' || c == '-' || c == '.' || c == '?'
        || c == '#' || c == '='
}

/// Whether no token can start at `p`: the character there is neither a
/// blank, nor the start of a `//` comment, a name, a number or a text, nor
/// a punctuation mark; or it is a quote with no quote after it.
pub open spec fn lex_stuck(chars: Seq<char>, p: int) -> bool {
    let c = chars[p];
    ||| c == '"' && forall|k: int| p < k < chars.len() ==> #[trigger] chars[k] != '"'
    ||| !is_space(c) && !is_ident_start(c) && !is_digit(c) && c != '"' && !is_punct(c)
        && !(c == '/' && p + 1 < chars.len() && chars[p + 1] == '/')
}

/// Splits `chars` into tokens, skipping blanks and `//` comments. Fails at
/// a character that starts no token, or at a quote never closed.
pub fn tokenize(chars: &Vec<char>) -> (r: Result<Vec<Token>, LexError>)
    ensures
        r matches Ok(toks) ==> tokens_fit(chars@, toks@) && all_read(chars@, toks@, chars@.len() as int),
        r matches Err(e) ==> {
            &&& e.position < chars@.len()
            &&& !is_space(chars@[e.position as int])
            &&& lex_stuck(chars@, e.position as int)
            &&& exists|toks: Seq<Token>| tokens_fit(chars@, toks) && all_read(chars@, toks, e.position as int)
                && forall|j: int| 0 <= j < toks.len() ==> #[trigger] toks[j].end <= e.position
        },
{
    let n = chars.len();
    let mut toks: Vec<Token> = Vec::new();
    let mut i: usize = 0;
    while i < n
        invariant
            n == chars@.len(),
            i <= n,
            tokens_fit(chars@, toks@),
            forall|j: int| 0 <= j < toks@.len() ==> #[trigger] toks@[j].end <= i,
            all_read(chars@, toks@, i as int),
        decreases n - i,
    {
        let c = chars[i];
        if c == ' ' || c == '\t' || c == '\n' || c == '\r' {
            assert(is_space(chars@[i as int]));
            i = i + 1;
        } else if c == '/' && i + 1 < n && chars[i + 1] == '/' {
            let mut j = i + 2;
            while j < n && chars[j] != '\n'
                invariant
                    i + 2 <= j <= n,
                    n == chars@.len(),
                    forall|m: int| i + 2 <= m < j ==> #[trigger] chars@[m] != '\n',
                decreases n - j,
            {
                j = j + 1;
            }
            proof {
                assert(!in_token(toks@, i as int)) by {
                    if in_token(toks@, i as int) {
                        let t = choose|t: int| 0 <= t < toks@.len() && #[trigger] toks@[t].start <= i && i < toks@[t].end;
                        assert(toks@[t].end <= i);
                    }
                }
                assert forall|k: int| 0 <= k < j implies in_token(toks@, k) || is_space(#[trigger] chars@[k]) || in_comment(chars@, toks@, k) by {
                    if k >= i {
                        assert(chars@[i as int] == '/' && chars@[i + 1] == '/');
                        assert(forall|m: int| i <= m <= k ==> #[trigger] chars@[m] != '\n');
                    }
                }
            }
            i = j;
        } else if is_ident_start_exec(c) {
            let start = i;
            let mut j = i + 1;
            while j < n && is_ident_char_exec(chars[j])
                invariant
                    start < j <= n,
                    n == chars@.len(),
                    forall|k: int| start <= k < j ==> is_ident_char(#[trigger] chars@[k]),
                decreases n - j,
            {
                j = j + 1;
            }
            let text = string_from_chars(chars, start, j);
            let t = Token { kind: Tok::Ident, text, start, end: j };
            assert(token_fits(chars@, t));
            proof { lemma_push_token_read(chars@, toks@, t, i as int); }
            toks.push(t);
            i = j;
        } else if is_digit_exec(c) {
            let start = i;
            let mut j = i + 1;
            while j < n && is_digit_exec(chars[j])
                invariant
                    start < j <= n,
                    n == chars@.len(),
                    is_digit(chars@[start as int]),
                    forall|k: int| start <= k < j ==> is_digit(#[trigger] chars@[k]),
                decreases n - j,
            {
                j = j + 1;
            }
            let mut kind = Tok::Int;
            if j < n - 1 && chars[j] == '.' && is_digit_exec(chars[j + 1]) {
                j = j + 2;
                while j < n && is_digit_exec(chars[j])
                    invariant
                        start < j <= n,
                        n == chars@.len(),
                        is_digit(chars@[start as int]),
                        is_digit(chars@[j - 1]),
                    decreases n - j,
                {
                    j = j + 1;
                }
                kind = Tok::Decimal;
            }
            let text = string_from_chars(chars, start, j);
            let t = Token { kind, text, start, end: j };
            assert(token_fits(chars@, t));
            proof { lemma_push_token_read(chars@, toks@, t, i as int); }
            toks.push(t);
            i = j;
        } else if c == '"' {
            let start = i;
            let mut j = i + 1;
            while j < n && chars[j] != '"'
                invariant
                    start < j <= n,
                    n == chars@.len(),
                    forall|k: int| start < k < j ==> #[trigger] chars@[k] != '"',
                decreases n - j,
            {
                j = j + 1;
            }
            if j >= n {
                assert(lex_stuck(chars@, start as int));
                assert(tokens_fit(chars@, toks@) && all_read(chars@, toks@, start as int));
                return Err(LexError { position: start });
            }
            let text = string_from_chars(chars, start + 1, j);
            let t = Token { kind: Tok::Str, text, start, end: j + 1 };
            assert(token_fits(chars@, t));
            proof { lemma_push_token_read(chars@, toks@, t, i as int); }
            toks.push(t);
            i = j + 1;
        } else {
            let two = if i + 1 < n {
                double_punct(c, chars[i + 1])
            } else {
                None
            };
            match two {
                Some(k) => {
                    let t = Token { kind: k, text: String::new(), start: i, end: i + 2 };
                    assert(chars@.subrange(i as int, i + 2) =~= seq![c, chars@[i + 1]]);
                    assert(token_fits(chars@, t));
                    proof { lemma_push_token_read(chars@, toks@, t, i as int); }
                    toks.push(t);
                    i = i + 2;
                },
                None => {
                    match single_punct(c) {
                        Some(k) => {
                            let t = Token { kind: k, text: String::new(), start: i, end: i + 1 };
                            assert(chars@.subrange(i as int, i + 1) =~= seq![c]);
                            assert(token_fits(chars@, t));
                            proof { lemma_push_token_read(chars@, toks@, t, i as int); }
                            toks.push(t);
                            i = i + 1;
                        },
                        None => {
                            assert(lex_stuck(chars@, i as int));
                            assert(tokens_fit(chars@, toks@) && all_read(chars@, toks@, i as int));
                            return Err(LexError { position: i });
                        },
                    }
                },
            }
        }
    }
    Ok(toks)
}

} // verus!
