//! Positions in source text.
use vstd::prelude::*;

verus! {

/// A span of source text, as character offsets `start..end`, with the file
/// it is in where known.
#[derive(Debug, Clone)]
pub struct Loc {
    pub filepath: Option<String>,
    pub start: usize,
    pub end: usize,
}

impl Loc {
    /// A span with no file.
    pub fn new(start: usize, end: usize) -> (r: Loc)
        ensures
            r.filepath is None,
            r.start == start,
            r.end == end,
    {
        Loc { filepath: None, start, end }
    }

    /// The empty span at the start of no file.
    pub fn empty() -> (r: Loc)
        ensures
            r.filepath is None,
            r.start == 0,
            r.end == 0,
    {
        Loc { filepath: None, start: 0, end: 0 }
    }

    /// A copy of the span.
    pub fn copy(&self) -> (r: Loc)
        ensures
            r.start == self.start,
            r.end == self.end,
            r.filepath == self.filepath,
    {
        let filepath = match &self.filepath {
            Some(p) => Some(p.clone()),
            None => None,
        };
        Loc { filepath, start: self.start, end: self.end }
    }
}

/// The 1-based line and column of the character at `offset` of `text`.
pub open spec fn line_col(text: Seq<char>, offset: int) -> (int, int)
    decreases offset,
{
    if offset <= 0 || text.len() == 0 {
        (1, 1)
    } else {
        let (l, c) = line_col(text, offset - 1);
        if offset - 1 < text.len() && text[offset - 1] == '\n' {
            (l + 1, 1)
        } else {
            (l, c + 1)
        }
    }
}

/// Computes the line and column of the character at `offset`.
pub fn line_col_of(text: &Vec<char>, offset: usize) -> (r: (usize, usize))
    requires
        offset <= text@.len(),
        offset < usize::MAX,
    ensures
        r.0 as int == line_col(text@, offset as int).0,
        r.1 as int == line_col(text@, offset as int).1,
{
    let mut line: usize = 1;
    let mut col: usize = 1;
    let mut i: usize = 0;
    if text.len() == 0 {
        return (1, 1);
    }
    while i < offset
        invariant
            i <= offset <= text@.len(),
            offset < usize::MAX,
            text@.len() > 0,
            line as int == line_col(text@, i as int).0,
            col as int == line_col(text@, i as int).1,
            line <= i + 1,
            col <= i + 1,
        decreases offset - i,
    {
        if text[i] == '\n' {
            line = line + 1;
            col = 1;
        } else {
            col = col + 1;
        }
        i = i + 1;
    }
    (line, col)
}

} // verus!
