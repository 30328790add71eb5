//! Diagnostics: what the analyzer reports, and how a report is written.
use vstd::prelude::*;
use crate::helixc::analyzer::error_codes::{ErrorCode, code_text};
use crate::helixc::location::{Loc, line_col, line_col_of};
use crate::utils::decimal::{numeral, u128_text};
use crate::utils::text::{chars_of, owned, push_str};

verus! {

/// How serious a diagnostic is.
#[derive(Debug, Clone, Copy, PartialEq, Eq, Structural)]
pub enum DiagnosticSeverity {
    Error,
    Warning,
    Info,
    Hint,
    Empty,
}

/// A finding of the analyzer: where, which code, what, and a hint.
#[derive(Debug)]
pub struct Diagnostic {
    pub location: Loc,
    pub error_code: ErrorCode,
    pub message: String,
    pub hint: Option<String>,
    pub filepath: Option<String>,
    pub severity: DiagnosticSeverity,
}

/// The word for a severity.
pub open spec fn severity_word(s: DiagnosticSeverity) -> Seq<char> {
    match s {
        DiagnosticSeverity::Error => "error"@,
        DiagnosticSeverity::Warning => "warning"@,
        DiagnosticSeverity::Info => "info"@,
        DiagnosticSeverity::Hint => "hint"@,
        DiagnosticSeverity::Empty => ""@,
    }
}

/// The offset at which a report places a diagnostic that starts at `start`
/// in a text of `len` characters: the start, or the end of the text when the
/// start lies beyond it.
pub open spec fn report_offset(start: usize, len: nat) -> int {
    if start < len {
        start as int
    } else if len < usize::MAX {
        len as int
    } else {
        0
    }
}

/// How a diagnostic is written for the text `src` of the file `file`:
/// `severity[code]: message`, then `  --> file:line:column`, then the hint
/// where there is one.
pub open spec fn rendered(d: Diagnostic, src: Seq<char>, file: Seq<char>) -> Seq<char> {
    let (line, col) = line_col(src, report_offset(d.location.start, src.len()));
    severity_word(d.severity) + "["@ + code_text(d.error_code) + "]: "@ + d.message@ + "\n"@
        + "  --> "@ + file + ":"@ + numeral(line as nat) + ":"@ + numeral(col as nat) + "\n"@
        + match d.hint {
        Some(h) => "  = help: "@ + h@ + "\n"@,
        None => Seq::empty(),
    }
}

fn severity_str(s: DiagnosticSeverity) -> (r: &'static str)
    ensures
        r@ == severity_word(s),
{
    match s {
        DiagnosticSeverity::Error => "error",
        DiagnosticSeverity::Warning => "warning",
        DiagnosticSeverity::Info => "info",
        DiagnosticSeverity::Hint => "hint",
        DiagnosticSeverity::Empty => "",
    }
}

/// Lines and columns are at least 1.
proof fn lemma_line_col_positive(text: Seq<char>, offset: int)
    ensures
        line_col(text, offset).0 >= 1,
        line_col(text, offset).1 >= 1,
    decreases offset,
{
    if offset > 0 && text.len() > 0 {
        lemma_line_col_positive(text, offset - 1);
    }
}

impl Diagnostic {
    /// A diagnostic at `location`, in the file that the location names.
    pub fn new(
        location: Loc,
        message: String,
        severity: DiagnosticSeverity,
        error_code: ErrorCode,
        hint: Option<String>,
    ) -> (r: Diagnostic)
        ensures
            r.location == location,
            r.message == message,
            r.severity == severity,
            r.error_code == error_code,
            r.hint == hint,
            r.filepath == location.filepath,
    {
        let filepath = match &location.filepath {
            Some(p) => Some(p.clone()),
            None => None,
        };
        Diagnostic { location, error_code, message, hint, filepath, severity }
    }

    /// Writes the diagnostic for the text `src` of the file `filepath`.
    pub fn render(&self, src: &str, filepath: &str) -> (r: String)
        ensures
            r@ == rendered(*self, src@, filepath@),
    {
        let chars = chars_of(src);
        let start = self.location.start;
        let offset: usize = if start < chars.len() {
            start
        } else if chars.len() < usize::MAX {
            chars.len()
        } else {
            0
        };
        let (line, col) = line_col_of(&chars, offset);
        proof {
            lemma_line_col_positive(src@, offset as int);
        }
        let mut s = owned(severity_str(self.severity));
        push_str(&mut s, "[");
        push_str(&mut s, self.error_code.code_str());
        push_str(&mut s, "]: ");
        push_str(&mut s, self.message.as_str());
        push_str(&mut s, "\n");
        push_str(&mut s, "  --> ");
        push_str(&mut s, filepath);
        push_str(&mut s, ":");
        let lt = u128_text(line as u128);
        push_str(&mut s, lt.as_str());
        push_str(&mut s, ":");
        let ct = u128_text(col as u128);
        push_str(&mut s, ct.as_str());
        push_str(&mut s, "\n");
        match &self.hint {
            Some(h) => {
                push_str(&mut s, "  = help: ");
                push_str(&mut s, h.as_str());
                push_str(&mut s, "\n");
            },
            None => {},
        }
        s
    }
}

} // verus!
