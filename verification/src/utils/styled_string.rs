use vstd::prelude::*;
use vstd::string::StringExecFns;

verus! {

/// The ANSI escape sequence that resets all styling.
pub open spec fn ansi_reset() -> Seq<char> {
    seq!['\x1b', '[', '0', 'm']
}

/// The ANSI escape sequence `ESC [ <code> m` that selects a style.
pub open spec fn ansi_style(code: Seq<char>) -> Seq<char> {
    seq!['\x1b', '['] + code + seq!['m']
}

/// `text` wrapped in the style selected by `code` and followed by a reset.
pub open spec fn styled(code: Seq<char>, text: Seq<char>) -> Seq<char> {
    ansi_style(code) + text + ansi_reset()
}

/// Builds `ESC [ <code> m <text> ESC [ 0 m`.
fn wrap_in_style(code: &str, text: &str) -> (r: String)
    ensures
        r@ == styled(code@, text@),
{
    let mut out = String::new();
    let esc = "\x1b[";
    let m = "m";
    let reset = "\x1b[0m";
    proof {
        reveal_strlit("\x1b[");
        reveal_strlit("m");
        reveal_strlit("\x1b[0m");
    }
    out.append(esc);
    out.append(code);
    out.append(m);
    out.append(text);
    out.append(reset);
    assert(out@ =~= styled(code@, text@));
    out
}

/// Terminal colouring and emphasis for text.
pub trait StyledString {
    fn black(&self) -> String;
    fn red(&self) -> String;
    fn green(&self) -> String;
    fn yellow(&self) -> String;
    fn blue(&self) -> String;
    fn magenta(&self) -> String;
    fn cyan(&self) -> String;
    fn white(&self) -> String;
    fn bold(&self) -> String;
    fn underline(&self) -> String;
    fn normal(&self) -> String;
    fn bright_red(&self) -> String;
}

impl StyledString for str {
    fn black(&self) -> (r: String)
        ensures r@ == styled(seq!['3', '0'], self@),
    {
        proof { reveal_strlit("30"); }
        wrap_in_style("30", self)
    }

    fn red(&self) -> (r: String)
        ensures r@ == styled(seq!['3', '1'], self@),
    {
        proof { reveal_strlit("31"); }
        wrap_in_style("31", self)
    }

    fn green(&self) -> (r: String)
        ensures r@ == styled(seq!['3', '2'], self@),
    {
        proof { reveal_strlit("32"); }
        wrap_in_style("32", self)
    }

    fn yellow(&self) -> (r: String)
        ensures r@ == styled(seq!['3', '3'], self@),
    {
        proof { reveal_strlit("33"); }
        wrap_in_style("33", self)
    }

    fn blue(&self) -> (r: String)
        ensures r@ == styled(seq!['3', '4'], self@),
    {
        proof { reveal_strlit("34"); }
        wrap_in_style("34", self)
    }

    fn magenta(&self) -> (r: String)
        ensures r@ == styled(seq!['3', '5'], self@),
    {
        proof { reveal_strlit("35"); }
        wrap_in_style("35", self)
    }

    fn cyan(&self) -> (r: String)
        ensures r@ == styled(seq!['3', '6'], self@),
    {
        proof { reveal_strlit("36"); }
        wrap_in_style("36", self)
    }

    fn white(&self) -> (r: String)
        ensures r@ == styled(seq!['3', '7'], self@),
    {
        proof { reveal_strlit("37"); }
        wrap_in_style("37", self)
    }

    fn bold(&self) -> (r: String)
        ensures r@ == styled(seq!['1'], self@),
    {
        proof { reveal_strlit("1"); }
        wrap_in_style("1", self)
    }

    fn underline(&self) -> (r: String)
        ensures r@ == styled(seq!['4'], self@),
    {
        proof { reveal_strlit("4"); }
        wrap_in_style("4", self)
    }

    fn normal(&self) -> (r: String)
        ensures r@ == styled(seq!['0'], self@),
    {
        proof { reveal_strlit("0"); }
        wrap_in_style("0", self)
    }

    fn bright_red(&self) -> (r: String)
        ensures r@ == styled(seq!['9', '1'], self@),
    {
        proof { reveal_strlit("91"); }
        wrap_in_style("91", self)
    }
}

} // verus!
