use vstd::prelude::*;
use vstd::std_specs::iter::IteratorSpec;
use crate::utils::text::string_push;

verus! {

/// The character drawn for the filled part of a progress bar.
pub enum ProgChar {
    Block,
    Hash,
}

impl ProgChar {
    /// The character this variant draws.
    pub fn as_char(&self) -> (c: char)
        ensures
            c == (match self {
                ProgChar::Block => '█',
                ProgChar::Hash => '#',
            }),
    {
        match self {
            ProgChar::Block => '█',
            ProgChar::Hash => '#',
        }
    }
}

/// The number of characters of a message that a progress bar keeps.
pub const MESSAGE_LIMIT: usize = 50;

/// The width, in characters, of every progress bar.
pub const BAR_WIDTH: usize = 50;

/// A progress bar wrapped around an iterator: every call of `next` counts
/// one step, whether or not the iterator still yields an item, but the count
/// never passes the total (or 1, for a bar of no steps).
#[allow(non_camel_case_types)]
pub struct tqdm<T: Iterator> {
    pub iter: T,
    pub total: usize,
    pub current: usize,
    pub width: usize,
    pub prog_char: ProgChar,
    pub message: Option<String>,
}

/// The first `n` characters of `s` (all of it when it is shorter).
pub open spec fn truncate_chars(s: Seq<char>, n: nat) -> Seq<char> {
    if s.len() <= n { s } else { s.take(n as int) }
}

/// Keeps at most `limit` characters of `text`.
fn take_chars(text: &str, limit: usize) -> (r: String)
    ensures
        r@ == truncate_chars(text@, limit as nat),
{
    let mut out = String::new();
    let mut taken: usize = 0;
    for c in it: text.chars()
        invariant
            it.seq() == text@,
            taken <= limit,
            taken as int == if it.index() < limit { it.index() } else { limit as int },
            out@ == text@.take(taken as int),
    {
        if taken < limit {
            string_push(&mut out, c);
            assert(out@ =~= text@.take(taken + 1));
            taken = taken + 1;
        }
    }
    assert(text@.take(text@.len() as int) =~= text@);
    out
}

/// The count of steps after one more call of `next`: one more, but never
/// more than the total, or than 1 when the total is 0.
pub open spec fn step_count(current: usize, total: usize) -> usize {
    let cap = if total > 1 { total } else { 1 };
    if current < cap { (current + 1) as usize } else { current }
}

/// A progress bar never counts past its total (or past 1 when the total is
/// 0), and below that each call of `next` counts exactly one step.
pub proof fn law_progress_capped(current: usize, total: usize)
    requires
        current <= (if total > 1 { total } else { 1 }),
    ensures
        step_count(current, total) <= (if total > 1 { total } else { 1 }),
        current < (if total > 1 { total } else { 1 }) ==> step_count(current, total) == current + 1,
        current == (if total > 1 { total } else { 1 }) ==> step_count(current, total) == current,
{
}

impl<T: Iterator> tqdm<T> {
    /// The wrapped iterator.
    pub closed spec fn inner(&self) -> T {
        self.iter
    }

    /// Creates a progress bar over `iter` of `total` steps, 50 wide, drawn with
    /// `prog_char` (by default `#`), with at most the first 50 characters of
    /// `message`.
    pub fn new(iter: T, total: usize, prog_char: Option<ProgChar>, message: Option<&str>) -> (r: Self)
        ensures
            r.inner() == iter,
            r.total == total,
            r.current == 0,
            r.width == BAR_WIDTH,
            r.prog_char == (match prog_char {
                Some(p) => p,
                None => ProgChar::Hash,
            }),
            match message {
                Some(m) => r.message is Some && r.message->0@ == truncate_chars(m@, MESSAGE_LIMIT as nat),
                None => r.message is None,
            },
    {
        let message = match message {
            Some(m) => Some(take_chars(m, MESSAGE_LIMIT)),
            None => None,
        };
        let prog_char = match prog_char {
            Some(p) => p,
            None => ProgChar::Hash,
        };
        tqdm { iter, total, current: 0, width: BAR_WIDTH, prog_char, message }
    }

    /// Counts one step, up to the total (or 1, for a bar of no steps), and
    /// advances the wrapped iterator.
    pub fn next(&mut self) -> (r: Option<T::Item>)
        ensures
            final(self).current == step_count(old(self).current, old(self).total),
            final(self).total == old(self).total,
            final(self).width == old(self).width,
            final(self).prog_char == old(self).prog_char,
            final(self).message == old(self).message,
            old(self).inner().obeys_prophetic_iter_laws() ==> {
                if old(self).inner().remaining().len() > 0 {
                    &&& r == Some(old(self).inner().remaining()[0])
                    &&& final(self).inner().remaining() == old(self).inner().remaining().drop_first()
                } else {
                    &&& r is None
                    &&& final(self).inner().remaining() == old(self).inner().remaining()
                }
            },
    {
        let cap = if self.total > 1 { self.total } else { 1 };
        if self.current < cap {
            self.current = self.current + 1;
        }
        self.iter.next()
    }
}

} // verus!
