//! Decimal numerals: their values and how numbers are written.
use vstd::prelude::*;
use crate::utils::text::{chars_of, string_push};

verus! {

/// The digit character of `d`, for `d < 10`.
pub open spec fn digit_char(d: nat) -> char {
    if d == 0 { '0' }
    else if d == 1 { '1' }
    else if d == 2 { '2' }
    else if d == 3 { '3' }
    else if d == 4 { '4' }
    else if d == 5 { '5' }
    else if d == 6 { '6' }
    else if d == 7 { '7' }
    else if d == 8 { '8' }
    else { '9' }
}

/// The value of a digit character.
pub open spec fn digit_value(c: char) -> nat {
    (c as u32 - '0' as u32) as nat
}

/// Whether every character of `s` is a digit.
pub open spec fn all_digits(s: Seq<char>) -> bool {
    forall|i: int| 0 <= i < s.len() ==> '0' as u32 <= #[trigger] s[i] as u32 && s[i] as u32 <= '9' as u32
}

/// The number that the digits `s` write in base ten.
pub open spec fn numeral_value(s: Seq<char>) -> nat
    decreases s.len(),
{
    if s.len() == 0 {
        0
    } else {
        numeral_value(s.drop_last()) * 10 + digit_value(s.last())
    }
}

/// How `n` is written in base ten, without leading zeros.
pub open spec fn numeral(n: nat) -> Seq<char>
    decreases n,
{
    if n < 10 {
        seq![digit_char(n)]
    } else {
        numeral(n / 10).push(digit_char(n % 10))
    }
}

/// How the integer `n` is written: a minus sign before a negative one.
pub open spec fn signed_numeral(n: int) -> Seq<char> {
    if n < 0 {
        seq!['-'] + numeral((-n) as nat)
    } else {
        numeral(n as nat)
    }
}

proof fn lemma_digit_round_trip(d: nat)
    requires
        d < 10,
    ensures
        digit_value(digit_char(d)) == d,
        '0' as u32 <= digit_char(d) as u32 <= '9' as u32,
{
    assert('0' as u32 == 48 && '1' as u32 == 49 && '2' as u32 == 50 && '3' as u32 == 51
        && '4' as u32 == 52 && '5' as u32 == 53 && '6' as u32 == 54 && '7' as u32 == 55
        && '8' as u32 == 56 && '9' as u32 == 57);
}

/// Writing a number in base ten and reading the digits back gives the
/// number: what `u128_text` writes, `parse_numeral` reads as the same value.
pub proof fn law_numeral_round_trip(n: nat)
    ensures
        numeral(n).len() > 0,
        all_digits(numeral(n)),
        numeral_value(numeral(n)) == n,
    decreases n,
{
    if n < 10 {
        lemma_digit_round_trip(n);
        assert(numeral(n).drop_last() =~= Seq::<char>::empty());
        assert(numeral(n).last() == digit_char(n));
        assert(numeral_value(numeral(n)) == numeral_value(Seq::<char>::empty()) * 10 + digit_value(digit_char(n)));
    } else {
        law_numeral_round_trip(n / 10);
        lemma_digit_round_trip(n % 10);
        let s = numeral(n / 10);
        assert(numeral(n) == s.push(digit_char(n % 10)));
        assert(numeral(n).drop_last() =~= s);
        assert(numeral(n).last() == digit_char(n % 10));
        assert(numeral_value(numeral(n)) == numeral_value(s) * 10 + digit_value(digit_char(n % 10)));
        assert((n / 10) * 10 + n % 10 == n);
        assert forall|i: int| 0 <= i < numeral(n).len() implies '0' as u32 <= #[trigger] numeral(n)[i] as u32 && numeral(n)[i] as u32 <= '9' as u32 by {
            if i < s.len() {
                assert(numeral(n)[i] == s[i]);
            } else {
                assert(numeral(n)[i] == digit_char(n % 10));
            }
        }
    }
}

/// The value of the digits `s`, where `s` is one or more digits and the
/// value fits in a `u128`.
pub fn parse_numeral(s: &str) -> (r: Option<u128>)
    ensures
        r matches Some(v) ==> v == numeral_value(s@),
        r is None <==> s@.len() == 0 || !all_digits(s@) || numeral_value(s@) > u128::MAX,
{
    let cs = chars_of(s);
    if cs.len() == 0 {
        return None;
    }
    let mut k: usize = 0;
    while k < cs.len()
        invariant
            cs@ == s@,
            k <= cs@.len(),
            forall|j: int| 0 <= j < k ==> '0' as u32 <= #[trigger] s@[j] as u32 && s@[j] as u32 <= '9' as u32,
        decreases cs.len() - k,
    {
        if (cs[k] as u32) < ('0' as u32) || (cs[k] as u32) > ('9' as u32) {
            assert(!all_digits(s@));
            return None;
        }
        k = k + 1;
    }
    let mut v: u128 = 0;
    let mut i: usize = 0;
    let mut overflow = false;
    while i < cs.len()
        invariant
            cs@ == s@,
            all_digits(s@),
            i <= cs@.len(),
            !overflow ==> v == numeral_value(s@.take(i as int)),
            overflow ==> numeral_value(s@.take(i as int)) > u128::MAX,
        decreases cs.len() - i,
    {
        assert(s@.take(i + 1).drop_last() =~= s@.take(i as int));
        let c = cs[i];
        assert('0' as u32 <= c as u32 && c as u32 <= '9' as u32);
        let d = (c as u32 - '0' as u32) as u128;
        if !overflow {
            if v > (u128::MAX - d) / 10 {
                overflow = true;
                assert(numeral_value(s@.take(i + 1)) > u128::MAX) by (nonlinear_arith)
                    requires
                        numeral_value(s@.take(i + 1)) == v * 10 + d,
                        v > (u128::MAX - d) / 10,
                        d <= 9,
                ;
            } else {
                assert(v * 10 + d <= u128::MAX) by (nonlinear_arith)
                    requires
                        v <= (u128::MAX - d) / 10,
                        d <= 9,
                ;
                v = v * 10 + d;
            }
        } else {
            assert(numeral_value(s@.take(i + 1)) > u128::MAX) by (nonlinear_arith)
                requires
                    numeral_value(s@.take(i + 1)) == numeral_value(s@.take(i as int)) * 10 + d,
                    numeral_value(s@.take(i as int)) > u128::MAX,
            ;
        }
        i = i + 1;
    }
    assert(s@.take(s@.len() as int) =~= s@);
    if overflow {
        None
    } else {
        Some(v)
    }
}

/// The digit character of `d`.
fn digit_of(d: u128) -> (c: char)
    requires
        d < 10,
    ensures
        c == digit_char(d as nat),
{
    if d == 0 { '0' }
    else if d == 1 { '1' }
    else if d == 2 { '2' }
    else if d == 3 { '3' }
    else if d == 4 { '4' }
    else if d == 5 { '5' }
    else if d == 6 { '6' }
    else if d == 7 { '7' }
    else if d == 8 { '8' }
    else { '9' }
}

/// Writes `n` in base ten.
pub fn u128_text(n: u128) -> (r: String)
    ensures
        r@ == numeral(n as nat),
    decreases n,
{
    if n < 10 {
        let mut s = String::new();
        string_push(&mut s, digit_of(n));
        assert(s@ =~= seq![digit_char(n as nat)]);
        s
    } else {
        let mut s = u128_text(n / 10);
        string_push(&mut s, digit_of(n % 10));
        s
    }
}

/// Writes `n` in base ten, with a minus sign when it is negative.
pub fn i128_text(n: i128) -> (r: String)
    ensures
        r@ == signed_numeral(n as int),
{
    if n < 0 {
        let m: u128 = ((-(n + 1)) as u128) + 1;
        let digits = u128_text(m);
        let mut s = String::new();
        string_push(&mut s, '-');
        let mut i: usize = 0;
        let cs = chars_of(digits.as_str());
        while i < cs.len()
            invariant
                cs@ == digits@,
                i <= cs@.len(),
                s@ == seq!['-'] + digits@.take(i as int),
            decreases cs.len() - i,
        {
            string_push(&mut s, cs[i]);
            assert(s@ =~= seq!['-'] + digits@.take(i + 1));
            i = i + 1;
        }
        assert(digits@.take(digits@.len() as int) =~= digits@);
        s
    } else {
        u128_text(n as u128)
    }
}

} // verus!
