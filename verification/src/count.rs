//! Counts written in decimal digits: page numbers read from a page and
//! written into an address.

use vstd::prelude::*;
use crate::text::{char_is_digit, chars_of, is_digit, text_of};

verus! {

/// The value of the digit `c`.
pub open spec fn digit_value(c: char) -> nat {
    (c as u32 - '0' as u32) as nat
}

/// The number that the digits `s` write; zero for no digits.
pub open spec fn digits_value(s: Seq<char>) -> nat
    decreases s.len(),
{
    if s.len() == 0 {
        0
    } else {
        digits_value(s.drop_last()) * 10 + digit_value(s.last())
    }
}

/// Whether `s` holds digits only.
pub open spec fn all_digits(s: Seq<char>) -> bool {
    forall|i: int| 0 <= i < s.len() ==> is_digit(#[trigger] s[i])
}

/// The count that `t` writes: an optional `+`, then one digit or more and
/// nothing else, where the number fits the machine's word.
pub open spec fn count_of(t: Seq<char>) -> Option<usize> {
    let digits = if t.len() > 0 && t[0] == '+' {
        t.subrange(1, t.len() as int)
    } else {
        t
    };
    if digits.len() > 0 && all_digits(digits) && digits_value(digits) <= usize::MAX {
        Some(digits_value(digits) as usize)
    } else {
        None
    }
}

/// The digits that write `n`, without a zero in front.
pub open spec fn digits_of(n: nat) -> Seq<char>
    decreases n,
{
    if n < 10 {
        seq![(('0' as u32) + n) as char]
    } else {
        digits_of(n / 10).push((('0' as u32) + n % 10) as char)
    }
}

/// More digits never write a smaller number.
pub proof fn lemma_digits_value_grows(s: Seq<char>, k: int)
    requires
        0 <= k <= s.len(),
    ensures
        digits_value(s.take(k)) <= digits_value(s),
    decreases s.len() - k,
{
    if k < s.len() {
        lemma_digits_value_grows(s, k + 1);
        assert(s.take(k + 1).drop_last() =~= s.take(k));
    } else {
        assert(s.take(k) =~= s);
    }
}

/// Reads a count.
#[verifier::loop_isolation(false)]
pub fn parse_count(text: &str) -> (r: Option<usize>)
    ensures
        r == count_of(text@),
{
    let t = chars_of(text);
    let start: usize = if t.len() > 0 && t[0] == '+' { 1 } else { 0 };
    let ghost digits = t@.subrange(start as int, t.len() as int);
    assert(t@.subrange(0, t.len() as int) =~= t@);
    if start == t.len() {
        return None;
    }
    let mut acc: usize = 0;
    let mut k: usize = start;
    while k < t.len()
        invariant
            start <= k <= t.len(),
            digits == t@.subrange(start as int, t.len() as int),
            all_digits(digits.take(k - start)),
            acc == digits_value(digits.take(k - start)),
        decreases t.len() - k,
    {
        let c = t[k];
        if !char_is_digit(c) {
            assert(!is_digit(digits[k - start]));
            return None;
        }
        let d: usize = (c as u32 - 0x30) as usize;
        proof {
            assert(digits.take(k - start + 1).drop_last() =~= digits.take(k - start));
            assert(digits.take(k - start + 1).last() == c);
            lemma_digits_value_grows(digits, k - start + 1);
            assert forall|i: int| 0 <= i < k - start + 1 implies is_digit(
                #[trigger] digits.take(k - start + 1)[i],
            ) by {
                if i < k - start {
                    assert(digits.take(k - start)[i] == digits[i]);
                }
            }
        }
        assert(digit_value(c) == d);
        assert(digits_value(digits.take(k - start + 1)) == acc * 10 + d);
        if acc > (usize::MAX - d) / 10 {
            assert(acc * 10 + d > usize::MAX) by (nonlinear_arith)
                requires
                    acc > (usize::MAX - d) / 10,
                    0 <= d <= 9,
            ;
            return None;
        }
        assert(acc * 10 + d <= usize::MAX) by (nonlinear_arith)
            requires
                acc <= (usize::MAX - d) / 10,
                0 <= d <= 9,
        ;
        acc = acc * 10 + d;
        k += 1;
    }
    assert(digits.take(k - start) =~= digits);
    Some(acc)
}

/// Appends the digits of `n` to `out`.
fn push_digits(n: usize, out: &mut Vec<char>)
    ensures
        final(out)@ == old(out)@ + digits_of(n as nat),
    decreases n,
{
    if n >= 10 {
        push_digits(n / 10, out);
    }
    let d: u8 = (n % 10) as u8;
    let c: char = (0x30u8 + d) as char;
    out.push(c);
    proof {
        if n >= 10 {
            assert(final(out)@ =~= old(out)@ + digits_of(n as nat));
        } else {
            assert(final(out)@ =~= old(out)@ + digits_of(n as nat));
        }
    }
}

/// Writes a count in decimal digits.
pub fn count_text(n: usize) -> (r: String)
    ensures
        r@ == digits_of(n as nat),
{
    let mut out: Vec<char> = Vec::new();
    push_digits(n, &mut out);
    assert(out@ =~= digits_of(n as nat));
    text_of(&out)
}

} // verus!
