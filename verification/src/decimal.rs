//! Strings of ASCII digits read as numbers in base ten.

use crate::alphabet::{digit, is_digit, ZERO};
use vstd::prelude::*;

verus! {

/// Every byte of `s` is an ASCII digit.
pub open spec fn all_digits(s: Seq<u8>) -> bool {
    forall|i: int| 0 <= i < s.len() ==> is_digit(#[trigger] s[i])
}

/// The number that the ASCII digits of `s` denote in base ten, the first
/// digit being the most significant. The empty string denotes zero.
pub open spec fn decimal_value(s: Seq<u8>) -> nat
    recommends
        all_digits(s),
    decreases s.len(),
{
    if s.len() == 0 {
        0
    } else {
        decimal_value(s.drop_last()) * 10 + (s.last() - 48) as nat
    }
}

/// Ten to the power of `n`.
pub open spec fn pow10(n: nat) -> nat
    decreases n,
{
    if n == 0 {
        1
    } else {
        10 * pow10((n - 1) as nat)
    }
}

/// Appending one digit multiplies the value by ten and adds the digit.
pub proof fn lemma_decimal_push(s: Seq<u8>, d: u8)
    requires
        is_digit(d),
    ensures
        decimal_value(s.push(d)) == decimal_value(s) * 10 + (d - 48),
{
    assert(s.push(d).drop_last() =~= s);
}

/// A string of `n` digits denotes a number below ten to the `n`.
pub proof fn lemma_decimal_bound(s: Seq<u8>)
    requires
        all_digits(s),
    ensures
        decimal_value(s) < pow10(s.len()),
    decreases s.len(),
{
    if s.len() > 0 {
        lemma_decimal_bound(s.drop_last());
    }
}

/// Ten to the `n` grows with `n`.
pub proof fn lemma_pow10_monotonic(m: nat, n: nat)
    requires
        m <= n,
    ensures
        0 < pow10(m) <= pow10(n),
    decreases n,
{
    if n == 0 {
    } else if m == n {
        lemma_pow10_monotonic(0, (n - 1) as nat);
    } else {
        lemma_pow10_monotonic(m, (n - 1) as nat);
    }
}

/// A number of at most 38 digits fits in 128 bits.
pub proof fn lemma_pow10_38_fits()
    ensures
        pow10(38) == 100_000_000_000_000_000_000_000_000_000_000_000_000,
        pow10(38) <= u128::MAX,
{
    reveal_with_fuel(pow10, 39);
}

/// A prefix of a digit string denotes no more than the whole string.
pub proof fn lemma_decimal_prefix(s: Seq<u8>, n: int)
    requires
        all_digits(s),
        0 <= n <= s.len(),
    ensures
        decimal_value(s.take(n)) <= decimal_value(s),
    decreases s.len() - n,
{
    if n == s.len() {
        assert(s.take(n) =~= s);
    } else {
        lemma_decimal_prefix(s.drop_last(), n);
        assert(s.drop_last().take(n) =~= s.take(n));
    }
}

/// Reads `text` as a number in base ten.
///
/// The result is the number that the digits denote. There is none where
/// `text` is empty, holds a byte that is no digit, or denotes a number that
/// does not fit in 128 bits.
pub fn parse_decimal(text: &[u8]) -> (r: Option<u128>)
    ensures
        r == if text@.len() > 0 && all_digits(text@) && decimal_value(text@) <= u128::MAX {
            Some(decimal_value(text@) as u128)
        } else {
            None
        },
{
    if text.len() == 0 {
        return None;
    }
    let mut acc: u128 = 0;
    let mut i: usize = 0;
    while i < text.len()
        invariant
            i <= text@.len(),
            all_digits(text@.take(i as int)),
            acc == decimal_value(text@.take(i as int)),
        decreases text@.len() - i,
    {
        let b: u8 = text[i];
        if !digit(b) {
            return None;
        }
        proof {
            assert(text@.take(i + 1) =~= text@.take(i as int).push(b));
            lemma_decimal_push(text@.take(i as int), b);
            if all_digits(text@) {
                lemma_decimal_prefix(text@, i + 1);
            }
        }
        let shifted: u128 = match acc.checked_mul(10) {
            Some(v) => v,
            None => { return None; },
        };
        acc = match shifted.checked_add((b - ZERO) as u128) {
            Some(v) => v,
            None => { return None; },
        };
        i += 1;
    }
    proof {
        assert(text@.take(i as int) =~= text@);
    }
    Some(acc)
}

} // verus!
