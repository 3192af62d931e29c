//! The ISO/IEC 7064 MOD 97-10 check digits of an identifier.
//!
//! The symbols before the check digits are read as one number: every letter
//! is replaced by the two decimal digits of its value, every digit stands for
//! itself. Two zeros are put behind that number; 98 less its remainder modulo
//! 97 gives the check digits.

use crate::alphabet::{digit, is_symbol, symbol_value, upper, LETTER_OFFSET, ZERO};
use crate::decimal::{all_digits, decimal_value, lemma_decimal_push};
use vstd::prelude::*;

verus! {

/// Every byte of `s` belongs to the alphabet.
pub open spec fn all_symbols(s: Seq<u8>) -> bool {
    forall|i: int| 0 <= i < s.len() ==> is_symbol(#[trigger] s[i])
}

/// The number that a string of symbols denotes once every symbol is replaced
/// by the decimal digits of its value.
pub open spec fn expanded_value(s: Seq<u8>) -> nat
    recommends
        all_symbols(s),
    decreases s.len(),
{
    if s.len() == 0 {
        0
    } else {
        let v = symbol_value(s.last());
        if v < 10 {
            expanded_value(s.drop_last()) * 10 + v
        } else {
            expanded_value(s.drop_last()) * 100 + v
        }
    }
}

/// The check digits, as a number, that belong to the symbols `body`.
pub open spec fn check_value(body: Seq<u8>) -> nat {
    (98 - (expanded_value(body) * 100) % 97) as nat
}

/// The ASCII digits that one symbol expands to.
pub open spec fn symbol_digits(b: u8) -> Seq<u8>
    recommends
        is_symbol(b),
{
    let v = symbol_value(b);
    if v < 10 {
        seq![(v + 48) as u8]
    } else {
        seq![(v / 10 + 48) as u8, (v % 10 + 48) as u8]
    }
}

/// The string of ASCII digits that the symbols of `s` expand to.
pub open spec fn expansion(s: Seq<u8>) -> Seq<u8>
    recommends
        all_symbols(s),
    decreases s.len(),
{
    if s.len() == 0 {
        Seq::empty()
    } else {
        expansion(s.drop_last()) + symbol_digits(s.last())
    }
}

/// The expansion of a string of symbols is a string of digits, at most twice
/// as long, and denotes the expanded value.
pub proof fn lemma_expansion(s: Seq<u8>)
    requires
        all_symbols(s),
    ensures
        all_digits(expansion(s)),
        s.len() <= expansion(s).len() <= 2 * s.len(),
        decimal_value(expansion(s)) == expanded_value(s),
    decreases s.len(),
{
    if s.len() > 0 {
        let head = s.drop_last();
        let b = s.last();
        lemma_expansion(head);
        let v = symbol_value(b);
        if v < 10 {
            let d = (v + 48) as u8;
            assert(expansion(s) =~= expansion(head).push(d));
            lemma_decimal_push(expansion(head), d);
        } else {
            let d1 = (v / 10 + 48) as u8;
            let d2 = (v % 10 + 48) as u8;
            assert(expansion(s) =~= expansion(head).push(d1).push(d2));
            lemma_decimal_push(expansion(head), d1);
            lemma_decimal_push(expansion(head).push(d1), d2);
        }
    }
}

/// Writes the digits that the symbols of `body` expand to at the start of a
/// scratch buffer. The buffer has room for the digits of twenty symbols.
///
/// The result is the buffer and the number of digits written, or the offset
/// of the first byte of `body` that is no symbol.
pub fn expand(body: &[u8]) -> (r: Result<([u8; 40], usize), usize>)
    requires
        body@.len() <= 20,
    ensures
        match r {
            Ok((scratch, used)) => {
                &&& all_symbols(body@)
                &&& used <= 40
                &&& scratch@.take(used as int) == expansion(body@)
            },
            Err(at) => {
                &&& at < body@.len()
                &&& !is_symbol(body@[at as int])
                &&& all_symbols(body@.take(at as int))
            },
        },
{
    let mut scratch = [0u8; 40];
    let mut used: usize = 0;
    let mut i: usize = 0;
    while i < body.len()
        invariant
            i <= body@.len() <= 20,
            used <= 2 * i,
            all_symbols(body@.take(i as int)),
            scratch@.take(used as int) == expansion(body@.take(i as int)),
        decreases body@.len() - i,
    {
        let b: u8 = body[i];
        let ghost before = scratch@.take(used as int);
        proof {
            assert(body@.take(i + 1).drop_last() =~= body@.take(i as int));
            assert(body@.take(i + 1).last() == b);
        }
        if upper(b) {
            let value: u8 = b - LETTER_OFFSET;
            scratch[used] = value / 10 + ZERO;
            used += 1;
            scratch[used] = value % 10 + ZERO;
            used += 1;
            proof {
                assert(scratch@.take(used as int) =~= before + symbol_digits(b));
            }
        } else if digit(b) {
            scratch[used] = b;
            used += 1;
            proof {
                assert(scratch@.take(used as int) =~= before + symbol_digits(b));
            }
        } else {
            return Err(i);
        }
        i += 1;
    }
    proof {
        assert(body@.take(i as int) =~= body@);
    }
    Ok((scratch, used))
}

} // verus!
