//! The one routine that decides whether a byte string is an identifier.

use crate::alphabet::{is_digit, is_symbol, ZERO};
use crate::checksum::{all_symbols, check_value, expand, expansion, lemma_expansion};
use crate::decimal::{
    decimal_value, lemma_decimal_bound, lemma_decimal_push, lemma_pow10_38_fits,
    lemma_pow10_monotonic, parse_decimal,
};
use crate::error::Error;
use crate::layout::{
    check_part, checked_part, CHECKED_SIZE, CHECK_ONES_POS, CHECK_TENS_POS, LEI_SIZE,
};
use vstd::prelude::*;

verus! {

/// The ASCII digit in the tens place of the check digits that belong to `body`.
pub open spec fn check_tens(body: Seq<u8>) -> nat {
    check_value(body) / 10 + 48
}

/// The ASCII digit in the ones place of the check digits that belong to `body`.
pub open spec fn check_ones(body: Seq<u8>) -> nat {
    check_value(body) % 10 + 48
}

/// `s` is an identifier: twenty bytes, of which the first eighteen are symbols
/// and the last two are the check digits that belong to them.
pub open spec fn is_valid(s: Seq<u8>) -> bool {
    &&& s.len() == 20
    &&& all_symbols(checked_part(s))
    &&& s[18] == check_tens(checked_part(s))
    &&& s[19] == check_ones(checked_part(s))
}

/// The offset of the first byte of `s` that is no symbol, or the length of `s`
/// where every byte is one.
pub open spec fn first_non_symbol(s: Seq<u8>) -> nat
    decreases s.len(),
{
    if s.len() == 0 {
        0
    } else {
        let p = first_non_symbol(s.drop_last());
        if p == s.len() - 1 && is_symbol(s.last()) {
            s.len()
        } else {
            p
        }
    }
}

/// What validating the bytes `s` comes to: the length is looked at first, then
/// the symbols from the left, then the check digits.
pub open spec fn validation(s: Seq<u8>) -> Result<(), Error> {
    if s.len() != 20 {
        Err(Error::InvalidLength(s.len() as usize, 20))
    } else if !all_symbols(checked_part(s)) {
        Err(Error::InvalidCharacter(first_non_symbol(checked_part(s)) as usize))
    } else if s[18] == check_tens(checked_part(s)) && s[19] == check_ones(checked_part(s)) {
        Ok(())
    } else {
        Err(Error::CheckDigitFail)
    }
}

/// What `first_non_symbol` finds: everything before it is a symbol, the byte
/// at it is none, and it is the length exactly where every byte is a symbol.
pub proof fn lemma_first_non_symbol(s: Seq<u8>)
    ensures
        first_non_symbol(s) <= s.len(),
        all_symbols(s.take(first_non_symbol(s) as int)),
        first_non_symbol(s) < s.len() ==> !is_symbol(s[first_non_symbol(s) as int]),
        first_non_symbol(s) == s.len() <==> all_symbols(s),
    decreases s.len(),
{
    if s.len() > 0 {
        let head = s.drop_last();
        lemma_first_non_symbol(head);
        let p = first_non_symbol(head);
        if p == s.len() - 1 {
            assert(head.take(p as int) =~= head);
            if is_symbol(s.last()) {
                assert(s.take(s.len() as int) =~= s);
                assert forall|i: int| 0 <= i < s.len() implies is_symbol(#[trigger] s[i]) by {
                    if i < s.len() - 1 {
                        assert(s[i] == head[i]);
                    }
                }
            } else {
                assert(s.take(p as int) =~= head);
            }
        } else {
            assert(s.take(p as int) =~= head.take(p as int));
            assert(s[p as int] == head[p as int]);
        }
    } else {
        assert(s.take(0) =~= s);
    }
}

/// The first byte that is no symbol is the only offset with symbols before it
/// and none at it.
pub proof fn lemma_first_non_symbol_is(s: Seq<u8>, p: int)
    requires
        0 <= p < s.len(),
        !is_symbol(s[p]),
        all_symbols(s.take(p)),
    ensures
        first_non_symbol(s) == p,
{
    lemma_first_non_symbol(s);
    let q = first_non_symbol(s) as int;
    if q < p {
        assert(s.take(p)[q] == s[q]);
    } else if q > p {
        assert(s.take(q)[p] == s[p]);
    }
}

/// Bytes of the right length are turned down for a symbol exactly where one
/// of the first eighteen is none, and the offset reported is that of the first
/// such byte.
pub proof fn lemma_reports_first_non_symbol(s: Seq<u8>)
    requires
        s.len() == 20,
    ensures
        validation(s) matches Err(Error::InvalidCharacter(at)) <==> !all_symbols(checked_part(s)),
        validation(s) matches Err(Error::InvalidCharacter(at)) ==> {
            &&& at < 18
            &&& !is_symbol(s[at as int])
            &&& forall|j: int| 0 <= j < at ==> is_symbol(#[trigger] s[j])
        },
{
    let body = checked_part(s);
    lemma_first_non_symbol(body);
    let p = first_non_symbol(body) as int;
    if !all_symbols(body) {
        assert(body[p] == s[p]);
        assert forall|j: int| 0 <= j < p implies is_symbol(#[trigger] s[j]) by {
            assert(body.take(p)[j] == s[j]);
        }
    }
}

/// An identifier is made of symbols throughout, its last two being digits,
/// and its check digits lie between 2 and 98.
pub proof fn lemma_valid_shape(s: Seq<u8>)
    requires
        is_valid(s),
    ensures
        all_symbols(s),
        is_digit(s[18]),
        is_digit(s[19]),
        decimal_value(check_part(s)) == check_value(checked_part(s)),
        2 <= check_value(checked_part(s)) <= 98,
{
    let body = checked_part(s);
    assert forall|i: int| 0 <= i < s.len() implies is_symbol(#[trigger] s[i]) by {
        if i < 18 {
            assert(s[i] == body[i]);
        }
    }
    let pair = check_part(s);
    assert(pair.drop_last() =~= seq![s[18]]);
    assert(seq![s[18]].drop_last() =~= Seq::<u8>::empty());
    reveal_with_fuel(decimal_value, 3);
}

/// Checks that `bytes` is an identifier.
///
/// The length is checked first. The first eighteen bytes are then expanded
/// into a scratch buffer of decimal digits, two zeros are put behind them, and
/// the buffer is read as one number; 98 less its remainder modulo 97 must be
/// what the last two bytes spell.
pub fn validate(bytes: &[u8]) -> (r: Result<(), Error>)
    ensures
        r == validation(bytes@),
        r is Ok <==> is_valid(bytes@),
        bytes@.len() != 20 ==> r == Err::<(), Error>(
            Error::InvalidLength(bytes@.len() as usize, 20),
        ),
        r matches Err(Error::InvalidCharacter(at)) ==> {
            &&& at < 18
            &&& !is_symbol(bytes@[at as int])
            &&& forall|j: int| 0 <= j < at ==> is_symbol(#[trigger] bytes@[j])
        },
        r != Err::<(), Error>(Error::CheckDigitParse),
{
    proof {
        if bytes@.len() == 20 {
            lemma_reports_first_non_symbol(bytes@);
        }
    }
    if bytes.len() != LEI_SIZE {
        return Err(Error::InvalidLength(bytes.len(), LEI_SIZE));
    }
    let (body, _check) = bytes.split_at(CHECKED_SIZE);
    let (mut scratch, mut used) = match expand(body) {
        Ok(filled) => filled,
        Err(at) => {
            proof {
                lemma_first_non_symbol_is(body@, at as int);
                lemma_first_non_symbol(body@);
            }
            return Err(Error::InvalidCharacter(at));
        },
    };
    proof {
        lemma_expansion(body@);
    }
    let ghost digits = expansion(body@);
    scratch[used] = ZERO;
    used += 1;
    scratch[used] = ZERO;
    used += 1;

    let (number, _trailer) = scratch.as_slice().split_at(used);
    proof {
        assert(number@ =~= digits.push(48).push(48));
        lemma_decimal_push(digits, 48);
        lemma_decimal_push(digits.push(48), 48);
        lemma_decimal_bound(number@);
        lemma_pow10_monotonic(number@.len(), 38);
        lemma_pow10_38_fits();
    }
    match parse_decimal(number) {
        Some(check_sum) => {
            let check_digits: u128 = 98 - (check_sum % 97);
            if check_digits < 1 || check_digits > 98 {
                return Err(Error::CheckDigitFail);
            }
            let tens: u8 = (check_digits as u8) / 10;
            let ones: u8 = (check_digits as u8) % 10;
            if bytes[CHECK_TENS_POS] != tens + ZERO || bytes[CHECK_ONES_POS] != ones + ZERO {
                Err(Error::CheckDigitFail)
            } else {
                Ok(())
            }
        },
        None => Err(Error::CheckDigitParse),
    }
}

} // verus!
