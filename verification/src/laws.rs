//! What holds of validation whatever the input.

use crate::alphabet::{is_digit, is_symbol, is_upper, symbol_value};
use crate::checksum::{all_symbols, check_value, expanded_value};
use crate::decimal::decimal_value;
use crate::error::Error;
use crate::layout::{check_part, checked_part};
use crate::text::{lemma_ascii_text, lemma_symbols_are_ascii, lemma_text_of_encoding, text};
use crate::validate::{is_valid, lemma_first_non_symbol_is, lemma_valid_shape, validation};
use vstd::arithmetic::div_mod::{lemma_fundamental_div_mod, lemma_mod_multiples_vanish};
use vstd::prelude::*;
use vstd::utf8::encode_utf8;

verus! {

/// A letter stands for its place in the alphabet plus nine, `'A'` for 10 and
/// `'Z'` for 35; a digit stands for itself.
pub proof fn lemma_symbol_value(b: u8)
    ensures
        is_upper(b) ==> symbol_value(b) == b - 65 + 10 && 10 <= symbol_value(b) <= 35,
        is_digit(b) ==> symbol_value(b) == b - 48 && symbol_value(b) <= 9,
{
}

/// Bytes of any length but twenty are turned down for their length, whatever
/// they hold.
pub proof fn lemma_wrong_length(s: Seq<u8>)
    requires
        s.len() != 20,
    ensures
        validation(s) == Err::<(), Error>(Error::InvalidLength(s.len() as usize, 20)),
{
}

/// Validation succeeds on the identifiers and on nothing else, and it never
/// fails for want of a number to read.
pub proof fn lemma_accepts_exactly_the_valid(s: Seq<u8>)
    ensures
        validation(s) is Ok <==> is_valid(s),
        validation(s) != Err::<(), Error>(Error::CheckDigitParse),
{
}

/// The text of an identifier that was read from a string is that string.
pub proof fn lemma_text_round_trip(chars: Seq<char>)
    requires
        is_valid(encode_utf8(chars)),
    ensures
        text(encode_utf8(chars)) == chars,
{
    lemma_valid_shape(encode_utf8(chars));
    lemma_symbols_are_ascii(encode_utf8(chars));
    lemma_text_of_encoding(chars, encode_utf8(chars));
}

/// Validating the text of an identifier again succeeds: the text is encoded
/// by the identifier's own bytes.
pub proof fn lemma_revalidation(s: Seq<u8>)
    requires
        is_valid(s),
    ensures
        encode_utf8(text(s)) == s,
        validation(s) == Ok::<(), Error>(()),
        validation(encode_utf8(text(s))) == Ok::<(), Error>(()),
{
    lemma_valid_shape(s);
    lemma_symbols_are_ascii(s);
    lemma_ascii_text(s);
}

/// Putting any other byte in the place of one of the two check digits of an
/// identifier makes the check digits fail.
pub proof fn lemma_altered_check_digit(s: Seq<u8>, at: int, b: u8)
    requires
        is_valid(s),
        at == 18 || at == 19,
        b != s[at],
    ensures
        validation(s.update(at, b)) == Err::<(), Error>(Error::CheckDigitFail),
{
    let t = s.update(at, b);
    assert(checked_part(t) =~= checked_part(s));
}

/// A byte that is no symbol, put among the first eighteen bytes behind symbols
/// only, is reported at its own offset.
pub proof fn lemma_foreign_byte(s: Seq<u8>, at: int, b: u8)
    requires
        s.len() == 20,
        0 <= at < 18,
        forall|j: int| 0 <= j < at ==> is_symbol(#[trigger] s[j]),
        !is_symbol(b),
    ensures
        validation(s.update(at, b)) == Err::<(), Error>(Error::InvalidCharacter(at as usize)),
{
    let t = s.update(at, b);
    let body = checked_part(t);
    assert(body[at] == b);
    assert forall|j: int| 0 <= j < at implies is_symbol(#[trigger] body.take(at)[j]) by {
        assert(body.take(at)[j] == s[j]);
    }
    lemma_first_non_symbol_is(body, at);
}

/// The twenty symbols of an identifier, expanded and read as one number, leave
/// the remainder 1 when divided by 97. Among the strings of eighteen symbols
/// and two digits, the identifiers are those with that remainder whose two
/// digits spell a number from 2 to 98.
pub proof fn lemma_remainder_is_one(s: Seq<u8>)
    requires
        s.len() == 20,
        all_symbols(checked_part(s)),
        is_digit(s[18]),
        is_digit(s[19]),
    ensures
        expanded_value(s) == expanded_value(checked_part(s)) * 100 + decimal_value(check_part(s)),
        is_valid(s) <==> expanded_value(s) % 97 == 1 && 2 <= decimal_value(check_part(s)) <= 98,
{
    let body = checked_part(s);
    let n = expanded_value(body);
    let pair = check_part(s);
    let c = decimal_value(pair);
    assert(c == (s[18] - 48) * 10 + (s[19] - 48)) by {
        assert(pair.drop_last() =~= seq![s[18]]);
        assert(seq![s[18]].drop_last() =~= Seq::<u8>::empty());
        reveal_with_fuel(decimal_value, 3);
    }
    assert(expanded_value(s) == n * 100 + c) by {
        assert(s.drop_last().drop_last() =~= body);
        assert(s.drop_last().last() == s[18]);
        reveal_with_fuel(expanded_value, 3);
    }
    let m = n * 100;
    lemma_fundamental_div_mod(m as int, 97);
    let q = m as int / 97;
    let r = m as int % 97;
    assert(check_value(body) == 98 - r);
    assert((97 * q + r + c) % 97 == (r + c) % 97) by {
        lemma_mod_multiples_vanish(q, r + c, 97);
    }
}

} // verus!
