//! How a failed validation is put to whoever supplied the input.
//!
//! A decoder that reads an identifier out of a document reports a failure in
//! its own terms: a wrong length, or a value found where another was expected.
//! What is found and what is expected is decided here, for each error.

use crate::borrowed::lei;
use crate::error::Error;
use crate::owned::Lei;
use crate::validate::{is_valid, lemma_reports_first_non_symbol, validation};
use vstd::prelude::*;

verus! {

/// What is expected where the length is wrong.
pub const EXPECTED_LENGTH: &'static str = "20 ASCII digits and upper-case characters";

/// What is expected in the place of a byte that is no symbol.
pub const EXPECTED_SYMBOL: &'static str = "A-Z, 0-9";

/// What is expected where the expanded digits cannot be read as a number.
pub const EXPECTED_NUMBER: &'static str =
    "20 ASCII digits and upper-case characters that correctly generate check digits";

/// What is expected where the check digits do not match.
pub const EXPECTED_MATCH: &'static str =
    "20 ASCII digits and upper-case characters with matching check digits";

/// What was found in the input.
#[derive(Clone, Copy, Debug, PartialEq, Eq)]
pub enum Unexpected<'a> {
    /// One character.
    Char(char),
    /// The whole input.
    Bytes(&'a [u8]),
}

/// A failed validation in the terms of a decoder.
#[derive(Clone, Copy, Debug, PartialEq, Eq)]
pub enum Rejection<'a> {
    /// The input has `len` bytes.
    InvalidLength { len: usize, expected: &'static str },
    /// The input holds something else than was expected.
    InvalidValue { unexpected: Unexpected<'a>, expected: &'static str },
}

/// The rejection that stands for the error `err` on the input `input`.
pub open spec fn rejection_of<'a>(input: &'a [u8], err: Error) -> Rejection<'a> {
    match err {
        Error::InvalidLength(len, _) => Rejection::InvalidLength { len, expected: EXPECTED_LENGTH },
        Error::InvalidCharacter(at) => Rejection::InvalidValue {
            unexpected: Unexpected::Char(input@[at as int] as char),
            expected: EXPECTED_SYMBOL,
        },
        Error::CheckDigitParse => Rejection::InvalidValue {
            unexpected: Unexpected::Bytes(input),
            expected: EXPECTED_NUMBER,
        },
        Error::CheckDigitFail => Rejection::InvalidValue {
            unexpected: Unexpected::Bytes(input),
            expected: EXPECTED_MATCH,
        },
    }
}

/// Puts the error `err`, which validation gave for `input`, in the terms of a
/// decoder: a wrong length with the length found, a byte that is no symbol
/// as the character found, and a failure of the check digits with the whole
/// input.
pub fn reject<'a>(input: &'a [u8], err: Error) -> (r: Rejection<'a>)
    requires
        err matches Error::InvalidCharacter(at) ==> at < input@.len(),
    ensures
        r == rejection_of(input, err),
{
    match err {
        Error::InvalidLength(len, _expected) => Rejection::InvalidLength {
            len,
            expected: EXPECTED_LENGTH,
        },
        Error::InvalidCharacter(at) => Rejection::InvalidValue {
            unexpected: Unexpected::Char(input[at] as char),
            expected: EXPECTED_SYMBOL,
        },
        Error::CheckDigitParse => Rejection::InvalidValue {
            unexpected: Unexpected::Bytes(input),
            expected: EXPECTED_NUMBER,
        },
        Error::CheckDigitFail => Rejection::InvalidValue {
            unexpected: Unexpected::Bytes(input),
            expected: EXPECTED_MATCH,
        },
    }
}

impl<'a> lei<'a> {
    /// Views `input` as an identifier where it is one; where it is none, says
    /// so in the terms of a decoder.
    pub fn decode(input: &'a [u8]) -> (r: Result<lei<'a>, Rejection<'a>>)
        ensures
            r is Ok <==> is_valid(input@),
            r matches Ok(l) ==> l@ == input@,
            r matches Err(rejection) ==> validation(input@) matches Err(e) && rejection
                == rejection_of(input, e),
    {
        match lei::from_bytes(input) {
            Ok(l) => Ok(l),
            Err(e) => {
                proof {
                    if input@.len() == 20 {
                        lemma_reports_first_non_symbol(input@);
                    }
                }
                Err(reject(input, e))
            },
        }
    }
}

impl Lei {
    /// Copies `input` into an identifier where it is one; where it is none,
    /// says so in the terms of a decoder.
    pub fn decode<'a>(input: &'a [u8]) -> (r: Result<Lei, Rejection<'a>>)
        ensures
            r is Ok <==> is_valid(input@),
            r matches Ok(l) ==> l@ == input@,
            r matches Err(rejection) ==> validation(input@) matches Err(e) && rejection
                == rejection_of(input, e),
    {
        match Lei::from_bytes(input) {
            Ok(l) => Ok(l),
            Err(e) => {
                proof {
                    if input@.len() == 20 {
                        lemma_reports_first_non_symbol(input@);
                    }
                }
                Err(reject(input, e))
            },
        }
    }
}

} // verus!
