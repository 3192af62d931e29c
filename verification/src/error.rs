//! The ways in which a byte string fails to be an identifier.

use core::num::ParseIntError;
use vstd::prelude::*;
use vstd::std_specs::convert::FromSpecImpl;

verus! {

/// Why a byte string was turned down.
#[derive(Clone, Copy, Debug, PartialEq, Eq, Structural, PartialOrd, Ord, Hash)]
pub enum Error {
    /// The input has the wrong length: the length found, then the length asked for.
    InvalidLength(usize, usize),
    /// The symbol at this offset is neither an upper-case letter nor a digit.
    InvalidCharacter(usize),
    /// The expanded digit string could not be read as a number.
    CheckDigitParse,
    /// The check digits are not the ones that the other symbols call for.
    CheckDigitFail,
}

/// `core::num::ParseIntError`, the error of std's integer parsers. Nothing is
/// said of what it holds; it is only carried through.
#[verifier::external_type_specification]
#[verifier::external_body]
pub struct ExParseIntError(core::num::ParseIntError);

impl From<ParseIntError> for Error {
    fn from(_value: ParseIntError) -> (r: Error) {
        Error::CheckDigitParse
    }
}

impl FromSpecImpl<ParseIntError> for Error {
    open spec fn obeys_from_spec() -> bool {
        true
    }

    open spec fn from_spec(_value: ParseIntError) -> Error {
        Error::CheckDigitParse
    }
}

} // verus!
