//! The alphabet of an identifier and the number that each symbol stands for.

use vstd::prelude::*;

verus! {

/// ASCII code of `'0'`.
pub const ZERO: u8 = 48;

/// What is taken off an upper-case letter to get its number: `'A'` is 65 and stands for 10.
pub const LETTER_OFFSET: u8 = 55;

/// `b` is one of `'A'` to `'Z'`.
pub open spec fn is_upper(b: u8) -> bool {
    65 <= b <= 90
}

/// `b` is one of `'0'` to `'9'`.
pub open spec fn is_digit(b: u8) -> bool {
    48 <= b <= 57
}

/// `b` belongs to the alphabet of identifiers.
pub open spec fn is_symbol(b: u8) -> bool {
    is_upper(b) || is_digit(b)
}

/// The number that a symbol stands for: a digit for itself, `'A'` for 10 and
/// so on up to `'Z'` for 35.
pub open spec fn symbol_value(b: u8) -> nat
    recommends
        is_symbol(b),
{
    if is_digit(b) {
        (b - 48) as nat
    } else {
        (b - 55) as nat
    }
}

/// Tells whether `b` is an upper-case ASCII letter.
pub fn upper(b: u8) -> (r: bool)
    ensures
        r == is_upper(b),
{
    65 <= b && b <= 90
}

/// Tells whether `b` is an ASCII digit.
pub fn digit(b: u8) -> (r: bool)
    ensures
        r == is_digit(b),
{
    48 <= b && b <= 57
}

} // verus!
