//! Where the parts of an identifier lie.

use vstd::prelude::*;

verus! {

/// The number of symbols of an identifier.
pub const LEI_SIZE: usize = 20;

/// The number of symbols of the issuer prefix.
pub const ISSUER_SIZE: usize = 4;

/// Where the issuer prefix starts.
pub const LOU_START: usize = 0;

/// Where the issuer prefix ends.
pub const LOU_END: usize = LOU_START + ISSUER_SIZE;

/// The number of symbols of the entity part.
pub const ID_SIZE: usize = 14;

/// Where the entity part starts.
pub const ID_START: usize = LOU_END;

/// Where the entity part ends.
pub const ID_END: usize = ID_START + ID_SIZE;

/// The number of symbols that the check digits are computed from.
pub const CHECKED_SIZE: usize = ISSUER_SIZE + ID_SIZE;

/// The offset of the tens digit of the check digits.
pub const CHECK_TENS_POS: usize = 18;

/// The offset of the ones digit of the check digits.
pub const CHECK_ONES_POS: usize = 19;

/// The issuer prefix of the twenty bytes `s`.
pub open spec fn issuer_part(s: Seq<u8>) -> Seq<u8>
    recommends
        s.len() == LEI_SIZE,
{
    s.subrange(LOU_START as int, LOU_END as int)
}

/// The entity part of the twenty bytes `s`.
pub open spec fn entity_part(s: Seq<u8>) -> Seq<u8>
    recommends
        s.len() == LEI_SIZE,
{
    s.subrange(ID_START as int, ID_END as int)
}

/// The part of the twenty bytes `s` that the check digits are computed from:
/// the issuer prefix and the entity part.
pub open spec fn checked_part(s: Seq<u8>) -> Seq<u8>
    recommends
        s.len() == LEI_SIZE,
{
    s.subrange(0, CHECKED_SIZE as int)
}

/// The two check digits of the twenty bytes `s`.
pub open spec fn check_part(s: Seq<u8>) -> Seq<u8>
    recommends
        s.len() == LEI_SIZE,
{
    s.subrange(CHECK_TENS_POS as int, LEI_SIZE as int)
}

} // verus!
