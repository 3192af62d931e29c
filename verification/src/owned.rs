//! The owned identifier: twenty bytes of its own.

use crate::borrowed::lei;
use crate::checksum::check_value;
use crate::decimal::decimal_value;
use crate::error::Error;
use crate::layout::{check_part, checked_part, entity_part, issuer_part, LEI_SIZE};
use crate::order::byte_order;
use crate::text::{lemma_symbols_are_ascii, lemma_text_of_encoding, text};
use crate::validate::{is_valid, lemma_valid_shape, validate, validation};
use std::cmp::Ordering;
use std::str::FromStr;
use vstd::prelude::*;
use vstd::std_specs::cmp::{PartialEqSpecImpl, PartialOrdSpecImpl};
use vstd::std_specs::convert::{FromSpecImpl, TryFromSpecImpl};
use vstd::utf8::encode_utf8;

verus! {

/// A checked identifier that holds its twenty bytes itself.
///
/// A value exists only for bytes that passed validation. Two values are equal
/// where their bytes are.
#[derive(Clone, Copy, Debug, Eq, Ord, Hash)]
pub struct Lei {
    bytes: [u8; 20],
}

impl View for Lei {
    type V = Seq<u8>;

    closed spec fn view(&self) -> Seq<u8> {
        self.bytes@
    }
}

impl Lei {
    #[verifier::type_invariant]
    spec fn checked(self) -> bool {
        is_valid(self.bytes@)
    }

    /// The identifier that holds the bytes `s`, for `s` an identifier.
    pub closed spec fn holding(s: Seq<u8>) -> Lei {
        choose|l: Lei| l.bytes@ == s
    }

    /// Two identifiers with the same bytes are the same, so each is the one
    /// that holds its bytes.
    pub proof fn lemma_holding(self)
        ensures
            Lei::holding(self@) == self,
    {
        let other = Lei::holding(self@);
        assert(other.bytes@ == self.bytes@);
        assert(other.bytes =~= self.bytes);
    }

    /// Copies a borrowed identifier.
    pub fn from_lei(src: &lei) -> (r: Lei)
        ensures
            r@ == src@,
    {
        Self::from_bytes_unchecked(src.as_bytes())
    }

    /// Copies `bytes` into an identifier where they are one, and says why
    /// they are none where they are not.
    pub fn from_bytes(bytes: &[u8]) -> (r: Result<Lei, Error>)
        ensures
            r is Ok <==> is_valid(bytes@),
            r matches Ok(l) ==> l@ == bytes@,
            r matches Err(e) ==> validation(bytes@) == Err::<(), Error>(e),
    {
        if let Err(e) = validate(bytes) {
            Err(e)
        } else {
            Ok(Self::from_bytes_unchecked(bytes))
        }
    }

    /// Takes the twenty bytes as an identifier where they are one, and says
    /// why they are none where they are not.
    pub fn from_byte_array(bytes: [u8; 20]) -> (r: Result<Lei, Error>)
        ensures
            r is Ok <==> is_valid(bytes@),
            r matches Ok(l) ==> l@ == bytes@,
            r matches Err(e) ==> validation(bytes@) == Err::<(), Error>(e),
    {
        if let Err(e) = validate(bytes.as_slice()) {
            Err(e)
        } else {
            Ok(Lei { bytes })
        }
    }

    /// Copies the bytes of `src` into an identifier where they are one, and
    /// says why they are none where they are not.
    pub fn from_str_slice(src: &str) -> (r: Result<Lei, Error>)
        ensures
            r is Ok <==> is_valid(encode_utf8(src@)),
            r matches Ok(l) ==> l@ == encode_utf8(src@) && text(l@) == src@,
            r matches Err(e) ==> validation(encode_utf8(src@)) == Err::<(), Error>(e),
    {
        let r = Self::from_bytes(src.as_bytes());
        proof {
            if r is Ok {
                lemma_valid_shape(encode_utf8(src@));
                lemma_symbols_are_ascii(encode_utf8(src@));
                lemma_text_of_encoding(src@, encode_utf8(src@));
            }
        }
        r
    }

    /// Copies bytes that are known to be an identifier.
    pub(crate) fn from_bytes_unchecked(slice: &[u8]) -> (r: Lei)
        requires
            is_valid(slice@),
        ensures
            r@ == slice@,
    {
        let mut bytes = [0u8; 20];
        let mut i: usize = 0;
        while i < LEI_SIZE
            invariant
                i <= 20,
                slice@.len() == 20,
                forall|j: int| 0 <= j < i ==> bytes@[j] == slice@[j],
            decreases 20 - i,
        {
            bytes[i] = slice[i];
            i += 1;
        }
        proof {
            assert(bytes@ =~= slice@);
        }
        Lei { bytes }
    }

    /// The bytes of the identifier.
    pub fn as_bytes(&self) -> (r: &[u8])
        ensures
            r@ == self@,
            is_valid(self@),
    {
        self.as_lei().as_bytes()
    }

    /// The identifier as text.
    pub fn as_str(&self) -> (r: &str)
        ensures
            r@ == text(self@),
            encode_utf8(r@) == self@,
            is_valid(self@),
    {
        self.as_lei().as_str()
    }

    /// The three parts of the identifier: the issuer prefix, the entity part
    /// and the check digits as a number.
    pub fn split(&self) -> (r: (&str, &str, u8))
        ensures
            r.0@ == text(issuer_part(self@)),
            r.1@ == text(entity_part(self@)),
            r.2 == decimal_value(check_part(self@)),
            r.2 == check_value(checked_part(self@)),
            2 <= r.2 <= 98,
    {
        self.as_lei().split()
    }

    /// The issuer prefix: the first four symbols.
    pub fn lou(&self) -> (r: &str)
        ensures
            r@ == text(issuer_part(self@)),
    {
        self.as_lei().lou()
    }

    /// The entity part: the fourteen symbols behind the issuer prefix.
    pub fn id(&self) -> (r: &str)
        ensures
            r@ == text(entity_part(self@)),
    {
        self.as_lei().id()
    }

    /// The check digits as a number.
    pub fn check_digits(&self) -> (r: u8)
        ensures
            r == decimal_value(check_part(self@)),
            r == check_value(checked_part(self@)),
            2 <= r <= 98,
    {
        self.as_lei().check_digits()
    }

    /// The identifier as a borrowed one, over the bytes held here.
    pub fn as_lei(&self) -> (r: lei<'_>)
        ensures
            r@ == self@,
    {
        proof {
            use_type_invariant(self);
        }
        lei::from_bytes_unchecked(self.bytes.as_slice())
    }
}

impl<'a> From<&lei<'a>> for Lei {
    fn from(value: &lei<'a>) -> (r: Lei) {
        let r = Lei::from_lei(value);
        proof {
            r.lemma_holding();
        }
        r
    }
}

impl<'a> FromSpecImpl<&lei<'a>> for Lei {
    open spec fn obeys_from_spec() -> bool {
        true
    }

    open spec fn from_spec(value: &lei<'a>) -> Lei {
        Lei::holding(value@)
    }
}

impl TryFrom<[u8; 20]> for Lei {
    type Error = Error;

    fn try_from(bytes: [u8; 20]) -> (r: Result<Lei, Error>) {
        let r = Lei::from_byte_array(bytes);
        proof {
            if let Ok(l) = r {
                l.lemma_holding();
            }
        }
        r
    }
}

impl TryFromSpecImpl<[u8; 20]> for Lei {
    open spec fn obeys_try_from_spec() -> bool {
        true
    }

    open spec fn try_from_spec(bytes: [u8; 20]) -> Result<Lei, Error> {
        match validation(bytes@) {
            Ok(()) => Ok(Lei::holding(bytes@)),
            Err(e) => Err(e),
        }
    }
}

impl TryFrom<&[u8]> for Lei {
    type Error = Error;

    fn try_from(bytes: &[u8]) -> (r: Result<Lei, Error>) {
        let r = Lei::from_bytes(bytes);
        proof {
            if let Ok(l) = r {
                l.lemma_holding();
            }
        }
        r
    }
}

impl TryFromSpecImpl<&[u8]> for Lei {
    open spec fn obeys_try_from_spec() -> bool {
        true
    }

    open spec fn try_from_spec(bytes: &[u8]) -> Result<Lei, Error> {
        match validation(bytes@) {
            Ok(()) => Ok(Lei::holding(bytes@)),
            Err(e) => Err(e),
        }
    }
}

impl FromStr for Lei {
    type Err = Error;

    fn from_str(s: &str) -> (r: Result<Lei, Error>)
        ensures
            r is Ok <==> is_valid(encode_utf8(s@)),
            r matches Ok(l) ==> l@ == encode_utf8(s@) && text(l@) == s@,
            r matches Err(e) ==> validation(encode_utf8(s@)) == Err::<(), Error>(e),
    {
        Lei::from_str_slice(s)
    }
}

impl PartialEq for Lei {
    fn eq(&self, other: &Self) -> (r: bool) {
        self.as_lei() == other.as_lei()
    }
}

impl PartialEqSpecImpl for Lei {
    open spec fn obeys_eq_spec() -> bool {
        true
    }

    open spec fn eq_spec(&self, other: &Self) -> bool {
        self@ == other@
    }
}

impl PartialOrd for Lei {
    fn partial_cmp(&self, other: &Self) -> (r: Option<Ordering>) {
        self.as_lei().partial_cmp(&other.as_lei())
    }
}

impl PartialOrdSpecImpl for Lei {
    open spec fn obeys_partial_cmp_spec() -> bool {
        true
    }

    open spec fn partial_cmp_spec(&self, other: &Self) -> Option<Ordering> {
        Some(byte_order(self@, other@))
    }
}

} // verus!
