//! The borrowed identifier: a view over bytes that someone else holds.

use crate::checksum::check_value;
use crate::decimal::{decimal_value, parse_decimal};
use crate::error::Error;
use crate::layout::{
    check_part, checked_part, entity_part, issuer_part, ID_SIZE, LEI_SIZE, LOU_END,
};
use crate::order::{byte_order, mismatch};
use crate::owned::Lei;
use crate::text::{
    lemma_ascii_text, lemma_symbols_are_ascii, lemma_text_of_encoding, str_from_utf8, text,
};
use crate::validate::{is_valid, lemma_valid_shape, validate, validation};
use std::cmp::Ordering;
use vstd::pervasive::unreached;
use vstd::prelude::*;
use vstd::std_specs::cmp::{PartialEqSpecImpl, PartialOrdSpecImpl};
use vstd::string::StringSliceAdditionalSpecFns;
use vstd::utf8::{encode_utf8, is_char_boundary_iff_is_leading_byte};

verus! {

/// A checked identifier that borrows its twenty bytes.
///
/// A value exists only for bytes that passed validation, and the bytes cannot
/// change while it lives. Two values are equal where their bytes are.
#[allow(non_camel_case_types)]
#[derive(Clone, Copy, Debug, Eq, Ord, Hash)]
pub struct lei<'a> {
    bytes: &'a [u8],
}

impl<'a> View for lei<'a> {
    type V = Seq<u8>;

    closed spec fn view(&self) -> Seq<u8> {
        self.bytes@
    }
}

impl<'a> lei<'a> {
    #[verifier::type_invariant]
    spec fn checked(self) -> bool {
        is_valid(self.bytes@)
    }

    /// Views `bytes` as an identifier where they are one, and says why they
    /// are none where they are not.
    pub fn from_bytes(bytes: &'a [u8]) -> (r: Result<lei<'a>, Error>)
        ensures
            r is Ok <==> is_valid(bytes@),
            r matches Ok(l) ==> l@ == bytes@,
            r matches Err(e) ==> validation(bytes@) == Err::<(), Error>(e),
    {
        if let Err(e) = validate(bytes) {
            Err(e)
        } else {
            Ok(Self::from_bytes_unchecked(bytes))
        }
    }

    /// Views bytes that are known to be an identifier.
    pub(crate) fn from_bytes_unchecked(bytes: &'a [u8]) -> (r: lei<'a>)
        requires
            is_valid(bytes@),
        ensures
            r@ == bytes@,
    {
        lei { bytes }
    }

    /// Views the bytes of `s` as an identifier where they are one, and says
    /// why they are none where they are not.
    pub fn from_str_slice(s: &'a str) -> (r: Result<lei<'a>, Error>)
        ensures
            r is Ok <==> is_valid(encode_utf8(s@)),
            r matches Ok(l) ==> l@ == encode_utf8(s@) && text(l@) == s@,
            r matches Err(e) ==> validation(encode_utf8(s@)) == Err::<(), Error>(e),
    {
        let r = lei::from_bytes(s.as_bytes());
        proof {
            if r is Ok {
                lemma_valid_shape(encode_utf8(s@));
                lemma_symbols_are_ascii(encode_utf8(s@));
                lemma_text_of_encoding(s@, encode_utf8(s@));
            }
        }
        r
    }

    /// The bytes of the identifier.
    pub fn as_bytes(&self) -> (r: &'a [u8])
        ensures
            r@ == self@,
            is_valid(self@),
    {
        proof {
            use_type_invariant(self);
        }
        self.bytes
    }

    /// The identifier as text.
    pub fn as_str(&self) -> (r: &'a str)
        ensures
            r@ == text(self@),
            encode_utf8(r@) == self@,
            is_valid(self@),
    {
        proof {
            use_type_invariant(self);
            lemma_valid_shape(self.bytes@);
            lemma_symbols_are_ascii(self.bytes@);
            lemma_ascii_text(self.bytes@);
        }
        match str_from_utf8(self.bytes) {
            Some(s) => {
                proof {
                    lemma_text_of_encoding(s@, self.bytes@);
                }
                s
            },
            None => unreached(),
        }
    }

    /// The three parts of the identifier: the issuer prefix, the entity part
    /// and the check digits as a number.
    pub fn split(&self) -> (r: (&'a str, &'a str, u8))
        ensures
            r.0@ == text(issuer_part(self@)),
            r.1@ == text(entity_part(self@)),
            r.2 == decimal_value(check_part(self@)),
            r.2 == check_value(checked_part(self@)),
            2 <= r.2 <= 98,
    {
        let whole = self.as_str();
        let ghost bytes = self@;
        proof {
            lemma_valid_shape(bytes);
            lemma_symbols_are_ascii(bytes);
            lemma_ascii_text(bytes);
            is_char_boundary_iff_is_leading_byte(bytes, 4);
        }
        let (issuer, remainder) = whole.split_at(LOU_END);
        let ghost tail = bytes.subrange(4, 20);
        proof {
            lemma_symbols_are_ascii(issuer_part(bytes));
            lemma_text_of_encoding(issuer@, issuer_part(bytes));
            lemma_symbols_are_ascii(tail);
            lemma_ascii_text(tail);
            is_char_boundary_iff_is_leading_byte(tail, 14);
        }
        let (id, check_digits) = remainder.split_at(ID_SIZE);
        proof {
            assert(tail.subrange(0, 14) =~= entity_part(bytes));
            assert(tail.subrange(14, 16) =~= check_part(bytes));
            lemma_symbols_are_ascii(entity_part(bytes));
            lemma_text_of_encoding(id@, entity_part(bytes));
        }
        match parse_decimal(check_digits.as_bytes()) {
            Some(val) => (issuer, id, val as u8),
            None => unreached(),
        }
    }

    /// The issuer prefix: the first four symbols.
    pub fn lou(&self) -> (r: &'a str)
        ensures
            r@ == text(issuer_part(self@)),
    {
        self.split().0
    }

    /// The entity part: the fourteen symbols behind the issuer prefix.
    pub fn id(&self) -> (r: &'a str)
        ensures
            r@ == text(entity_part(self@)),
    {
        self.split().1
    }

    /// The check digits as a number.
    pub fn check_digits(&self) -> (r: u8)
        ensures
            r == decimal_value(check_part(self@)),
            r == check_value(checked_part(self@)),
            2 <= r <= 98,
    {
        self.split().2
    }

    /// An identifier of its own with the same bytes.
    pub fn to_owned(&self) -> (r: Lei)
        ensures
            r@ == self@,
    {
        proof {
            use_type_invariant(self);
        }
        Lei::from_bytes_unchecked(self.bytes)
    }
}

impl<'a> AsRef<[u8]> for lei<'a> {
    fn as_ref(&self) -> (r: &[u8])
        ensures
            ({
                let bytes: &[u8] = r;
                bytes@ == self@
            }),
    {
        self.as_bytes()
    }
}

impl<'a> AsRef<str> for lei<'a> {
    fn as_ref(&self) -> (r: &str)
        ensures
            ({
                let chars: &str = r;
                chars@ == text(self@)
            }),
    {
        self.as_str()
    }
}

impl<'a> PartialEq for lei<'a> {
    fn eq(&self, other: &Self) -> (r: bool) {
        proof {
            use_type_invariant(self);
            use_type_invariant(other);
        }
        mismatch(self.bytes, other.bytes) == LEI_SIZE
    }
}

impl<'a> PartialEqSpecImpl for lei<'a> {
    open spec fn obeys_eq_spec() -> bool {
        true
    }

    open spec fn eq_spec(&self, other: &Self) -> bool {
        self@ == other@
    }
}

impl<'a> PartialOrd for lei<'a> {
    fn partial_cmp(&self, other: &Self) -> (r: Option<Ordering>) {
        proof {
            use_type_invariant(self);
            use_type_invariant(other);
        }
        let at: usize = mismatch(self.bytes, other.bytes);
        if at == LEI_SIZE {
            Some(Ordering::Equal)
        } else if self.bytes[at] < other.bytes[at] {
            Some(Ordering::Less)
        } else {
            Some(Ordering::Greater)
        }
    }
}

impl<'a> PartialOrdSpecImpl for lei<'a> {
    open spec fn obeys_partial_cmp_spec() -> bool {
        true
    }

    open spec fn partial_cmp_spec(&self, other: &Self) -> Option<Ordering> {
        Some(byte_order(self@, other@))
    }
}

} // verus!
