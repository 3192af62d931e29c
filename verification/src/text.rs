//! Identifier bytes as text.
//!
//! An identifier holds ASCII only, so its text has one character for each
//! byte and the UTF-8 encoding of that text is the bytes themselves.

use crate::alphabet::is_symbol;
use vstd::prelude::*;
use vstd::string::StringSliceAdditionalSpecFns;
use vstd::utf8::{
    decode_utf8, encode_utf8, encode_utf8_decode_utf8, encode_utf8_valid_utf8, is_ascii_chars,
    is_ascii_chars_encode_utf8, valid_utf8,
};

verus! {

/// Every byte of `bytes` is ASCII.
pub open spec fn all_ascii(bytes: Seq<u8>) -> bool {
    forall|i: int| 0 <= i < bytes.len() ==> #[trigger] bytes[i] < 128
}

/// The text that ASCII bytes spell: the character of each byte, in order.
pub open spec fn text(bytes: Seq<u8>) -> Seq<char>
    recommends
        all_ascii(bytes),
{
    Seq::new(bytes.len(), |i: int| bytes[i] as char)
}

/// ASCII bytes are the UTF-8 encoding of the text that they spell.
pub proof fn lemma_ascii_text(bytes: Seq<u8>)
    requires
        all_ascii(bytes),
    ensures
        is_ascii_chars(text(bytes)),
        encode_utf8(text(bytes)) == bytes,
        valid_utf8(bytes),
        decode_utf8(bytes) == text(bytes),
{
    let chars = text(bytes);
    assert(is_ascii_chars(chars)) by {
        assert forall|i: int| 0 <= i < chars.len() implies '\0' <= #[trigger] chars[i]
            <= '\u{7f}' by {
            assert(bytes[i] < 128);
        }
    }
    is_ascii_chars_encode_utf8(chars);
    assert(encode_utf8(chars) =~= bytes) by {
        assert forall|i: int| 0 <= i < bytes.len() implies encode_utf8(chars)[i] == bytes[i] by {
            assert(chars[i] as u8 == encode_utf8(chars)[i]);
            assert(bytes[i] < 128);
        }
    }
    encode_utf8_valid_utf8(chars);
    encode_utf8_decode_utf8(chars);
}

/// Only one text has given ASCII bytes as its UTF-8 encoding.
pub proof fn lemma_text_of_encoding(chars: Seq<char>, bytes: Seq<u8>)
    requires
        encode_utf8(chars) == bytes,
        all_ascii(bytes),
    ensures
        chars == text(bytes),
{
    lemma_ascii_text(bytes);
    encode_utf8_decode_utf8(chars);
}

/// Symbols are ASCII.
pub proof fn lemma_symbols_are_ascii(bytes: Seq<u8>)
    requires
        forall|i: int| 0 <= i < bytes.len() ==> is_symbol(#[trigger] bytes[i]),
    ensures
        all_ascii(bytes),
{
}

/// `core::str::from_utf8`: the string slice over `bytes` where they are valid
/// UTF-8, nothing where they are not. The string is encoded by the very bytes
/// that were given.
#[verifier::external_body]
pub(crate) fn str_from_utf8<'a>(bytes: &'a [u8]) -> (r: Option<&'a str>)
    ensures
        r is Some <==> valid_utf8(bytes@),
        r matches Some(s) ==> s.spec_bytes() == bytes@,
{
    match core::str::from_utf8(bytes) {
        Ok(s) => Some(s),
        Err(_) => None,
    }
}

} // verus!
