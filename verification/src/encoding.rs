//! Base64, as key material is written on the wire: the standard alphabet, with
//! padding.

use vstd::prelude::*;

verus! {

/// What `base64`'s standard engine encodes some bytes as.
pub uninterp spec fn base64_encoded(bytes: Seq<u8>) -> Seq<char>;

/// What `base64`'s standard engine decodes a text to, or the words of the error
/// that it refuses it with.
pub uninterp spec fn base64_decoded(text: Seq<char>) -> Result<Seq<u8>, Seq<char>>;

/// A text that decodes to `bytes`.
pub open spec fn read_as(bytes: Seq<u8>) -> Result<Seq<u8>, Seq<char>> {
    Ok(bytes)
}

/// A text that is refused with `words`.
pub open spec fn refused_with(words: Seq<char>) -> Result<Seq<u8>, Seq<char>> {
    Err(words)
}

/// Encodes bytes with `base64::engine::general_purpose::STANDARD.encode`.
///
/// Claims that the encoding depends on the bytes alone, and that decoding it
/// with the same engine gives the bytes back. The bound keeps the length of the
/// encoding within what a string can hold, which `encode` panics beyond.
#[verifier::external_body]
pub(crate) fn base64_encode(bytes: &Vec<u8>) -> (text: String)
    requires
        bytes@.len() <= 0x1000_0000,
    ensures
        text@ == base64_encoded(bytes@),
        base64_decoded(text@) == read_as(bytes@),
{
    base64::Engine::encode(&base64::engine::general_purpose::STANDARD, bytes)
}

/// Decodes text with `base64::engine::general_purpose::STANDARD.decode`, an error
/// being handed on as the words it displays.
///
/// Claims that the outcome depends on the text alone.
#[verifier::external_body]
pub(crate) fn base64_decode(text: &str) -> (decoded: Result<Vec<u8>, String>)
    ensures
        decoded matches Ok(bytes) ==> base64_decoded(text@) == read_as(bytes@),
        decoded matches Err(words) ==> base64_decoded(text@) == refused_with(words@),
{
    base64::Engine::decode(&base64::engine::general_purpose::STANDARD, text).map_err(
        |error| error.to_string(),
    )
}

} // verus!
