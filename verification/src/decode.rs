//! Byte decoding the sources rely on: Base64 (through the `base64` crate)
//! and UTF-8.
use vstd::prelude::*;
use vstd::utf8::{decode_utf8, valid_utf8};
use base64::Engine;

verus! {

/// What the standard Base64 engine (`base64::engine::general_purpose::STANDARD`:
/// standard alphabet, padding required) decodes `input` to, or `None` when it
/// rejects it.
pub uninterp spec fn base64_standard_decode(input: Seq<u8>) -> Option<Seq<u8>>;

/// Calls `base64::engine::general_purpose::STANDARD.decode`.
/// Claimed: the result is the bytes the engine decodes `input` to, a function
/// of `input` alone, and `None` exactly when the engine returns an error.
/// Nothing is claimed about which inputs the engine accepts.
#[verifier::external_body]
pub(crate) fn decode_base64_standard(input: &[u8]) -> (r: Option<Vec<u8>>)
    ensures
        r matches Some(v) ==> base64_standard_decode(input@) == Some(v@),
        r is None ==> base64_standard_decode(input@) is None,
{
    base64::engine::general_purpose::STANDARD.decode(input).ok()
}

/// Calls `String::from_utf8`.
/// Claimed: it succeeds exactly on valid UTF-8, and then holds the characters
/// the bytes encode.
#[verifier::external_body]
pub(crate) fn utf8_to_string(bytes: Vec<u8>) -> (r: Option<String>)
    ensures
        r is Some <==> valid_utf8(bytes@),
        r matches Some(s) ==> s@ == decode_utf8(bytes@),
{
    String::from_utf8(bytes).ok()
}

} // verus!
