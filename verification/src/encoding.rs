//! Base64 transport encoding, trusted at the boundary to the `base64` crate.

use vstd::prelude::*;

verus! {

/// The bytes that standard base64 decoding yields for a text, or `None` where
/// the text is not valid base64.
pub uninterp spec fn b64_decode_of(s: Seq<char>) -> Option<Seq<u8>>;

/// The standard base64 encoding of a byte sequence.
pub uninterp spec fn b64_encode_of(bytes: Seq<u8>) -> Seq<char>;

/// Relies on `base64::engine::Engine::decode` with the `STANDARD` engine:
/// the result is a function of the input text alone, and decoding fails
/// exactly on inputs that are not standard base64.
#[verifier::external_body]
pub(crate) fn b64_decode(s: &str) -> (r: Option<Vec<u8>>)
    ensures
        match r {
            Some(v) => b64_decode_of(s@) == Some(v@),
            None => b64_decode_of(s@) is None,
        },
{
    base64::Engine::decode(&base64::engine::general_purpose::STANDARD, s).ok()
}

/// Relies on `base64::engine::Engine::encode` with the `STANDARD` engine:
/// the result is a function of the input bytes alone.
#[verifier::external_body]
pub(crate) fn b64_encode(bytes: &Vec<u8>) -> (r: String)
    ensures
        r@ == b64_encode_of(bytes@),
{
    base64::Engine::encode(&base64::engine::general_purpose::STANDARD, bytes)
}

} // verus!
