//! Base64 transport encoding for image bytes.
//!
//! Upload requests carry their payload as standard base64 text, and fetch
//! responses hand the stored bytes back the same way.  Both directions are
//! outside calls; their results are named by the two uninterpreted functions
//! below, tied together by the documented round trip.

use vstd::prelude::*;

verus! {

/// What decoding a standard-alphabet base64 text yields: the decoded bytes,
/// or nothing when the text is not well-formed base64.  A pure function of
/// the text.
pub uninterp spec fn base64_decode_of(text: Seq<char>) -> Option<Seq<u8>>;

/// What encoding bytes as standard-alphabet, padded base64 yields.  A pure
/// function of the bytes.
pub uninterp spec fn base64_encode_of(bytes: Seq<u8>) -> Seq<char>;

/// Relies on `base64::Engine::decode` with the standard engine: it accepts
/// exactly well-formed base64 of the standard alphabet and returns the
/// decoded bytes.
#[verifier::external_body]
pub(crate) fn decode_base64(text: &str) -> (r: Option<Vec<u8>>)
    ensures
        r matches Some(b) ==> base64_decode_of(text@) == Some(b@),
        r is None ==> base64_decode_of(text@) is None,
{
    match base64::Engine::decode(&base64::engine::general_purpose::STANDARD, text) {
        Ok(b) => Some(b),
        Err(_) => None,
    }
}

/// Relies on `base64::Engine::encode` with the standard engine: the result
/// is padded base64 of the input, and decoding it with the same engine gives
/// the input back.
#[verifier::external_body]
pub(crate) fn encode_base64(bytes: &[u8]) -> (r: String)
    ensures
        r@ == base64_encode_of(bytes@),
        base64_decode_of(r@) == Some(bytes@),
{
    base64::Engine::encode(&base64::engine::general_purpose::STANDARD, bytes)
}

} // verus!
