//! Content hashing: the deterministic digest that identifies an image.
//!
//! The digest doubles as the dedup key and as the public identifier of an
//! upload, so all that the rest of the library needs is that it is a pure
//! function of the bytes and that it prints as fixed-width lowercase hex.

use vstd::prelude::*;

verus! {

/// The lowercase hexadecimal BLAKE3 digest of a byte sequence, as a pure
/// function of the bytes.  The digest itself is opaque; the library relies
/// only on its determinism and on its printed shape.
pub uninterp spec fn blake3_hex_of(bytes: Seq<u8>) -> Seq<char>;

/// True for the sixteen characters a lowercase hex digest is made of.
pub open spec fn is_lower_hex_digit(c: char) -> bool {
    ('0' <= c && c <= '9') || ('a' <= c && c <= 'f')
}

/// Relies on `blake3::hash` and `blake3::Hash::to_hex`: the digest is a pure
/// function of the input bytes, 32 bytes long, printed as 64 lowercase hex
/// characters.
#[verifier::external_body]
pub fn compute_hash(body: &[u8]) -> (r: String)
    ensures
        r@ == blake3_hex_of(body@),
        r@.len() == 64,
        forall|i: int| 0 <= i < r@.len() ==> is_lower_hex_digit(#[trigger] r@[i]),
{
    let hash = blake3::hash(body);
    hash.to_hex().to_string()
}

/// Hashing is idempotent: the same byte sequence always yields the same
/// digest, on this call and on every later one.
pub proof fn lemma_digest_deterministic(b1: Seq<u8>, b2: Seq<u8>)
    requires
        b1 == b2,
    ensures
        blake3_hex_of(b1) == blake3_hex_of(b2),
{
}

} // verus!
