//! Identity digests. Transfer identity is compared by SHA-256 digest, not
//! by raw string, so the on-disk record stays fixed-size.

use sha2::Digest;
use vstd::prelude::*;

verus! {

/// The SHA-256 digest of a byte sequence; a pure function of its input,
/// left uninterpreted here. The digesting itself is done by the `sha2`
/// crate.
pub uninterp spec fn sha256_of(data: Seq<u8>) -> Seq<u8>;

/// Relies on `sha2::Sha256::digest`: the SHA-256 digest of the input,
/// always exactly 32 bytes, and a function of the input bytes alone.
#[verifier::external_body]
pub(crate) fn sha256(data: &[u8]) -> (r: Vec<u8>)
    ensures
        r@ == sha256_of(data@),
        r@.len() == 32,
{
    sha2::Sha256::digest(data).to_vec()
}

} // verus!
