//! The BLAKE2s-256 digest, computed by the `blake2` crate.
use blake2::Digest;
use vstd::prelude::*;

verus! {

/// The BLAKE2s-256 digest of a byte string, as the `blake2` crate computes it.
pub uninterp spec fn blake2s256_digest(data: Seq<u8>) -> Seq<u8>;

/// `blake2::Blake2s256::digest`: hashes `data` in one call. The contract
/// claims that the 32-byte result is a function of `data` alone (named
/// `blake2s256_digest`); nothing is claimed of its value, nor that distinct
/// inputs give distinct digests.
#[verifier::external_body]
pub(crate) fn blake2s256(data: &[u8]) -> (r: Vec<u8>)
    ensures
        r@ == blake2s256_digest(data@),
        r@.len() == 32,
{
    blake2::Blake2s256::digest(data).to_vec()
}

} // verus!
