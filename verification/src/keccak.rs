//! The Keccak-256 hash function.

use vstd::prelude::*;

verus! {

/// The 32-byte Keccak-256 digest of `data`.
pub uninterp spec fn keccak256(data: Seq<u8>) -> Seq<u8>;

/// Hashes `data` with `stylus_sdk::crypto::keccak` and hands out the 32
/// bytes of the digest it returns.
///
/// Trusted, not proved: that the digest is a function of the input bytes
/// alone, the function named [`keccak256`]. Nothing is claimed of which
/// digest belongs to which input.
#[verifier::external_body]
pub(crate) fn keccak(data: &[u8]) -> (digest: [u8; 32])
    ensures
        digest@ == keccak256(data@),
{
    stylus_sdk::crypto::keccak(data).0
}

} // verus!
