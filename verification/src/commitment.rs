//! The commitment scheme: a one-way hash of a photo hash and a secret.

use crate::be_bytes::{be_to_nat, lemma_be_to_nat_of_nat_to_be, lemma_nat_to_be_len, nat_to_be};
use crate::keccak::{keccak, keccak256};
use crate::u256::{u256_modulus, U256};
use vstd::arithmetic::div_mod::lemma_small_mod;
use vstd::prelude::*;

verus! {

/// The 64 bytes that are hashed: the photo hash, then the secret, each as a
/// 32-byte big-endian block, with nothing between or around them.
pub open spec fn commitment_preimage(photo_hash: nat, secret: nat) -> Seq<u8> {
    nat_to_be(photo_hash, 32) + nat_to_be(secret, 32)
}

/// The commitment to `secret` for the photo `photo_hash`: the Keccak-256 digest
/// of the preimage, read as a big-endian number.
pub open spec fn commitment_of(photo_hash: nat, secret: nat) -> nat {
    be_to_nat(keccak256(commitment_preimage(photo_hash, secret)))
}

/// The bytes that are hashed are always 64.
pub proof fn lemma_preimage_len(photo_hash: nat, secret: nat)
    ensures
        commitment_preimage(photo_hash, secret).len() == 64,
{
    lemma_nat_to_be_len(photo_hash, 32);
    lemma_nat_to_be_len(secret, 32);
}

/// The fixed width of the two blocks is framing enough: for operands of 256
/// bits, the bytes that are hashed determine both the photo hash and the secret.
pub proof fn lemma_preimage_injective(
    photo_hash: nat,
    secret: nat,
    other_photo_hash: nat,
    other_secret: nat,
)
    requires
        photo_hash < u256_modulus(),
        secret < u256_modulus(),
        other_photo_hash < u256_modulus(),
        other_secret < u256_modulus(),
        commitment_preimage(photo_hash, secret) == commitment_preimage(
            other_photo_hash,
            other_secret,
        ),
    ensures
        photo_hash == other_photo_hash,
        secret == other_secret,
{
    let data = commitment_preimage(photo_hash, secret);
    lemma_nat_to_be_len(photo_hash, 32);
    lemma_nat_to_be_len(secret, 32);
    lemma_nat_to_be_len(other_photo_hash, 32);
    lemma_nat_to_be_len(other_secret, 32);
    assert(data.subrange(0, 32) =~= nat_to_be(photo_hash, 32));
    assert(data.subrange(0, 32) =~= nat_to_be(other_photo_hash, 32));
    assert(data.subrange(32, 64) =~= nat_to_be(secret, 32));
    assert(data.subrange(32, 64) =~= nat_to_be(other_secret, 32));
    lemma_be_to_nat_of_nat_to_be(photo_hash, 32);
    lemma_be_to_nat_of_nat_to_be(other_photo_hash, 32);
    lemma_be_to_nat_of_nat_to_be(secret, 32);
    lemma_be_to_nat_of_nat_to_be(other_secret, 32);
    lemma_small_mod(photo_hash, u256_modulus());
    lemma_small_mod(other_photo_hash, u256_modulus());
    lemma_small_mod(secret, u256_modulus());
    lemma_small_mod(other_secret, u256_modulus());
}

/// Lays out the bytes to hash for a photo hash and a secret.
pub fn preimage_bytes(photo_hash: &U256, secret: &U256) -> (data: [u8; 64])
    ensures
        data@ == commitment_preimage(photo_hash@, secret@),
{
    let photo_bytes = photo_hash.to_be_bytes();
    let secret_bytes = secret.to_be_bytes();
    let mut data = [0u8; 64];
    let mut i: usize = 0;
    while i < 32
        invariant
            i <= 32,
            forall|j: int| 0 <= j < i ==> data@[j] == photo_bytes@[j],
        decreases 32 - i,
    {
        data[i] = photo_bytes[i];
        i += 1;
    }
    let mut k: usize = 0;
    while k < 32
        invariant
            k <= 32,
            forall|j: int| 0 <= j < 32 ==> data@[j] == photo_bytes@[j],
            forall|j: int| 0 <= j < k ==> data@[32 + j] == secret_bytes@[j],
        decreases 32 - k,
    {
        data[32 + k] = secret_bytes[k];
        k += 1;
    }
    proof {
        lemma_nat_to_be_len(photo_hash@, 32);
        lemma_nat_to_be_len(secret@, 32);
        assert(data@ =~= photo_bytes@ + secret_bytes@);
    }
    data
}

/// Derives the commitment to `secret` for the photo `photo_hash`.
///
/// The result depends on the two arguments alone.
pub fn derive_commitment(photo_hash: U256, secret: U256) -> (commitment: U256)
    ensures
        commitment@ == commitment_of(photo_hash@, secret@),
{
    let data = preimage_bytes(&photo_hash, &secret);
    let digest = keccak(&data);
    U256::from_be_bytes(digest)
}

/// Whether `secret` opens the commitment `stored` for the photo `photo_hash`.
pub fn opens_commitment(stored: U256, photo_hash: U256, secret: U256) -> (opens: bool)
    ensures
        opens == (commitment_of(photo_hash@, secret@) == stored@),
{
    derive_commitment(photo_hash, secret) == stored
}

} // verus!
