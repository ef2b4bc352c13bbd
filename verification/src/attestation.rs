//! The record kept for one photo.

use crate::address::{zero_address, Address};
use crate::commitment::{commitment_of, opens_commitment};
use crate::u256::{u256_modulus, U256};
use vstd::prelude::*;

verus! {

/// What the ledger records for one photo: when it was registered, by whom,
/// and the commitment that was registered with it.
pub struct AttestationView {
    pub verified_at: nat,
    pub owner: Seq<u8>,
    pub zk_commitment: nat,
}

impl AttestationView {
    /// The record of a photo that was never registered.
    pub open spec fn zero() -> AttestationView {
        AttestationView { verified_at: 0, owner: zero_address(), zk_commitment: 0 }
    }

    /// The time and the commitment fit in 256 bits, and the owner has 20 bytes.
    pub open spec fn wf(self) -> bool {
        &&& self.verified_at < u256_modulus()
        &&& self.owner.len() == 20
        &&& self.zk_commitment < u256_modulus()
    }

    /// A record stands for a registration exactly when its time is not zero.
    pub open spec fn is_verified(self) -> bool {
        self.verified_at > 0
    }

    /// Whether `secret` opens the recorded commitment for the photo `photo_hash`.
    pub open spec fn opened_by(self, photo_hash: nat, secret: nat) -> bool {
        commitment_of(photo_hash, secret) == self.zk_commitment
    }

    /// Either all three fields are zero or none is.
    pub open spec fn all_or_nothing(self) -> bool {
        &&& self.verified_at == 0 <==> self.owner == zero_address()
        &&& self.verified_at == 0 <==> self.zk_commitment == 0
    }
}

/// The attestation of one photo.
#[derive(Clone, Copy, Debug, PartialEq, Eq)]
pub struct PhotoAttestation {
    /// When the photo was registered; zero if it never was.
    pub verified_at: U256,
    /// Who registered it.
    pub owner: Address,
    /// The commitment registered with it.
    pub zk_commitment: U256,
}

impl View for PhotoAttestation {
    type V = AttestationView;

    open spec fn view(&self) -> AttestationView {
        AttestationView {
            verified_at: self.verified_at@,
            owner: self.owner@,
            zk_commitment: self.zk_commitment@,
        }
    }
}

impl PhotoAttestation {
    /// What a record denotes is always well formed.
    pub proof fn lemma_view_wf(self)
        ensures
            self@.wf(),
    {
        self.verified_at.lemma_in_range();
        self.owner.lemma_len();
        self.zk_commitment.lemma_in_range();
    }

    /// The record of a photo that was never registered.
    pub fn zero() -> (record: PhotoAttestation)
        ensures
            record@ == AttestationView::zero(),
    {
        PhotoAttestation {
            verified_at: U256::zero(),
            owner: Address::zero(),
            zk_commitment: U256::zero(),
        }
    }

    /// Whether the record stands for a registration.
    pub fn is_verified(&self) -> (verified: bool)
        ensures
            verified == self@.is_verified(),
    {
        !self.verified_at.is_zero()
    }

    /// Whether `secret` opens the recorded commitment for the photo `photo_hash`.
    pub fn opened_by(&self, photo_hash: U256, secret: U256) -> (opened: bool)
        ensures
            opened == self@.opened_by(photo_hash@, secret@),
    {
        opens_commitment(self.zk_commitment, photo_hash, secret)
    }
}

} // verus!
