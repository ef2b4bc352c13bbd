//! The executable ledger.

use crate::address::Address;
use crate::attestation::{AttestationView, PhotoAttestation};
use crate::commitment::{commitment_of, derive_commitment};
use crate::model::{next_count, LedgerView};
use crate::table::Table;
use crate::u256::{u256_modulus, U256};
use vstd::prelude::*;

verus! {

/// What the environment supplies to a call: who is calling, and the time.
#[derive(Clone, Copy, Debug)]
pub struct CallContext {
    /// The account that makes the call.
    pub msg_sender: Address,
    /// The time of the block that the call is part of.
    pub block_timestamp: u64,
}

/// The two values that an initialization writes.
#[derive(Clone, Copy, Debug)]
pub struct Initialization {
    /// The new owner of the ledger.
    pub owner: Address,
    /// The new global counter.
    pub photo_count: U256,
}

/// Works out what an initialization writes: the caller as owner, and a
/// global counter of zero.
pub fn plan_init(ctx: CallContext) -> (plan: Initialization)
    ensures
        plan.owner@ == ctx.msg_sender@,
        plan.photo_count@ == 0,
{
    Initialization { owner: ctx.msg_sender, photo_count: U256::zero() }
}

/// The three values that one registration writes.
#[derive(Clone, Copy, Debug)]
pub struct Registration {
    /// The attestation to record for the photo.
    pub attestation: PhotoAttestation,
    /// The caller's new counter.
    pub owner_photo_count: U256,
    /// The new global counter.
    pub photo_count: U256,
}

/// Works out what a registration writes, from the call, the commitment and
/// the two counters as they stand.
pub fn plan_registration(
    ctx: CallContext,
    zk_commitment: U256,
    owner_photo_count: U256,
    photo_count: U256,
) -> (plan: Registration)
    ensures
        plan.attestation@ == (AttestationView {
            verified_at: ctx.block_timestamp as nat,
            owner: ctx.msg_sender@,
            zk_commitment: zk_commitment@,
        }),
        plan.owner_photo_count@ == next_count(owner_photo_count@),
        plan.photo_count@ == next_count(photo_count@),
{
    let one = U256::from_u64(1);
    Registration {
        attestation: PhotoAttestation {
            verified_at: U256::from_u64(ctx.block_timestamp),
            owner: ctx.msg_sender,
            zk_commitment,
        },
        owner_photo_count: owner_photo_count.wrapping_add(one),
        photo_count: photo_count.wrapping_add(one),
    }
}

/// Why a guarded operation did nothing.
#[derive(Clone, Copy, Debug, PartialEq, Eq, Structural)]
pub enum LedgerError {
    /// The photo already has an attestation.
    AlreadyRegistered,
    /// The photo has no attestation.
    NotRegistered,
}

/// The attestation ledger.
pub struct Verifier {
    attestations: Table<U256, PhotoAttestation>,
    owner_photo_count: Table<Address, U256>,
    owner: Address,
    photo_count: U256,
}

impl View for Verifier {
    type V = LedgerView;

    closed spec fn view(&self) -> LedgerView {
        LedgerView {
            attestations: self.attestations@.map_values(|a: PhotoAttestation| a@),
            owner_photo_count: self.owner_photo_count@.map_values(|c: U256| c@),
            owner: self.owner@,
            photo_count: self.photo_count@,
        }
    }
}

impl Verifier {
    /// What the ledger denotes is always well formed.
    pub proof fn lemma_view_wf(self)
        ensures
            self@.wf(),
    {
        let view = self@;
        assert forall|h: nat| #[trigger] view.attestations.contains_key(h) implies h
            < u256_modulus() && view.attestations[h].wf() by {
            self.attestations.lemma_keys_are_views(h);
            let key = choose|key: U256| #[trigger] key@ == h;
            key.lemma_in_range();
            self.attestations@[h].lemma_view_wf();
        }
        assert forall|a: Seq<u8>| #[trigger] view.owner_photo_count.contains_key(a) implies a.len()
            == 20 && view.owner_photo_count[a] < u256_modulus() by {
            self.owner_photo_count.lemma_keys_are_views(a);
            let key = choose|key: Address| #[trigger] key@ == a;
            key.lemma_len();
            self.owner_photo_count@[a].lemma_in_range();
        }
        self.owner.lemma_len();
        self.photo_count.lemma_in_range();
    }

    /// A ledger on which nothing has happened yet.
    pub fn new() -> (ledger: Verifier)
        ensures
            ledger@ == LedgerView::empty(),
    {
        let ledger = Verifier {
            attestations: Table::new(),
            owner_photo_count: Table::new(),
            owner: Address::zero(),
            photo_count: U256::zero(),
        };
        proof {
            assert(ledger@.attestations =~= Map::empty());
            assert(ledger@.owner_photo_count =~= Map::empty());
        }
        ledger
    }

    /// The record held for `photo_hash`: the zero record if there is none.
    fn record(&self, photo_hash: &U256) -> (record: PhotoAttestation)
        ensures
            record@ == self@.attestation(photo_hash@),
    {
        match self.attestations.get(photo_hash) {
            Some(record) => record,
            None => PhotoAttestation::zero(),
        }
    }

    /// The counter held for `account`: zero if there is none.
    fn counter(&self, account: &Address) -> (count: U256)
        ensures
            count@ == self@.photos_of(account@),
    {
        match self.owner_photo_count.get(account) {
            Some(count) => count,
            None => U256::zero(),
        }
    }

    /// Makes the caller the owner of the ledger and restarts the global
    /// counter. Nothing guards a second call: it takes the ownership over.
    pub fn init(&mut self, ctx: CallContext) -> (result: Result<(), Vec<u8>>)
        ensures
            final(self)@ == old(self)@.init(ctx.msg_sender@),
            result is Ok,
    {
        let plan = plan_init(ctx);
        self.owner = plan.owner;
        self.photo_count = plan.photo_count;
        Ok(())
    }

    /// Writes the three values of a registration and returns its time.
    fn register(&mut self, ctx: CallContext, photo_hash: U256, zk_commitment: U256) -> (timestamp:
        U256)
        ensures
            final(self)@ == old(self)@.register(
                ctx.msg_sender@,
                ctx.block_timestamp as nat,
                photo_hash@,
                zk_commitment@,
            ),
            timestamp@ == ctx.block_timestamp,
    {
        let count = self.counter(&ctx.msg_sender);
        let plan = plan_registration(ctx, zk_commitment, count, self.photo_count);
        self.attestations.insert(photo_hash, plan.attestation);
        self.owner_photo_count.insert(ctx.msg_sender, plan.owner_photo_count);
        self.photo_count = plan.photo_count;
        proof {
            let expected = old(self)@.register(
                ctx.msg_sender@,
                ctx.block_timestamp as nat,
                photo_hash@,
                zk_commitment@,
            );
            assert(self@.attestations =~= expected.attestations);
            assert(self@.owner_photo_count =~= expected.owner_photo_count);
        }
        plan.attestation.verified_at
    }

    /// Registers `photo_hash` with `zk_commitment` for the caller, at the
    /// time of the call, and returns that time. An earlier attestation of the
    /// same photo is overwritten.
    pub fn verify_photo(&mut self, ctx: CallContext, photo_hash: U256, zk_commitment: U256) -> (result:
        Result<U256, Vec<u8>>)
        ensures
            final(self)@ == old(self)@.register(
                ctx.msg_sender@,
                ctx.block_timestamp as nat,
                photo_hash@,
                zk_commitment@,
            ),
            result matches Ok(timestamp) && timestamp@ == ctx.block_timestamp,
    {
        Ok(self.register(ctx, photo_hash, zk_commitment))
    }

    /// Registers like [`Verifier::verify_photo`], unless the photo already
    /// has an attestation: then nothing changes and the call is refused.
    pub fn verify_photo_once(
        &mut self,
        ctx: CallContext,
        photo_hash: U256,
        zk_commitment: U256,
    ) -> (result: Result<U256, LedgerError>)
        ensures
            old(self)@.is_verified(photo_hash@) ==> result == Err::<U256, LedgerError>(
                LedgerError::AlreadyRegistered,
            ) && final(self)@ == old(self)@,
            !old(self)@.is_verified(photo_hash@) ==> final(self)@ == old(self)@.register(
                ctx.msg_sender@,
                ctx.block_timestamp as nat,
                photo_hash@,
                zk_commitment@,
            ) && (result matches Ok(timestamp) && timestamp@ == ctx.block_timestamp),
    {
        if self.record(&photo_hash).is_verified() {
            return Err(LedgerError::AlreadyRegistered);
        }
        Ok(self.register(ctx, photo_hash, zk_commitment))
    }

    /// The attestation of `photo_hash`, if it has one: a record whose time is
    /// zero is never handed out as an attestation.
    pub fn find_attestation(&self, photo_hash: U256) -> (found: Option<PhotoAttestation>)
        ensures
            match found {
                Some(record) => self@.find(photo_hash@) == Some(record@),
                None => self@.find(photo_hash@).is_none(),
            },
    {
        let record = self.record(&photo_hash);
        if record.is_verified() {
            Some(record)
        } else {
            None
        }
    }

    /// Whether `secret` opens the commitment recorded for `photo_hash`, for a
    /// photo that has an attestation; for one that has none, the call is
    /// refused rather than answered against the zero commitment.
    pub fn check_zk_proof(&self, photo_hash: U256, secret: U256) -> (result: Result<
        bool,
        LedgerError,
    >)
        ensures
            result == (if self@.is_verified(photo_hash@) {
                Ok::<bool, LedgerError>(self@.verify(photo_hash@, secret@))
            } else {
                Err::<bool, LedgerError>(LedgerError::NotRegistered)
            }),
    {
        let record = self.record(&photo_hash);
        if record.is_verified() {
            Ok(record.opened_by(photo_hash, secret))
        } else {
            Err(LedgerError::NotRegistered)
        }
    }

    /// The attestation of `photo_hash` as time, owner and commitment; all
    /// three are zero for a photo that was never registered.
    pub fn get_attestation(&self, photo_hash: U256) -> (result: Result<
        (U256, Address, U256),
        Vec<u8>,
    >)
        ensures
            result matches Ok(triple) && triple.0@ == self@.attestation(photo_hash@).verified_at
                && triple.1@ == self@.attestation(photo_hash@).owner && triple.2@
                == self@.attestation(photo_hash@).zk_commitment,
    {
        let record = self.record(&photo_hash);
        Ok((record.verified_at, record.owner, record.zk_commitment))
    }

    /// Whether `secret` opens the commitment recorded for `photo_hash`.
    pub fn verify_zk_proof(&self, photo_hash: U256, secret: U256) -> (result: Result<bool, Vec<u8>>)
        ensures
            result matches Ok(valid) && valid == self@.verify(photo_hash@, secret@),
    {
        let record = self.record(&photo_hash);
        Ok(record.opened_by(photo_hash, secret))
    }

    /// The commitment to `secret` for the photo `photo_hash`. The ledger's
    /// state plays no part in it.
    pub fn compute_commitment(&self, photo_hash: U256, secret: U256) -> (commitment: U256)
        ensures
            commitment@ == commitment_of(photo_hash@, secret@),
    {
        derive_commitment(photo_hash, secret)
    }

    /// Whether `photo_hash` has an attestation.
    pub fn is_verified(&self, photo_hash: U256) -> (result: Result<bool, Vec<u8>>)
        ensures
            result matches Ok(verified) && verified == self@.is_verified(photo_hash@),
    {
        Ok(self.record(&photo_hash).is_verified())
    }

    /// The account recorded as owner of `photo_hash`.
    pub fn get_owner_of(&self, photo_hash: U256) -> (result: Result<Address, Vec<u8>>)
        ensures
            result matches Ok(owner) && owner@ == self@.attestation(photo_hash@).owner,
    {
        Ok(self.record(&photo_hash).owner)
    }

    /// The number of registrations that `owner` has made.
    pub fn get_owner_photo_count(&self, owner: Address) -> (result: Result<U256, Vec<u8>>)
        ensures
            result matches Ok(count) && count@ == self@.photos_of(owner@),
    {
        Ok(self.counter(&owner))
    }

    /// The number of registrations since the ledger was initialized.
    pub fn get_photo_count(&self) -> (result: Result<U256, Vec<u8>>)
        ensures
            result matches Ok(count) && count@ == self@.photo_count,
    {
        Ok(self.photo_count)
    }

    /// The account that initialized the ledger.
    pub fn get_contract_owner(&self) -> (result: Result<Address, Vec<u8>>)
        ensures
            result matches Ok(owner) && owner@ == self@.owner,
    {
        Ok(self.owner)
    }
}

} // verus!
