//! The ledger as a mathematical state machine.
//!
//! A state maps photo hashes to attestations and accounts to counters; the
//! operations are total functions from state to state. The executable ledger
//! is specified against this model, and the laws below are proved of it.

use crate::address::zero_address;
use crate::attestation::AttestationView;
use crate::be_bytes::lemma_pow256_positive;
use crate::commitment::commitment_of;
use crate::u256::u256_modulus;
use vstd::arithmetic::div_mod::{lemma_mod_bound, lemma_mod_self_0, lemma_small_mod};
use vstd::prelude::*;

verus! {

/// The counter that follows `count`: counters have 256 bits and wrap.
pub open spec fn next_count(count: nat) -> nat {
    (count + 1) % u256_modulus()
}

/// A state of the ledger.
pub struct LedgerView {
    /// The attestation of each photo that was registered, by photo hash.
    pub attestations: Map<nat, AttestationView>,
    /// How many registrations each account has made.
    pub owner_photo_count: Map<Seq<u8>, nat>,
    /// The account that initialized the ledger.
    pub owner: Seq<u8>,
    /// How many registrations were made since the ledger was initialized.
    pub photo_count: nat,
}

/// One state-changing call, with what the environment supplied to it.
pub enum Operation {
    Init { caller: Seq<u8> },
    Register { caller: Seq<u8>, timestamp: nat, photo_hash: nat, commitment: nat },
}

impl LedgerView {
    /// The state before any call: nothing registered, no owner, all counters zero.
    pub open spec fn empty() -> LedgerView {
        LedgerView {
            attestations: Map::empty(),
            owner_photo_count: Map::empty(),
            owner: zero_address(),
            photo_count: 0,
        }
    }

    /// Every number fits in 256 bits and every account has 20 bytes.
    pub open spec fn wf(self) -> bool {
        &&& forall|h: nat| #[trigger]
            self.attestations.contains_key(h) ==> h < u256_modulus() && self.attestations[h].wf()
        &&& forall|a: Seq<u8>| #[trigger]
            self.owner_photo_count.contains_key(a) ==> a.len() == 20 && self.owner_photo_count[a]
                < u256_modulus()
        &&& self.owner.len() == 20
        &&& self.photo_count < u256_modulus()
    }

    /// The attestation of `photo_hash`; the zero record if it was never registered.
    pub open spec fn attestation(self, photo_hash: nat) -> AttestationView {
        if self.attestations.contains_key(photo_hash) {
            self.attestations[photo_hash]
        } else {
            AttestationView::zero()
        }
    }

    /// Whether `photo_hash` has an attestation.
    pub open spec fn is_verified(self, photo_hash: nat) -> bool {
        self.attestation(photo_hash).is_verified()
    }

    /// The number of registrations made by `account`.
    pub open spec fn photos_of(self, account: Seq<u8>) -> nat {
        if self.owner_photo_count.contains_key(account) {
            self.owner_photo_count[account]
        } else {
            0
        }
    }

    /// Initialization by `caller`: the caller becomes the owner and the global
    /// counter restarts at zero. Attestations and per-account counters stay.
    pub open spec fn init(self, caller: Seq<u8>) -> LedgerView {
        LedgerView { owner: caller, photo_count: 0, ..self }
    }

    /// Registration of `photo_hash` with `commitment` by `caller` at `timestamp`:
    /// the attestation is written over whatever was there, and the caller's
    /// counter and the global counter each advance by one.
    pub open spec fn register(
        self,
        caller: Seq<u8>,
        timestamp: nat,
        photo_hash: nat,
        commitment: nat,
    ) -> LedgerView {
        LedgerView {
            attestations: self.attestations.insert(
                photo_hash,
                AttestationView { verified_at: timestamp, owner: caller, zk_commitment: commitment },
            ),
            owner_photo_count: self.owner_photo_count.insert(
                caller,
                next_count(self.photos_of(caller)),
            ),
            owner: self.owner,
            photo_count: next_count(self.photo_count),
        }
    }

    /// Whether `secret` opens the commitment recorded for `photo_hash`. For a
    /// photo that was never registered the recorded commitment is zero.
    pub open spec fn verify(self, photo_hash: nat, secret: nat) -> bool {
        self.attestation(photo_hash).opened_by(photo_hash, secret)
    }

    /// The attestation of `photo_hash`, if it counts as verified.
    pub open spec fn find(self, photo_hash: nat) -> Option<AttestationView> {
        if self.is_verified(photo_hash) {
            Some(self.attestation(photo_hash))
        } else {
            None
        }
    }

    /// The state after one operation.
    pub open spec fn apply(self, op: Operation) -> LedgerView {
        match op {
            Operation::Init { caller } => self.init(caller),
            Operation::Register { caller, timestamp, photo_hash, commitment } => self.register(
                caller,
                timestamp,
                photo_hash,
                commitment,
            ),
        }
    }

    /// The state that a history of operations leads to from the empty ledger.
    pub open spec fn replay(ops: Seq<Operation>) -> LedgerView
        decreases ops.len(),
    {
        if ops.len() == 0 {
            LedgerView::empty()
        } else {
            LedgerView::replay(ops.drop_last()).apply(ops.last())
        }
    }

    /// Every attestation has all of its fields zero or none of them.
    pub open spec fn all_or_nothing(self) -> bool {
        forall|photo_hash: nat| #[trigger] self.attestation(photo_hash).all_or_nothing()
    }
}

/// Whether an operation registers the photo `photo_hash`.
pub open spec fn registers(op: Operation, photo_hash: nat) -> bool {
    op matches Operation::Register { photo_hash: h, .. } && h == photo_hash
}

/// Whether an operation, if it is a registration, comes at a time that is not
/// zero, from an account that is not the zero address, with a commitment that
/// is not zero.
pub open spec fn nowhere_zero(op: Operation) -> bool {
    op matches Operation::Register { caller, timestamp, commitment, .. } ==> timestamp > 0
        && caller != zero_address() && commitment != 0
}

/// A counter below its maximum advances by exactly one; at its maximum it
/// wraps to zero.
pub proof fn lemma_next_count(count: nat)
    requires
        count < u256_modulus(),
    ensures
        count + 1 < u256_modulus() ==> next_count(count) == count + 1,
        count + 1 == u256_modulus() ==> next_count(count) == 0,
{
    if count + 1 < u256_modulus() {
        lemma_small_mod(count + 1, u256_modulus());
    } else {
        lemma_mod_self_0(u256_modulus() as int);
    }
}

/// The empty ledger is well formed.
pub proof fn lemma_empty_is_wf()
    ensures
        LedgerView::empty().wf(),
{
    lemma_pow256_positive(32);
}

/// The operations keep a ledger well formed, given a caller of 20 bytes and
/// numbers that fit in 256 bits.
pub proof fn lemma_operations_keep_wf(s: LedgerView, op: Operation)
    requires
        s.wf(),
        match op {
            Operation::Init { caller } => caller.len() == 20,
            Operation::Register { caller, timestamp, photo_hash, commitment } => {
                &&& caller.len() == 20
                &&& timestamp < u256_modulus()
                &&& photo_hash < u256_modulus()
                &&& commitment < u256_modulus()
            },
        },
    ensures
        s.apply(op).wf(),
{
    lemma_pow256_positive(32);
    lemma_mod_bound((s.photo_count + 1) as int, u256_modulus() as int);
    if let Operation::Register { caller, .. } = op {
        lemma_mod_bound((s.photos_of(caller) + 1) as int, u256_modulus() as int);
    }
}

/// Initialization is not idempotent in effect: a second initialization takes
/// the ownership from the first and restarts the global counter, whatever was
/// registered in between, and never touches attestations or per-account
/// counters.
pub proof fn lemma_init_overwrites(s: LedgerView, caller: Seq<u8>)
    ensures
        s.init(caller).owner == caller,
        s.init(caller).photo_count == 0,
        s.init(caller).attestations == s.attestations,
        s.init(caller).owner_photo_count == s.owner_photo_count,
        forall|h: nat| s.init(caller).attestation(h) == s.attestation(h),
        forall|a: Seq<u8>| s.init(caller).photos_of(a) == s.photos_of(a),
{
}

/// Two initializations in a row leave what the second alone would leave.
pub proof fn lemma_init_twice(s: LedgerView, first: Seq<u8>, second: Seq<u8>)
    ensures
        s.init(first).init(second) == s.init(second),
{
}

/// A registration writes its three values together: the attestation is the
/// one given, the photo counts as verified, and the caller's counter and the
/// global counter each grow by exactly one. Stated for a time that is not
/// zero and for counters that are not at their maximum.
pub proof fn lemma_registration_is_atomic(
    s: LedgerView,
    caller: Seq<u8>,
    timestamp: nat,
    photo_hash: nat,
    commitment: nat,
)
    requires
        timestamp > 0,
        s.photos_of(caller) + 1 < u256_modulus(),
        s.photo_count + 1 < u256_modulus(),
    ensures
        ({
            let after = s.register(caller, timestamp, photo_hash, commitment);
            &&& after.is_verified(photo_hash)
            &&& after.attestation(photo_hash) == AttestationView {
                verified_at: timestamp,
                owner: caller,
                zk_commitment: commitment,
            }
            &&& after.photos_of(caller) == s.photos_of(caller) + 1
            &&& after.photo_count == s.photo_count + 1
        }),
{
    lemma_next_count(s.photos_of(caller));
    lemma_next_count(s.photo_count);
}

/// A registration changes nothing but its own three values: other photos keep
/// their attestations, other accounts their counters, and the owner stays.
pub proof fn lemma_registration_is_local(
    s: LedgerView,
    caller: Seq<u8>,
    timestamp: nat,
    photo_hash: nat,
    commitment: nat,
)
    ensures
        ({
            let after = s.register(caller, timestamp, photo_hash, commitment);
            &&& after.owner == s.owner
            &&& forall|h: nat| h != photo_hash ==> after.attestation(h) == s.attestation(h)
            &&& forall|a: Seq<u8>| a != caller ==> after.photos_of(a) == s.photos_of(a)
        }),
{
}

/// No operation removes an attestation, and none lowers the counter of an
/// account, unless that counter was at its maximum and wrapped.
pub proof fn lemma_nothing_is_cleared(s: LedgerView, op: Operation)
    ensures
        forall|h: nat|
            s.attestations.contains_key(h) ==> #[trigger] s.apply(op).attestations.contains_key(h),
        forall|a: Seq<u8>|
            s.photos_of(a) + 1 < u256_modulus() ==> #[trigger] s.apply(op).photos_of(a)
                >= s.photos_of(a),
{
    assert forall|a: Seq<u8>| s.photos_of(a) + 1 < u256_modulus() implies #[trigger] s.apply(
        op,
    ).photos_of(a) >= s.photos_of(a) by {
        lemma_next_count(s.photos_of(a));
    }
}

/// After a registration the photo counts as verified exactly when the time of
/// the registration was not zero.
pub proof fn lemma_verified_iff_time_not_zero(
    s: LedgerView,
    caller: Seq<u8>,
    timestamp: nat,
    photo_hash: nat,
    commitment: nat,
)
    ensures
        s.register(caller, timestamp, photo_hash, commitment).is_verified(photo_hash) <==> timestamp
            > 0,
{
}

/// Whoever registers the commitment derived from a secret can later verify
/// with that secret; any other secret verifies exactly when it derives the
/// same commitment.
pub proof fn lemma_registered_secret_verifies(
    s: LedgerView,
    caller: Seq<u8>,
    timestamp: nat,
    photo_hash: nat,
    secret: nat,
    other_secret: nat,
)
    ensures
        ({
            let after = s.register(
                caller,
                timestamp,
                photo_hash,
                commitment_of(photo_hash, secret),
            );
            &&& after.verify(photo_hash, secret)
            &&& after.verify(photo_hash, other_secret) <==> commitment_of(photo_hash, other_secret)
                == commitment_of(photo_hash, secret)
        }),
{
}

/// A photo that no operation of a history registers has the zero attestation
/// at the end of it, and does not count as verified.
pub proof fn lemma_unregistered_lookup(ops: Seq<Operation>, photo_hash: nat)
    requires
        forall|i: int| 0 <= i < ops.len() ==> !registers(#[trigger] ops[i], photo_hash),
    ensures
        LedgerView::replay(ops).attestation(photo_hash) == AttestationView::zero(),
        !LedgerView::replay(ops).is_verified(photo_hash),
    decreases ops.len(),
{
    if ops.len() > 0 {
        let earlier = ops.drop_last();
        assert forall|i: int| 0 <= i < earlier.len() implies !registers(
            #[trigger] earlier[i],
            photo_hash,
        ) by {
            assert(earlier[i] == ops[i]);
        }
        lemma_unregistered_lookup(earlier, photo_hash);
        assert(!registers(ops[ops.len() - 1], photo_hash));
    }
}

/// When two accounts register the same photo one after the other, the second
/// registration stands: its caller, time and commitment are the recorded
/// ones. The first caller's counter keeps its increment all the same. Stated
/// for counters that are not at their maximum.
pub proof fn lemma_second_registration_wins(
    s: LedgerView,
    photo_hash: nat,
    first: Seq<u8>,
    first_time: nat,
    first_commitment: nat,
    second: Seq<u8>,
    second_time: nat,
    second_commitment: nat,
)
    requires
        first != second,
        s.photos_of(first) + 1 < u256_modulus(),
        s.photos_of(second) + 1 < u256_modulus(),
        s.photo_count + 2 < u256_modulus(),
    ensures
        ({
            let after = s.register(first, first_time, photo_hash, first_commitment).register(
                second,
                second_time,
                photo_hash,
                second_commitment,
            );
            &&& after.attestation(photo_hash) == AttestationView {
                verified_at: second_time,
                owner: second,
                zk_commitment: second_commitment,
            }
            &&& after.photos_of(first) == s.photos_of(first) + 1
            &&& after.photos_of(second) == s.photos_of(second) + 1
            &&& after.photo_count == s.photo_count + 2
        }),
{
    lemma_next_count(s.photos_of(first));
    lemma_next_count(s.photos_of(second));
    lemma_next_count(s.photo_count);
    lemma_next_count(s.photo_count + 1);
}

/// In a history whose registrations all come at a time that is not zero, from
/// an account that is not the zero address and with a commitment that is not
/// zero, every attestation has all of its fields zero or none of them.
pub proof fn lemma_all_or_nothing(ops: Seq<Operation>)
    requires
        forall|i: int| 0 <= i < ops.len() ==> nowhere_zero(#[trigger] ops[i]),
    ensures
        LedgerView::replay(ops).all_or_nothing(),
    decreases ops.len(),
{
    if ops.len() > 0 {
        let earlier = ops.drop_last();
        assert forall|i: int| 0 <= i < earlier.len() implies nowhere_zero(
            #[trigger] earlier[i],
        ) by {
            assert(earlier[i] == ops[i]);
        }
        lemma_all_or_nothing(earlier);
        let before = LedgerView::replay(earlier);
        let after = LedgerView::replay(ops);
        assert(nowhere_zero(ops[ops.len() - 1]));
        assert forall|h: nat| #[trigger] after.attestation(h).all_or_nothing() by {
            assert(before.attestation(h).all_or_nothing());
        }
    }
}

} // verus!
