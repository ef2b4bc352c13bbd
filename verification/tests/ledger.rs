use arbipic_verifier::address::Address;
use arbipic_verifier::attestation::PhotoAttestation;
use arbipic_verifier::commitment::derive_commitment;
use arbipic_verifier::ledger::{plan_init, plan_registration, CallContext, LedgerError, Verifier};
use arbipic_verifier::u256::U256;

fn account(tag: u8) -> Address {
    let mut bytes = [0u8; 20];
    bytes[0] = 0xac;
    bytes[19] = tag;
    Address::from_bytes(bytes)
}

fn call(tag: u8, time: u64) -> CallContext {
    CallContext { msg_sender: account(tag), block_timestamp: time }
}

fn n(x: u64) -> U256 {
    U256::from_u64(x)
}

#[test]
fn new_ledger_is_all_zero() {
    let ledger = Verifier::new();
    assert_eq!(ledger.get_photo_count().unwrap(), U256::zero());
    assert_eq!(ledger.get_contract_owner().unwrap(), Address::zero());
    assert_eq!(ledger.get_owner_photo_count(account(1)).unwrap(), U256::zero());
    assert_eq!(ledger.get_owner_photo_count(Address::zero()).unwrap(), U256::zero());
}

#[test]
fn init_sets_owner_and_counter() {
    let mut ledger = Verifier::new();
    assert_eq!(ledger.init(call(1, 100)), Ok(()));
    assert_eq!(ledger.get_contract_owner().unwrap(), account(1));
    assert_eq!(ledger.get_photo_count().unwrap(), U256::zero());
}

#[test]
fn second_init_takes_over_and_keeps_attestations() {
    let mut ledger = Verifier::new();
    ledger.init(call(1, 100)).unwrap();
    ledger.verify_photo(call(2, 200), n(11), n(77)).unwrap();
    ledger.verify_photo(call(2, 201), n(12), n(78)).unwrap();
    assert_eq!(ledger.get_photo_count().unwrap(), n(2));

    assert_eq!(ledger.init(call(3, 300)), Ok(()));

    assert_eq!(ledger.get_contract_owner().unwrap(), account(3));
    assert_eq!(ledger.get_photo_count().unwrap(), U256::zero());
    assert_eq!(ledger.get_attestation(n(11)).unwrap(), (n(200), account(2), n(77)));
    assert_eq!(ledger.get_attestation(n(12)).unwrap(), (n(201), account(2), n(78)));
    assert!(ledger.is_verified(n(11)).unwrap());
    assert_eq!(ledger.get_owner_photo_count(account(2)).unwrap(), n(2));

    ledger.verify_photo(call(2, 301), n(13), n(79)).unwrap();
    assert_eq!(ledger.get_photo_count().unwrap(), n(1));
    assert_eq!(ledger.get_owner_photo_count(account(2)).unwrap(), n(3));
}

#[test]
fn registration_writes_all_of_its_values() {
    let mut ledger = Verifier::new();
    ledger.init(call(9, 1)).unwrap();
    let h = n(0xabcdef);
    let c = n(0x1234);

    let t = ledger.verify_photo(call(1, 1_700_000_000), h, c).unwrap();

    assert_eq!(t, n(1_700_000_000));
    assert!(ledger.is_verified(h).unwrap());
    assert_eq!(ledger.get_attestation(h).unwrap(), (t, account(1), c));
    assert_eq!(ledger.get_owner_of(h).unwrap(), account(1));
    assert_eq!(ledger.get_owner_photo_count(account(1)).unwrap(), n(1));
    assert_eq!(ledger.get_photo_count().unwrap(), n(1));
    assert_eq!(ledger.get_contract_owner().unwrap(), account(9));
}

#[test]
fn registration_leaves_other_photos_and_accounts_alone() {
    let mut ledger = Verifier::new();
    ledger.verify_photo(call(1, 10), n(1), n(100)).unwrap();
    ledger.verify_photo(call(2, 20), n(2), n(200)).unwrap();
    ledger.verify_photo(call(1, 30), n(3), n(300)).unwrap();

    assert_eq!(ledger.get_attestation(n(1)).unwrap(), (n(10), account(1), n(100)));
    assert_eq!(ledger.get_attestation(n(2)).unwrap(), (n(20), account(2), n(200)));
    assert_eq!(ledger.get_attestation(n(3)).unwrap(), (n(30), account(1), n(300)));
    assert_eq!(ledger.get_owner_photo_count(account(1)).unwrap(), n(2));
    assert_eq!(ledger.get_owner_photo_count(account(2)).unwrap(), n(1));
    assert_eq!(ledger.get_owner_photo_count(account(3)).unwrap(), U256::zero());
    assert_eq!(ledger.get_photo_count().unwrap(), n(3));
}

#[test]
fn registration_before_init_works() {
    let mut ledger = Verifier::new();
    let t = ledger.verify_photo(call(4, 55), n(8), n(9)).unwrap();
    assert_eq!(t, n(55));
    assert_eq!(ledger.get_contract_owner().unwrap(), Address::zero());
    assert_eq!(ledger.get_photo_count().unwrap(), n(1));
}

#[test]
fn unregistered_photo_reads_as_zero() {
    let mut ledger = Verifier::new();
    ledger.init(call(1, 1)).unwrap();
    ledger.verify_photo(call(1, 10), n(1), n(100)).unwrap();

    assert_eq!(
        ledger.get_attestation(n(2)).unwrap(),
        (U256::zero(), Address::zero(), U256::zero())
    );
    assert!(!ledger.is_verified(n(2)).unwrap());
    assert_eq!(ledger.get_owner_of(n(2)).unwrap(), Address::zero());
    assert_eq!(
        Verifier::new().get_attestation(n(1)).unwrap(),
        (U256::zero(), Address::zero(), U256::zero())
    );
    assert!(!Verifier::new().is_verified(n(1)).unwrap());
}

#[test]
fn registered_secret_verifies() {
    let mut ledger = Verifier::new();
    let h = n(0x5eed);
    let s = n(0xc0ffee);
    ledger.verify_photo(call(1, 1000), h, derive_commitment(h, s)).unwrap();

    assert_eq!(ledger.verify_zk_proof(h, s), Ok(true));
    assert_eq!(ledger.verify_zk_proof(h, n(0xc0ffef)), Ok(false));
    assert_eq!(ledger.verify_zk_proof(h, U256::zero()), Ok(false));
    assert_eq!(ledger.verify_zk_proof(n(0x5eee), s), Ok(false));
}

#[test]
fn commitment_of_another_photo_does_not_verify() {
    let mut ledger = Verifier::new();
    let s = n(5);
    ledger.verify_photo(call(1, 1000), n(1), derive_commitment(n(2), s)).unwrap();
    assert_eq!(ledger.verify_zk_proof(n(1), s), Ok(false));
}

#[test]
fn unregistered_photo_does_not_verify_with_ordinary_secrets() {
    let ledger = Verifier::new();
    assert_eq!(ledger.verify_zk_proof(n(1), n(1)), Ok(false));
    assert_eq!(ledger.verify_zk_proof(U256::zero(), U256::zero()), Ok(false));
}

#[test]
fn second_registration_overwrites_the_first() {
    let mut ledger = Verifier::new();
    let h = n(42);
    let first_secret = n(1);
    let second_secret = n(2);
    ledger.verify_photo(call(1, 100), h, derive_commitment(h, first_secret)).unwrap();
    let t = ledger.verify_photo(call(2, 200), h, derive_commitment(h, second_secret)).unwrap();

    assert_eq!(t, n(200));
    assert_eq!(
        ledger.get_attestation(h).unwrap(),
        (n(200), account(2), derive_commitment(h, second_secret))
    );
    assert_eq!(ledger.get_owner_of(h).unwrap(), account(2));
    assert_eq!(ledger.get_owner_photo_count(account(1)).unwrap(), n(1));
    assert_eq!(ledger.get_owner_photo_count(account(2)).unwrap(), n(1));
    assert_eq!(ledger.get_photo_count().unwrap(), n(2));
    assert_eq!(ledger.verify_zk_proof(h, first_secret), Ok(false));
    assert_eq!(ledger.verify_zk_proof(h, second_secret), Ok(true));
}

#[test]
fn same_account_registering_twice_counts_twice() {
    let mut ledger = Verifier::new();
    ledger.verify_photo(call(1, 100), n(42), n(7)).unwrap();
    ledger.verify_photo(call(1, 101), n(42), n(8)).unwrap();
    assert_eq!(ledger.get_attestation(n(42)).unwrap(), (n(101), account(1), n(8)));
    assert_eq!(ledger.get_owner_photo_count(account(1)).unwrap(), n(2));
    assert_eq!(ledger.get_photo_count().unwrap(), n(2));
}

#[test]
fn registration_at_time_zero_does_not_count_as_verified() {
    let mut ledger = Verifier::new();
    let t = ledger.verify_photo(call(1, 0), n(42), n(7)).unwrap();
    assert_eq!(t, U256::zero());
    assert!(!ledger.is_verified(n(42)).unwrap());
    assert_eq!(ledger.get_attestation(n(42)).unwrap(), (U256::zero(), account(1), n(7)));
    assert_eq!(ledger.get_photo_count().unwrap(), n(1));
}

#[test]
fn registration_with_the_largest_time() {
    let mut ledger = Verifier::new();
    let t = ledger.verify_photo(call(1, u64::MAX), n(42), n(7)).unwrap();
    assert_eq!(t, n(u64::MAX));
    assert!(ledger.is_verified(n(42)).unwrap());
}

#[test]
fn photo_hashes_are_told_apart_by_every_byte() {
    let mut ledger = Verifier::new();
    let mut high = [0u8; 32];
    high[0] = 1;
    let a = U256::from_be_bytes(high);
    let b = n(1);
    ledger.verify_photo(call(1, 10), a, n(100)).unwrap();
    assert!(ledger.is_verified(a).unwrap());
    assert!(!ledger.is_verified(b).unwrap());
    ledger.verify_photo(call(2, 20), b, n(200)).unwrap();
    assert_eq!(ledger.get_attestation(a).unwrap(), (n(10), account(1), n(100)));
    assert_eq!(ledger.get_attestation(b).unwrap(), (n(20), account(2), n(200)));
}

#[test]
fn plan_registration_advances_both_counters() {
    let plan = plan_registration(call(5, 77), n(9), n(3), n(10));
    assert_eq!(
        plan.attestation,
        PhotoAttestation { verified_at: n(77), owner: account(5), zk_commitment: n(9) }
    );
    assert_eq!(plan.owner_photo_count, n(4));
    assert_eq!(plan.photo_count, n(11));
}

#[test]
fn plan_registration_wraps_a_full_counter() {
    let max = U256::from_be_bytes([0xff; 32]);
    let plan = plan_registration(call(5, 77), n(9), max, n(0xff));
    assert_eq!(plan.owner_photo_count, U256::zero());
    assert_eq!(plan.photo_count, n(0x100));
}

#[test]
fn attestation_record_answers_for_itself() {
    let h = n(3);
    let s = n(4);
    let record =
        PhotoAttestation { verified_at: n(1), owner: account(1), zk_commitment: derive_commitment(h, s) };
    assert!(record.is_verified());
    assert!(record.opened_by(h, s));
    assert!(!record.opened_by(h, n(5)));
    let zero = PhotoAttestation::zero();
    assert!(!zero.is_verified());
    assert_eq!(zero.verified_at, U256::zero());
    assert_eq!(zero.owner, Address::zero());
    assert_eq!(zero.zk_commitment, U256::zero());
}

#[test]
fn plan_init_names_the_caller_and_zero() {
    let plan = plan_init(call(6, 123));
    assert_eq!(plan.owner, account(6));
    assert_eq!(plan.photo_count, U256::zero());
}

#[test]
fn verify_photo_once_registers_a_new_photo() {
    let mut ledger = Verifier::new();
    assert_eq!(ledger.verify_photo_once(call(1, 100), n(42), n(7)), Ok(n(100)));
    assert_eq!(ledger.get_attestation(n(42)).unwrap(), (n(100), account(1), n(7)));
    assert_eq!(ledger.get_owner_photo_count(account(1)).unwrap(), n(1));
    assert_eq!(ledger.get_photo_count().unwrap(), n(1));
}

#[test]
fn verify_photo_once_refuses_a_second_registration() {
    let mut ledger = Verifier::new();
    ledger.verify_photo_once(call(1, 100), n(42), n(7)).unwrap();
    assert_eq!(
        ledger.verify_photo_once(call(2, 200), n(42), n(8)),
        Err(LedgerError::AlreadyRegistered)
    );
    assert_eq!(ledger.get_attestation(n(42)).unwrap(), (n(100), account(1), n(7)));
    assert_eq!(ledger.get_owner_photo_count(account(1)).unwrap(), n(1));
    assert_eq!(ledger.get_owner_photo_count(account(2)).unwrap(), U256::zero());
    assert_eq!(ledger.get_photo_count().unwrap(), n(1));
}

#[test]
fn verify_photo_once_accepts_after_a_registration_at_time_zero() {
    let mut ledger = Verifier::new();
    ledger.verify_photo(call(1, 0), n(42), n(7)).unwrap();
    assert_eq!(ledger.verify_photo_once(call(2, 200), n(42), n(8)), Ok(n(200)));
    assert_eq!(ledger.get_attestation(n(42)).unwrap(), (n(200), account(2), n(8)));
}

#[test]
fn find_attestation_tells_absence_from_a_record() {
    let mut ledger = Verifier::new();
    assert_eq!(ledger.find_attestation(n(42)), None);
    ledger.verify_photo(call(1, 100), n(42), n(7)).unwrap();
    assert_eq!(
        ledger.find_attestation(n(42)),
        Some(PhotoAttestation { verified_at: n(100), owner: account(1), zk_commitment: n(7) })
    );
    assert_eq!(ledger.find_attestation(n(43)), None);
    ledger.verify_photo(call(1, 0), n(44), n(7)).unwrap();
    assert_eq!(ledger.find_attestation(n(44)), None);
}

#[test]
fn check_zk_proof_tells_not_found_from_rejected() {
    let mut ledger = Verifier::new();
    let h = n(42);
    let s = n(7);
    assert_eq!(ledger.check_zk_proof(h, s), Err(LedgerError::NotRegistered));
    ledger.verify_photo(call(1, 100), h, derive_commitment(h, s)).unwrap();
    assert_eq!(ledger.check_zk_proof(h, s), Ok(true));
    assert_eq!(ledger.check_zk_proof(h, n(8)), Ok(false));
    assert_eq!(ledger.check_zk_proof(n(43), s), Err(LedgerError::NotRegistered));
}
