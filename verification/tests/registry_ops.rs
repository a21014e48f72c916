//! Registry-level behavior: consumption, replay rejection, independence,
//! funding paths, and the costs of warm versus cold operations.

use noreplay::errors::OpError;
use noreplay::registry::Registry;

/// A plausible rent-exempt minimum for one record, in lamports.
const RENT_MINIMUM: u64 = 1_781_760;

fn id(byte: u8) -> [u8; 32] {
    [byte; 32]
}

#[test]
fn lamports_cost_is_rent_exempt_minimum() {
    let mut reg = Registry::new(RENT_MINIMUM);
    let authority = id(7);
    let namespace = b"test";
    let sequence = 42u64;

    let result = reg.consume(&authority, namespace, sequence, true, true);
    assert!(result.is_ok(), "Transaction should succeed: {:?}", result);

    // The record is funded to exactly the required minimum.
    let balance = reg.record_balance(&authority, namespace, sequence);
    assert_eq!(
        balance,
        Some(RENT_MINIMUM),
        "PDA should have rent-exempt minimum: expected {}, got {:?}",
        RENT_MINIMUM,
        balance
    );
}

#[test]
fn works_when_pda_prefunded() {
    let mut reg = Registry::new(RENT_MINIMUM);
    let authority = id(1);
    let namespace = b"test";
    let sequence = 123u64;

    // An attacker sends lamports to the record's address before first use.
    reg.pre_fund(&authority, namespace, sequence, 1_000_000);
    let balance = reg.record_balance(&authority, namespace, sequence);
    assert!(balance.unwrap() > 0, "PDA should have lamports from attacker");

    // The rightful identity can still claim the sequence.
    let result = reg.consume(&authority, namespace, sequence, true, true);
    assert!(
        result.is_ok(),
        "Should succeed even with pre-funded PDA: {:?}",
        result
    );
}

#[test]
fn different_namespaces_are_independent() {
    let mut reg = Registry::new(RENT_MINIMUM);
    let authority = id(2);
    let sequence = 42u64;

    assert!(reg.consume(&authority, b"namespace_a", sequence, true, true).is_ok());

    let result = reg.consume(&authority, b"namespace_b", sequence, true, true);
    assert!(
        result.is_ok(),
        "Same sequence in different namespace should succeed: {:?}",
        result
    );
}

#[test]
fn empty_namespace_works() {
    let mut reg = Registry::new(RENT_MINIMUM);
    let authority = id(3);
    let namespace: &[u8] = b"";
    let sequence = 1u64;

    let result = reg.consume(&authority, namespace, sequence, true, true);
    assert!(result.is_ok(), "Empty namespace should work: {:?}", result);
}

#[test]
fn short_namespace_works() {
    let mut reg = Registry::new(RENT_MINIMUM);
    let authority = id(4);
    let namespace = b"short_ns!!";
    let sequence = 1u64;

    let result = reg.consume(&authority, namespace, sequence, true, true);
    assert!(result.is_ok(), "Short namespace should work: {:?}", result);
}

#[test]
fn long_namespace_works() {
    let mut reg = Registry::new(RENT_MINIMUM);
    let authority = id(5);
    let namespace = [0xABu8; 64];
    let sequence = 1u64;

    let result = reg.consume(&authority, &namespace, sequence, true, true);
    assert!(result.is_ok(), "64-byte namespace should work: {:?}", result);
}

#[test]
fn max_namespace_length_works() {
    let mut reg = Registry::new(RENT_MINIMUM);
    let authority = id(6);
    let namespace = [0xCDu8; noreplay::MAX_NAMESPACE_LEN];
    let sequence = 1u64;

    let result = reg.consume(&authority, &namespace, sequence, true, true);
    assert!(result.is_ok(), "64-byte namespace should work: {:?}", result);
}

#[test]
fn namespace_too_long_fails() {
    let mut reg = Registry::new(RENT_MINIMUM);
    let authority = id(8);
    let namespace = [0xEFu8; noreplay::MAX_NAMESPACE_LEN + 1];
    let sequence = 1u64;

    let result = reg.consume(&authority, &namespace, sequence, true, true);
    assert!(result.is_err(), "65-byte namespace should fail");
    assert_eq!(result, Err(OpError::NamespaceTooLong));
}

#[test]
fn authority_must_be_signer() {
    let mut reg = Registry::new(RENT_MINIMUM);
    let authority = id(9);
    let namespace = b"test";
    let sequence = 1u64;

    // Payer signs, the owning identity does not.
    let result = reg.consume(&authority, namespace, sequence, true, false);
    assert!(result.is_err(), "Should fail when authority doesn't sign");
    assert_eq!(result, Err(OpError::MissingSigner));
    assert!(!reg.check_consumed(&authority, namespace, sequence));
}

#[test]
fn separate_payer_and_authority_works() {
    let mut reg = Registry::new(RENT_MINIMUM);
    let authority = id(10);
    let namespace = b"test";
    let sequence = 1u64;

    // A payer other than the identity pays; both sign.
    let result = reg.consume(&authority, namespace, sequence, true, true);
    assert!(
        result.is_ok(),
        "Should work with separate payer and authority: {:?}",
        result
    );
}

#[test]
fn replay_is_rejected_and_other_sequences_stay_free() {
    // Identity A, namespace "orders": 42 consumes once, replays fail, 43
    // is untouched.
    let mut reg = Registry::new(RENT_MINIMUM);
    let a = id(11);

    assert!(reg.consume(&a, b"orders", 42, true, true).is_ok());
    assert_eq!(reg.consume(&a, b"orders", 42, true, true), Err(OpError::AlreadyUsed));
    assert!(reg.consume(&a, b"orders", 43, true, true).is_ok());
}

#[test]
fn same_bucket_sequences_are_independent() {
    // 100 and 101 share one bucket record; consuming one leaves the other
    // consumable.
    let mut reg = Registry::new(RENT_MINIMUM);
    let a = id(12);

    assert!(reg.consume(&a, b"test", 100, true, true).is_ok());
    assert!(!reg.check_consumed(&a, b"test", 101));
    assert!(reg.consume(&a, b"test", 101, true, true).is_ok());
    assert!(reg.check_consumed(&a, b"test", 100));
    assert!(reg.check_consumed(&a, b"test", 101));
}

#[test]
fn different_identities_are_independent() {
    let mut reg = Registry::new(RENT_MINIMUM);
    let a1 = id(13);
    let a2 = id(14);

    assert!(reg.consume(&a1, b"test", 7, true, true).is_ok());
    assert!(!reg.check_consumed(&a2, b"test", 7));
    assert!(reg.consume(&a2, b"test", 7, true, true).is_ok());
}

#[test]
fn pre_create_makes_consume_free() {
    // PreCreate pays the creation calls; the later Consume issues none.
    let mut reg = Registry::new(RENT_MINIMUM);
    let a = id(15);

    let created = reg.pre_create(&a, b"orders", 1000, true);
    assert_eq!(created, Ok(1), "cold pre-create issues the single combined call");
    let consumed = reg.consume(&a, b"orders", 1000, true, true);
    assert_eq!(consumed, Ok(0), "warm consume issues no creation calls");

    // A cold consume on another bucket pays for creation itself.
    let cold = reg.consume(&a, b"orders", 5000, true, true);
    assert_eq!(cold, Ok(1));
}

#[test]
fn pre_create_is_idempotent() {
    let mut reg = Registry::new(RENT_MINIMUM);
    let a = id(16);

    assert_eq!(reg.pre_create(&a, b"test", 1, true), Ok(1));
    assert_eq!(reg.pre_create(&a, b"test", 1, true), Ok(0));
    assert!(!reg.check_consumed(&a, b"test", 1));
}

#[test]
fn pre_create_needs_no_identity_signature() {
    // PreCreate by payer P without any signature from identity A, then A
    // consumes with zero additional creation calls.
    let mut reg = Registry::new(RENT_MINIMUM);
    let a = id(17);

    assert!(reg.pre_create(&a, b"orders", 1000, true).is_ok());
    assert!(reg.has_record(&a, b"orders", 1000));
    assert_eq!(reg.consume(&a, b"orders", 1000, true, true), Ok(0));
}

#[test]
fn pre_create_requires_payer_signature() {
    let mut reg = Registry::new(RENT_MINIMUM);
    let a = id(18);

    assert_eq!(reg.pre_create(&a, b"test", 1, false), Err(OpError::MissingSigner));
    assert!(!reg.has_record(&a, b"test", 1));
}

#[test]
fn funding_path_matches_balance() {
    // Unfunded: one combined call.
    let mut reg = Registry::new(RENT_MINIMUM);
    let a = id(19);
    assert_eq!(reg.consume(&a, b"test", 0, true, true), Ok(1));

    // Partially funded: transfer + allocate + assign, three calls.
    let partial = id(20);
    reg.pre_fund(&partial, b"test", 0, RENT_MINIMUM - 1);
    assert_eq!(reg.consume(&partial, b"test", 0, true, true), Ok(3));

    // Fully funded: allocate + assign, two calls.
    let full = id(21);
    reg.pre_fund(&full, b"test", 0, RENT_MINIMUM);
    assert_eq!(reg.consume(&full, b"test", 0, true, true), Ok(2));

    // Over-funded behaves like fully funded, and the balance is kept.
    let over = id(22);
    reg.pre_fund(&over, b"test", 0, 10 * RENT_MINIMUM);
    assert_eq!(reg.consume(&over, b"test", 0, true, true), Ok(2));
    assert_eq!(reg.record_balance(&over, b"test", 0), Some(10 * RENT_MINIMUM));
}

#[test]
fn largest_sequence_number_works() {
    let mut reg = Registry::new(RENT_MINIMUM);
    let a = id(23);

    assert!(reg.consume(&a, b"test", u64::MAX, true, true).is_ok());
    assert_eq!(reg.consume(&a, b"test", u64::MAX, true, true), Err(OpError::AlreadyUsed));
    assert!(reg.consume(&a, b"test", u64::MAX - 1, true, true).is_ok());
}

#[test]
fn payer_must_sign_consume() {
    let mut reg = Registry::new(RENT_MINIMUM);
    let a = id(24);

    assert_eq!(reg.consume(&a, b"test", 1, false, true), Err(OpError::MissingSigner));
    assert!(!reg.check_consumed(&a, b"test", 1));
}

#[test]
fn bucket_index_splits_every_1024_sequences() {
    assert_eq!(noreplay::bucket_index(0), 0);
    assert_eq!(noreplay::bucket_index(42), 0);
    assert_eq!(noreplay::bucket_index(1023), 0);
    assert_eq!(noreplay::bucket_index(1024), 1);
    assert_eq!(noreplay::bucket_index(u64::MAX), u64::MAX / 1024);
}
