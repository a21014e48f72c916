//! Per-invocation processing against derived addresses, with the real
//! address-derivation primitives linked in.

use noreplay::errors::{DecodeError, OpError, RequestError};
use noreplay::instruction::{build_instruction_data, CREATE_BITMAP, MARK_USED};
use noreplay::lifecycle::ExternalCall;
use noreplay::pda::{try_derive_bitmap_pda, BitmapPdaSeeds, DerivePdaError};
use noreplay::processor::{
    init_bitmap_pda, process_create_bitmap, process_mark_used, process_request, RecordView,
};
use noreplay::BITMAP_ACCOUNT_SIZE;

const RENT_MINIMUM: u64 = 1_781_760;

fn id(byte: u8) -> [u8; 32] {
    [byte; 32]
}

fn program_id() -> [u8; 32] {
    id(0xF0)
}

fn derive(authority: &[u8; 32], namespace: &[u8], sequence: u64) -> ([u8; 32], u8) {
    try_derive_bitmap_pda(authority, namespace, sequence, &program_id())
        .expect("namespace fits")
        .expect("a viable address exists")
}

fn fresh_record(authority: &[u8; 32], namespace: &[u8], sequence: u64) -> RecordView {
    let (address, _bump) = derive(authority, namespace, sequence);
    RecordView { address, owned: false, lamports: 0, data: Vec::new() }
}

#[test]
fn derivation_matches_the_runtime_primitive() {
    let authority = id(1);
    let namespace = b"my_namespace";
    let sequence = 42u64;
    let (address, bump) = derive(&authority, namespace, sequence);

    let bucket = (sequence / noreplay::BITS_PER_BUCKET).to_le_bytes();
    let seeds: [&[u8]; 4] = [&authority, b"my_namespace", b"", &bucket];
    let pk = solana_sdk::pubkey::Pubkey::new_from_array(program_id());
    let (expected, expected_bump) =
        solana_sdk::pubkey::Pubkey::find_program_address(&seeds, &pk);
    assert_eq!(address, expected.to_bytes());
    assert_eq!(bump, expected_bump);
}

#[test]
fn derivation_depends_on_every_seed() {
    let authority = id(2);
    let (a0, _) = derive(&authority, b"ns", 0);
    let (a1, _) = derive(&authority, b"other", 0);
    let (a2, _) = derive(&id(3), b"ns", 0);
    let (a3, _) = derive(&authority, b"ns", 5000);
    assert_ne!(a0, a1, "namespace must enter the derivation");
    assert_ne!(a0, a2, "identity must enter the derivation");
    assert_ne!(a0, a3, "bucket index must enter the derivation");
    assert_ne!(a0, authority, "the address is not the identity");

    // Same bucket, same address: 0 and 1023 share a record.
    let (a4, _) = derive(&authority, b"ns", 1023);
    assert_eq!(a0, a4);
}

#[test]
fn over_long_namespace_fails_derivation() {
    let namespace = [0u8; 65];
    assert_eq!(
        try_derive_bitmap_pda(&id(4), &namespace, 0, &program_id()),
        Err(DerivePdaError::NamespaceTooLong)
    );
}

#[test]
fn seeds_split_the_namespace_in_two() {
    let namespace = [0x55u8; 50];
    let seeds = BitmapPdaSeeds::new(&namespace, 2048);
    let authority = id(5);
    let four = seeds.as_seeds(&authority);
    assert_eq!(four[0], &authority);
    assert_eq!(four[1], &namespace[..32]);
    assert_eq!(four[2], &namespace[32..]);
    assert_eq!(four[3], &2u64.to_le_bytes());

    let bump = [0xFFu8];
    let five = seeds.as_seeds_with_bump(&authority, &bump);
    assert_eq!(five[3], &2u64.to_le_bytes());
    assert_eq!(five[4], &[0xFF]);
}

#[test]
fn cold_consume_creates_then_rejects_replay() {
    let authority = id(6);
    let namespace = b"orders";
    let mut record = fresh_record(&authority, namespace, 42);
    let (_, bump) = derive(&authority, namespace, 42);

    let calls = process_mark_used(
        true, true, &authority, &mut record, namespace, 42, &program_id(), RENT_MINIMUM,
    )
    .expect("first consume succeeds");
    assert_eq!(calls, vec![ExternalCall::CreateAndFund {
        lamports: RENT_MINIMUM,
        space: BITMAP_ACCOUNT_SIZE as u64,
    }]);
    assert!(record.owned);
    assert_eq!(record.lamports, RENT_MINIMUM);
    assert_eq!(record.data.len(), BITMAP_ACCOUNT_SIZE);
    assert_eq!(record.data[0], bump, "the disambiguation byte is stored");

    // Replay: the record is owned now, the ensure step verifies it by the
    // stored byte, and the bit test fails the invocation.
    let replay = process_mark_used(
        true, true, &authority, &mut record, namespace, 42, &program_id(), RENT_MINIMUM,
    );
    assert_eq!(replay, Err(OpError::AlreadyUsed));

    // A sibling sequence in the same bucket costs nothing further.
    let warm = process_mark_used(
        true, true, &authority, &mut record, namespace, 43, &program_id(), RENT_MINIMUM,
    )
    .expect("sibling sequence succeeds");
    assert!(warm.is_empty());
}

#[test]
fn wrong_record_address_is_rejected() {
    let authority = id(7);
    let mut record = fresh_record(&authority, b"ns", 0);
    record.address = id(0x99);

    let result = process_mark_used(
        true, true, &authority, &mut record, b"ns", 0, &program_id(), RENT_MINIMUM,
    );
    assert_eq!(result, Err(OpError::AddressMismatch));
    assert!(!record.owned, "a rejected record is left untouched");
}

#[test]
fn owned_record_with_short_data_is_rejected() {
    let authority = id(8);
    let mut record = fresh_record(&authority, b"ns", 0);
    record.owned = true;
    record.data = vec![0u8; BITMAP_ACCOUNT_SIZE - 1];

    let result = process_mark_used(
        true, true, &authority, &mut record, b"ns", 0, &program_id(), RENT_MINIMUM,
    );
    assert_eq!(result, Err(OpError::RecordTooSmall));
}

#[test]
fn owned_record_with_foreign_bump_is_rejected() {
    let authority = id(9);
    let (_, bump) = derive(&authority, b"ns", 0);
    let mut record = fresh_record(&authority, b"ns", 0);
    record.owned = true;
    // A stored disambiguation byte that does not reconstruct this address.
    record.data = vec![0u8; BITMAP_ACCOUNT_SIZE];
    record.data[0] = bump.wrapping_add(1);

    let result = process_mark_used(
        true, true, &authority, &mut record, b"ns", 0, &program_id(), RENT_MINIMUM,
    );
    assert_eq!(result, Err(OpError::AddressMismatch));
}

#[test]
fn ensure_creates_once_and_verifies_after() {
    let authority = id(15);
    let mut record = fresh_record(&authority, b"ns", 0);

    let (bump, plan) =
        init_bitmap_pda(&mut record, &authority, b"ns", 0, &program_id(), RENT_MINIMUM)
            .expect("creation path");
    assert_eq!(plan.len(), 1);
    assert!(record.owned);

    // A second ensure reconstructs the address from the stored byte and
    // makes no external call.
    let (bump2, plan2) =
        init_bitmap_pda(&mut record, &authority, b"ns", 0, &program_id(), RENT_MINIMUM)
            .expect("verification path");
    assert_eq!(bump2, bump);
    assert!(plan2.is_empty());
}

#[test]
fn pre_create_is_permissionless_and_sets_no_bit() {
    let authority = id(10);
    let namespace = b"orders";
    let mut record = fresh_record(&authority, namespace, 1000);

    // Only the payer signs; the identity's signature is never consulted.
    let calls = process_create_bitmap(
        true, &authority, &mut record, namespace, 1000, &program_id(), RENT_MINIMUM,
    )
    .expect("pre-creation succeeds");
    assert_eq!(calls.len(), 1);
    assert!(record.owned);
    assert!(record.data[1..].iter().all(|b| *b == 0), "no bit is set");

    // The identity's consume afterwards issues no creation calls.
    let consume = process_mark_used(
        true, true, &authority, &mut record, namespace, 1000, &program_id(), RENT_MINIMUM,
    )
    .expect("consume after pre-create succeeds");
    assert!(consume.is_empty());
}

#[test]
fn consume_requires_both_signatures() {
    let authority = id(11);
    let mut record = fresh_record(&authority, b"ns", 0);

    let r = process_mark_used(
        false, true, &authority, &mut record, b"ns", 0, &program_id(), RENT_MINIMUM,
    );
    assert_eq!(r, Err(OpError::MissingSigner));
    let r = process_mark_used(
        true, false, &authority, &mut record, b"ns", 0, &program_id(), RENT_MINIMUM,
    );
    assert_eq!(r, Err(OpError::MissingSigner));
    assert!(!record.owned);
}

#[test]
fn partially_funded_record_takes_three_calls() {
    let authority = id(12);
    let mut record = fresh_record(&authority, b"ns", 0);
    record.lamports = 1_000_000;

    let calls = process_mark_used(
        true, true, &authority, &mut record, b"ns", 0, &program_id(), RENT_MINIMUM,
    )
    .expect("pre-funded record is claimable");
    assert_eq!(calls, vec![
        ExternalCall::Transfer { lamports: RENT_MINIMUM - 1_000_000 },
        ExternalCall::Allocate { space: BITMAP_ACCOUNT_SIZE as u64 },
        ExternalCall::Assign,
    ]);
    assert_eq!(record.lamports, RENT_MINIMUM);
}

#[test]
fn fully_funded_record_takes_two_calls() {
    let authority = id(13);
    let mut record = fresh_record(&authority, b"ns", 0);
    record.lamports = 2 * RENT_MINIMUM;

    let calls = process_mark_used(
        true, true, &authority, &mut record, b"ns", 0, &program_id(), RENT_MINIMUM,
    )
    .expect("fully funded record is claimable");
    assert_eq!(calls, vec![
        ExternalCall::Allocate { space: BITMAP_ACCOUNT_SIZE as u64 },
        ExternalCall::Assign,
    ]);
    assert_eq!(record.lamports, 2 * RENT_MINIMUM, "excess balance is kept");
}

#[test]
fn full_request_round_trip() {
    let authority = id(14);
    let namespace = b"orders";
    let mut record = fresh_record(&authority, namespace, 42);

    let create = build_instruction_data(CREATE_BITMAP, namespace, 42);
    let r = process_request(
        true, false, &authority, &mut record, &program_id(), RENT_MINIMUM, &create,
    )
    .expect("a viable address exists");
    assert!(r.is_ok());
    assert!(record.owned);

    let consume = build_instruction_data(MARK_USED, namespace, 42);
    let r = process_request(
        true, true, &authority, &mut record, &program_id(), RENT_MINIMUM, &consume,
    )
    .expect("a viable address exists");
    assert_eq!(r, Ok(vec![]));

    let r = process_request(
        true, true, &authority, &mut record, &program_id(), RENT_MINIMUM, &consume,
    )
    .expect("a viable address exists");
    assert_eq!(r, Err(RequestError::Op(OpError::AlreadyUsed)));

    let r = process_request(
        true, true, &authority, &mut record, &program_id(), RENT_MINIMUM, &[1, 2],
    )
    .expect("decode errors are reported");
    assert_eq!(r, Err(RequestError::Decode(DecodeError::Truncated)));
}
