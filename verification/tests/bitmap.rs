//! The bucket record: layout, bit placement, and monotone consumption.

use noreplay::state::BitmapAccount;
use noreplay::{BITMAP_ACCOUNT_SIZE, BITMAP_BYTES, BITS_PER_BUCKET};

#[test]
fn from_slice_needs_a_full_record() {
    let short = vec![0u8; BITMAP_ACCOUNT_SIZE - 1];
    assert!(BitmapAccount::from_slice(&short).is_none());

    let mut exact = vec![0u8; BITMAP_ACCOUNT_SIZE];
    exact[0] = 0xFE;
    exact[1] = 0x01;
    let account = BitmapAccount::from_slice(&exact).expect("exact size wraps");
    assert_eq!(account.bump, 0xFE);
    assert_eq!(account.bitmap.len(), BITMAP_BYTES);
    assert!(account.is_used(0), "bit zero of the first byte is set");
    assert!(!account.is_used(1));

    // Extra bytes beyond the record are ignored.
    exact.push(0xAA);
    assert!(BitmapAccount::from_slice(&exact).is_some());
}

#[test]
fn mark_used_reports_the_previous_state() {
    let mut account = BitmapAccount::new(3);
    assert!(!account.is_used(100));
    assert!(!account.mark_used(100), "first marking finds the bit clear");
    assert!(account.is_used(100));
    assert!(account.mark_used(100), "second marking finds the bit set");
}

#[test]
fn bits_are_placed_by_the_in_bucket_remainder() {
    let mut account = BitmapAccount::new(0);
    // 1024 and 0 share the remainder, so they share the bit.
    account.mark_used(BITS_PER_BUCKET);
    assert!(account.is_used(0));
    assert_eq!(account.bitmap[0], 1);

    // Bit 10 sits in byte 1, position 2.
    let mut account = BitmapAccount::new(0);
    account.mark_used(10);
    assert_eq!(account.bitmap[1], 0b100);
    assert!(!account.is_used(9));
    assert!(!account.is_used(11));
}

#[test]
fn marking_one_bit_leaves_the_rest() {
    let mut account = BitmapAccount::new(0);
    account.mark_used(5);
    account.mark_used(700);
    for s in 0..BITS_PER_BUCKET {
        assert_eq!(account.is_used(s), s == 5 || s == 700);
    }
}

#[test]
fn to_bytes_round_trips() {
    let mut account = BitmapAccount::new(0xAB);
    account.mark_used(9);
    let bytes = account.to_bytes();
    assert_eq!(bytes.len(), BITMAP_ACCOUNT_SIZE);
    assert_eq!(bytes[0], 0xAB);
    let back = BitmapAccount::from_slice(&bytes).expect("full record");
    assert_eq!(back.bump, 0xAB);
    assert_eq!(back.bitmap, account.bitmap);
}
