//! The bucket record: one disambiguation byte followed by a fixed-size bitmap.
//!
//! One record covers `BITS_PER_BUCKET` consecutive sequence numbers; the bit
//! at `sequence % BITS_PER_BUCKET` says whether that sequence was consumed.

use vstd::prelude::*;

use crate::BITMAP_ACCOUNT_SIZE;
use crate::BITMAP_BYTES;
use crate::BITS_PER_BUCKET;

verus! {

/// Whether bit `k` (counted from the least significant end) of `byte` is set.
pub open spec fn nth_bit(byte: u8, k: u8) -> bool {
    (byte >> k) & 1 == 1
}

/// Whether the bitmap records `sequence` as consumed.
///
/// The bit index is the remainder of `sequence` within its bucket; bits are
/// packed eight to a byte, least significant bit first.
pub open spec fn seq_is_used(bitmap: Seq<u8>, sequence: u64) -> bool {
    nth_bit(
        bitmap[(sequence % BITS_PER_BUCKET) as int / 8],
        ((sequence % BITS_PER_BUCKET) % 8) as u8,
    )
}

/// An all-zero bitmap: no sequence consumed yet.
pub open spec fn zero_bitmap() -> Seq<u8> {
    Seq::new(BITMAP_BYTES as nat, |i: int| 0u8)
}

/// The bitmap after the bit for `sequence` is set: one byte gains one bit,
/// everything else is untouched.
pub open spec fn spec_set_bit(bitmap: Seq<u8>, sequence: u64) -> Seq<u8> {
    let byte_index = sequence_byte_index(sequence);
    let bit_offset = ((sequence % BITS_PER_BUCKET) % 8) as u8;
    bitmap.update(byte_index, bitmap[byte_index] | (1u8 << bit_offset))
}

/// A fresh bitmap records nothing as consumed.
pub proof fn lemma_zero_bitmap_unused(sequence: u64)
    ensures
        !seq_is_used(zero_bitmap(), sequence),
{
    lemma_bit_position_bounds(sequence);
    let k = ((sequence % BITS_PER_BUCKET) % 8) as u8;
    assert(k < 8 ==> ((0u8 >> k) & 1 == 0)) by (bit_vector);
}

/// Setting the bit for one sequence marks exactly that sequence: every
/// sequence with a different in-bucket position keeps its previous state,
/// and no set bit is ever cleared.
pub proof fn lemma_set_bit_effect(bitmap: Seq<u8>, sequence: u64)
    requires
        bitmap.len() == BITMAP_BYTES,
    ensures
        spec_set_bit(bitmap, sequence).len() == BITMAP_BYTES,
        seq_is_used(spec_set_bit(bitmap, sequence), sequence),
        forall|s2: u64|
            s2 % BITS_PER_BUCKET != sequence % BITS_PER_BUCKET ==> seq_is_used(
                spec_set_bit(bitmap, sequence),
                s2,
            ) == seq_is_used(bitmap, s2),
        forall|s2: u64|
            seq_is_used(bitmap, s2) ==> seq_is_used(spec_set_bit(bitmap, sequence), s2),
{
    lemma_bit_position_bounds(sequence);
    let updated = spec_set_bit(bitmap, sequence);
    let byte_index = sequence_byte_index(sequence);
    let k = ((sequence % BITS_PER_BUCKET) % 8) as u8;
    let old_byte = bitmap[byte_index];
    assert(k < 8 ==> (((old_byte | (1u8 << k)) >> k) & 1 == 1)) by (bit_vector);
    assert forall|s2: u64|
        s2 % BITS_PER_BUCKET != sequence % BITS_PER_BUCKET implies seq_is_used(updated, s2)
        == seq_is_used(bitmap, s2) by {
        lemma_bit_position_bounds(s2);
        let b2 = sequence_byte_index(s2);
        let k2 = ((s2 % BITS_PER_BUCKET) % 8) as u8;
        if b2 == byte_index {
            assert(k2 != k) by {
                lemma_bit_position_unique(sequence, s2);
            }
            assert(k < 8 && k2 < 8 && k2 != k ==> (((old_byte | (1u8 << k)) >> k2) & 1 == (old_byte
                >> k2) & 1)) by (bit_vector);
        } else {
            assert(updated[b2] == bitmap[b2]);
        }
    }
    assert forall|s2: u64| seq_is_used(bitmap, s2) implies seq_is_used(updated, s2) by {
        lemma_bit_position_bounds(s2);
        if s2 % BITS_PER_BUCKET == sequence % BITS_PER_BUCKET {
            assert(sequence_byte_index(s2) == byte_index);
        }
    }
}

/// Setting a bit that is already set changes nothing.
pub proof fn lemma_set_bit_noop(bitmap: Seq<u8>, sequence: u64)
    requires
        bitmap.len() == BITMAP_BYTES,
        seq_is_used(bitmap, sequence),
    ensures
        spec_set_bit(bitmap, sequence) == bitmap,
{
    lemma_bit_position_bounds(sequence);
    let byte_index = sequence_byte_index(sequence);
    let k = ((sequence % BITS_PER_BUCKET) % 8) as u8;
    let b = bitmap[byte_index];
    assert(k < 8 && (b >> k) & 1 == 1 ==> (b | (1u8 << k)) == b) by (bit_vector);
    assert(spec_set_bit(bitmap, sequence) =~= bitmap);
}

/// One bucket record, as an owned value.
///
/// Layout on the wire: `[bump][bitmap: BITMAP_BYTES bytes]`.
pub struct BitmapAccount {
    /// The stored disambiguation byte of the record's derived address.
    pub bump: u8,
    /// The consumption bitmap.
    pub bitmap: Vec<u8>,
}

impl BitmapAccount {
    /// The bitmap holds exactly one bucket.
    pub open spec fn wf(self) -> bool {
        self.bitmap@.len() == BITMAP_BYTES
    }

    /// A record with the given bump and no sequence consumed.
    pub fn new(bump: u8) -> (r: BitmapAccount)
        ensures
            r.wf(),
            r.bump == bump,
            r.bitmap@ == zero_bitmap(),
            forall|s: u64| !seq_is_used(r.bitmap@, s),
    {
        let mut bitmap: Vec<u8> = Vec::new();
        let mut i: usize = 0;
        while i < BITMAP_BYTES
            invariant
                i <= BITMAP_BYTES,
                bitmap@.len() == i,
                forall|j: int| 0 <= j < i ==> bitmap@[j] == 0u8,
            decreases BITMAP_BYTES - i,
        {
            bitmap.push(0u8);
            i += 1;
        }
        proof {
            assert(bitmap@ =~= zero_bitmap());
            assert forall|s: u64| !seq_is_used(bitmap@, s) by {
                lemma_zero_bitmap_unused(s);
            }
        }
        BitmapAccount { bump, bitmap }
    }

    /// Interpret a byte string as a record; empty if it is too small.
    ///
    /// Exactly the leading `BITMAP_ACCOUNT_SIZE` bytes are read.
    pub fn from_slice(data: &[u8]) -> (r: Option<BitmapAccount>)
        ensures
            data@.len() < BITMAP_ACCOUNT_SIZE ==> r is None,
            data@.len() >= BITMAP_ACCOUNT_SIZE ==> (r matches Some(a) && a.wf() && a.bump
                == data@[0] && a.bitmap@ == data@.subrange(1, BITMAP_ACCOUNT_SIZE as int)),
    {
        if data.len() < BITMAP_ACCOUNT_SIZE {
            return None;
        }
        let bump = data[0];
        let mut bitmap: Vec<u8> = Vec::new();
        let mut i: usize = 0;
        while i < BITMAP_BYTES
            invariant
                i <= BITMAP_BYTES,
                data@.len() >= BITMAP_ACCOUNT_SIZE,
                bitmap@.len() == i,
                forall|j: int| 0 <= j < i ==> bitmap@[j] == data@[j + 1],
            decreases BITMAP_BYTES - i,
        {
            bitmap.push(data[i + 1]);
            i += 1;
        }
        proof {
            assert(bitmap@ =~= data@.subrange(1, BITMAP_ACCOUNT_SIZE as int));
        }
        Some(BitmapAccount { bump, bitmap })
    }

    /// The record in its wire layout: the bump byte, then the bitmap.
    pub fn to_bytes(&self) -> (r: Vec<u8>)
        requires
            self.wf(),
        ensures
            r@.len() == BITMAP_ACCOUNT_SIZE,
            r@[0] == self.bump,
            r@.subrange(1, BITMAP_ACCOUNT_SIZE as int) == self.bitmap@,
    {
        let mut out: Vec<u8> = Vec::new();
        out.push(self.bump);
        let mut i: usize = 0;
        while i < BITMAP_BYTES
            invariant
                i <= BITMAP_BYTES,
                self.wf(),
                out@.len() == i + 1,
                out@[0] == self.bump,
                forall|j: int| 0 <= j < i ==> out@[j + 1] == self.bitmap@[j],
            decreases BITMAP_BYTES - i,
        {
            out.push(self.bitmap[i]);
            i += 1;
        }
        proof {
            assert(out@.subrange(1, BITMAP_ACCOUNT_SIZE as int) =~= self.bitmap@);
        }
        out
    }

    /// Whether `sequence` is already marked consumed in this record.
    pub fn is_used(&self, sequence: u64) -> (r: bool)
        requires
            self.wf(),
        ensures
            r == seq_is_used(self.bitmap@, sequence),
    {
        let bit_index: usize = (sequence % BITS_PER_BUCKET) as usize;
        let byte_index: usize = bit_index / 8;
        let bit_offset: usize = bit_index % 8;
        proof {
            lemma_bit_position_bounds(sequence);
        }
        let byte = self.bitmap[byte_index];
        let r = byte & (1u8 << (bit_offset as u8)) != 0;
        proof {
            let k = bit_offset as u8;
            assert(k < 8 ==> ((byte & (1u8 << k) != 0) == ((byte >> k) & 1 == 1))) by (bit_vector);
        }
        r
    }

    /// Mark `sequence` consumed; report whether it already was.
    ///
    /// Only the one bit for `sequence` can change, and only from clear to set:
    /// every other sequence keeps its previous state, and no set bit is ever
    /// cleared.
    pub fn mark_used(&mut self, sequence: u64) -> (was_used: bool)
        requires
            old(self).wf(),
        ensures
            final(self).wf(),
            was_used == seq_is_used(old(self).bitmap@, sequence),
            final(self).bitmap@ == spec_set_bit(old(self).bitmap@, sequence),
            seq_is_used(final(self).bitmap@, sequence),
            final(self).bump == old(self).bump,
            forall|s2: u64|
                s2 % BITS_PER_BUCKET != sequence % BITS_PER_BUCKET ==> seq_is_used(
                    final(self).bitmap@,
                    s2,
                ) == seq_is_used(old(self).bitmap@, s2),
            forall|s2: u64|
                seq_is_used(old(self).bitmap@, s2) ==> seq_is_used(final(self).bitmap@, s2),
    {
        let bit_index: usize = (sequence % BITS_PER_BUCKET) as usize;
        let byte_index: usize = bit_index / 8;
        let bit_offset: usize = bit_index % 8;
        proof {
            lemma_bit_position_bounds(sequence);
        }
        let old_byte = self.bitmap[byte_index];
        let new_byte = old_byte | (1u8 << (bit_offset as u8));
        let was_used = old_byte & (1u8 << (bit_offset as u8)) != 0;
        self.bitmap[byte_index] = new_byte;
        proof {
            let k = bit_offset as u8;
            assert(k < 8 ==> ((old_byte & (1u8 << k) != 0) == ((old_byte >> k) & 1
                == 1))) by (bit_vector);
            assert(self.bitmap@ == spec_set_bit(old(self).bitmap@, sequence));
            lemma_set_bit_effect(old(self).bitmap@, sequence);
        }
        was_used
    }
}

/// The byte of the bitmap that holds the bit for `sequence`.
pub open spec fn sequence_byte_index(sequence: u64) -> int {
    (sequence % BITS_PER_BUCKET) as int / 8
}

/// The in-bucket bit position decomposes into a byte index below
/// `BITMAP_BYTES` and a bit offset below eight.
proof fn lemma_bit_position_bounds(sequence: u64)
    ensures
        0 <= sequence_byte_index(sequence) < BITMAP_BYTES as int,
        0 <= (sequence % BITS_PER_BUCKET) % 8 < 8,
{
    let idx = (sequence % BITS_PER_BUCKET) as int;
    assert(0 <= idx < 1024);
    assert(idx / 8 < 128) by (nonlinear_arith)
        requires
            0 <= idx < 1024,
    ;
}

/// Two sequences that land on the same byte with the same bit offset share
/// the same in-bucket bit position.
proof fn lemma_bit_position_unique(s1: u64, s2: u64)
    requires
        s1 % BITS_PER_BUCKET != s2 % BITS_PER_BUCKET,
        sequence_byte_index(s1) == sequence_byte_index(s2),
    ensures
        (s1 % BITS_PER_BUCKET) % 8 != (s2 % BITS_PER_BUCKET) % 8,
{
    let i1 = (s1 % BITS_PER_BUCKET) as int;
    let i2 = (s2 % BITS_PER_BUCKET) as int;
    assert(i1 == 8 * (i1 / 8) + i1 % 8) by (nonlinear_arith);
    assert(i2 == 8 * (i2 / 8) + i2 % 8) by (nonlinear_arith);
}

} // verus!
