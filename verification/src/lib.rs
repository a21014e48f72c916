//! Sequence replay protection: a bucketed-bitmap registry that guarantees
//! each (identity, namespace, sequence) triple is consumed at most once.

use vstd::prelude::*;

pub mod errors;
pub mod instruction;
pub mod lifecycle;
pub mod pda;
pub mod processor;
pub mod registry;
pub mod state;

verus! {

/// A 32-byte public identifier: an identity, a program id, or a derived
/// record address.
pub type Address = [u8; 32];

/// Number of bitmap bytes held by one bucket record.
pub const BITMAP_BYTES: usize = 128;

/// Sequence numbers covered by one bucket record.
pub const BITS_PER_BUCKET: u64 = 1024;

/// Total record size: one disambiguation byte followed by the bitmap.
pub const BITMAP_ACCOUNT_SIZE: usize = 129;

/// Longest namespace accepted anywhere in the library.
pub const MAX_NAMESPACE_LEN: usize = 64;

/// Bucket index that holds a given sequence number.
pub fn bucket_index(sequence: u64) -> (r: u64)
    ensures
        r == sequence / BITS_PER_BUCKET,
{
    sequence / BITS_PER_BUCKET
}

/// Whether two byte strings hold the same bytes.
pub fn bytes_equal(a: &[u8], b: &[u8]) -> (r: bool)
    ensures
        r == (a@ == b@),
{
    if a.len() != b.len() {
        return false;
    }
    let mut i: usize = 0;
    while i < a.len()
        invariant
            i <= a@.len(),
            a@.len() == b@.len(),
            forall|j: int| 0 <= j < i ==> a@[j] == b@[j],
        decreases a@.len() - i,
    {
        if *vstd::slice::slice_index_get(a, i) != *vstd::slice::slice_index_get(b, i) {
            return false;
        }
        i += 1;
    }
    proof {
        assert(a@ =~= b@);
    }
    true
}

/// Whether two 32-byte identifiers are the same.
pub fn address_equal(a: &Address, b: &Address) -> (r: bool)
    ensures
        r == (a@ == b@),
{
    bytes_equal(vstd::array::array_as_slice(a), vstd::array::array_as_slice(b))
}

} // verus!
