//! Deterministic record addressing.
//!
//! A record's address is derived from four seed components: the owning
//! identity, the two namespace chunks, and the little-endian bucket index.
//! The collision-avoiding search itself is the runtime collaborator's; this
//! module fixes the seed layout and names the search's result.

use vstd::prelude::*;
use vstd::array::array_index_get;
use vstd::pervasive::unreached;

use crate::instruction::u64_le_byte;
use crate::Address;
use crate::BITS_PER_BUCKET;
use crate::MAX_NAMESPACE_LEN;

verus! {

/// Longest single seed component the address derivation accepts.
pub const SEED_CHUNK_SIZE: usize = 32;

/// Error returned when address derivation rejects its input.
#[derive(Debug, Clone, Copy, PartialEq, Eq, Structural)]
pub enum DerivePdaError {
    /// The namespace exceeds `MAX_NAMESPACE_LEN` bytes.
    NamespaceTooLong,
}

/// Where the namespace splits into its two seed chunks.
pub open spec fn chunk_mid(ns: Seq<u8>) -> int {
    if ns.len() < SEED_CHUNK_SIZE {
        ns.len() as int
    } else {
        SEED_CHUNK_SIZE as int
    }
}

/// The first namespace chunk: up to 32 leading bytes.
pub open spec fn chunk0(ns: Seq<u8>) -> Seq<u8> {
    ns.subrange(0, chunk_mid(ns))
}

/// The second namespace chunk: whatever follows the first; may be empty.
pub open spec fn chunk1(ns: Seq<u8>) -> Seq<u8> {
    ns.subrange(chunk_mid(ns), ns.len() as int)
}

/// The little-endian bytes of the bucket index of `sequence`.
pub open spec fn bucket_bytes_of(sequence: u64) -> Seq<u8> {
    Seq::new(8, |i: int| u64_le_byte(sequence / BITS_PER_BUCKET, i))
}

/// What the runtime's address search returns for the given seed components:
/// an address and its disambiguation byte, or nothing in the (statistically
/// negligible) case that no viable address exists. A deterministic function
/// of its arguments alone.
pub uninterp spec fn pda_lookup(
    authority: Seq<u8>,
    ns_chunk0: Seq<u8>,
    ns_chunk1: Seq<u8>,
    bucket_bytes: Seq<u8>,
    program_id: Seq<u8>,
) -> Option<(Seq<u8>, u8)>;

/// What recomputing the address from the seed components plus a known
/// disambiguation byte returns: the address, or nothing when that byte does
/// not yield a viable address. A deterministic function of its arguments
/// alone.
pub uninterp spec fn pda_reconstruct(
    authority: Seq<u8>,
    ns_chunk0: Seq<u8>,
    ns_chunk1: Seq<u8>,
    bucket_bytes: Seq<u8>,
    bump: u8,
    program_id: Seq<u8>,
) -> Option<Seq<u8>>;

/// The derived address and disambiguation byte for a full (identity,
/// namespace, sequence) triple under a given program id.
pub open spec fn spec_derive(
    authority: Seq<u8>,
    ns: Seq<u8>,
    sequence: u64,
    program_id: Seq<u8>,
) -> Option<(Seq<u8>, u8)> {
    pda_lookup(authority, chunk0(ns), chunk1(ns), bucket_bytes_of(sequence), program_id)
}

/// The reconstructed address for a full triple and a known disambiguation
/// byte.
pub open spec fn spec_reconstruct(
    authority: Seq<u8>,
    ns: Seq<u8>,
    sequence: u64,
    bump: u8,
    program_id: Seq<u8>,
) -> Option<Seq<u8>> {
    pda_reconstruct(authority, chunk0(ns), chunk1(ns), bucket_bytes_of(sequence), bump, program_id)
}

/// Relies on `solana_sdk::pubkey::Pubkey::try_find_program_address`: the
/// search over disambiguation bytes is a deterministic function of the seeds
/// and the program id, and on success the returned address is exactly what
/// `create_program_address` recomputes from the same seeds plus the returned
/// byte.
#[verifier::external_body]
fn search_program_address(
    authority: &Address,
    ns0: &[u8],
    ns1: &[u8],
    bucket: &[u8; 8],
    program_id: &Address,
) -> (r: Option<(Address, u8)>)
    ensures
        match pda_lookup(authority@, ns0@, ns1@, bucket@, program_id@) {
            None => r is None,
            Some((addr, bump)) => r matches Some(p) && p.0@ == addr && p.1 == bump
                && pda_reconstruct(authority@, ns0@, ns1@, bucket@, bump, program_id@) == Some(
                addr,
            ),
        },
{
    let pk = solana_sdk::pubkey::Pubkey::new_from_array(*program_id);
    let seeds: [&[u8]; 4] = [authority.as_slice(), ns0, ns1, bucket.as_slice()];
    match solana_sdk::pubkey::Pubkey::try_find_program_address(&seeds, &pk) {
        Some((addr, bump)) => Some((addr.to_bytes(), bump)),
        None => None,
    }
}

/// Relies on `solana_sdk::pubkey::Pubkey::create_program_address`: a
/// deterministic function of the seeds (including the disambiguation byte)
/// and the program id; an error means those seeds yield no viable address.
#[verifier::external_body]
fn reconstruct_program_address(
    authority: &Address,
    ns0: &[u8],
    ns1: &[u8],
    bucket: &[u8; 8],
    bump: u8,
    program_id: &Address,
) -> (r: Option<Address>)
    ensures
        match pda_reconstruct(authority@, ns0@, ns1@, bucket@, bump, program_id@) {
            None => r is None,
            Some(addr) => r matches Some(a) && a@ == addr,
        },
{
    let pk = solana_sdk::pubkey::Pubkey::new_from_array(*program_id);
    let bump_seed = [bump];
    let seeds: [&[u8]; 5] = [authority.as_slice(), ns0, ns1, bucket.as_slice(), &bump_seed];
    match solana_sdk::pubkey::Pubkey::create_program_address(&seeds, &pk) {
        Ok(addr) => Some(addr.to_bytes()),
        Err(_) => None,
    }
}

/// Seed components for record address derivation.
///
/// The seeds are always `[authority, ns_chunk_0, ns_chunk_1, bucket_bytes]`;
/// either namespace chunk may be empty. The namespace splits in two because
/// a single seed component is capped at `SEED_CHUNK_SIZE` bytes.
pub struct BitmapPdaSeeds<'a> {
    /// The two namespace chunks, each at most `SEED_CHUNK_SIZE` bytes.
    pub ns_chunks: [&'a [u8]; 2],
    /// The bucket index, little endian.
    pub bucket_bytes: [u8; 8],
}

impl<'a> BitmapPdaSeeds<'a> {
    /// The bytes of namespace chunk `i`.
    pub open spec fn chunk(self, i: int) -> Seq<u8> {
        self.ns_chunks@[i]@
    }

    /// The seeds describe the given namespace and sequence number.
    pub open spec fn describes(self, ns: Seq<u8>, sequence: u64) -> bool {
        self.chunk(0) == chunk0(ns) && self.chunk(1) == chunk1(ns) && self.bucket_bytes@
            == bucket_bytes_of(sequence)
    }

    /// Compute the seed components of a namespace and sequence number.
    pub fn new(namespace: &'a [u8], sequence: u64) -> (r: BitmapPdaSeeds<'a>)
        ensures
            r.describes(namespace@, sequence),
    {
        let mid: usize = if namespace.len() < SEED_CHUNK_SIZE {
            namespace.len()
        } else {
            SEED_CHUNK_SIZE
        };
        let c0 = vstd::slice::slice_subrange(namespace, 0, mid);
        let c1 = vstd::slice::slice_subrange(namespace, mid, namespace.len());
        let bucket_bytes = u64_to_le_bytes(sequence / BITS_PER_BUCKET);
        BitmapPdaSeeds { ns_chunks: [c0, c1], bucket_bytes }
    }

    /// The four seed components, in derivation order.
    pub fn as_seeds<'b>(&'b self, authority: &'b [u8]) -> (r: [&'b [u8]; 4]) where 'a: 'b
        ensures
            r@[0]@ == authority@,
            r@[1]@ == self.chunk(0),
            r@[2]@ == self.chunk(1),
            r@[3]@ == self.bucket_bytes@,
    {
        let c0 = *array_index_get(&self.ns_chunks, 0);
        let c1 = *array_index_get(&self.ns_chunks, 1);
        [authority, c0, c1, self.bucket_bytes.as_slice()]
    }

    /// The five seed components used for verification or signing: the four
    /// derivation seeds followed by the disambiguation byte.
    pub fn as_seeds_with_bump<'b>(&'b self, authority: &'b [u8], bump: &'b [u8]) -> (r: [&'b [u8]; 5]) where 'a: 'b
        ensures
            r@[0]@ == authority@,
            r@[1]@ == self.chunk(0),
            r@[2]@ == self.chunk(1),
            r@[3]@ == self.bucket_bytes@,
            r@[4]@ == bump@,
    {
        let c0 = *array_index_get(&self.ns_chunks, 0);
        let c1 = *array_index_get(&self.ns_chunks, 1);
        [authority, c0, c1, self.bucket_bytes.as_slice(), bump]
    }

    /// Derive the record address and disambiguation byte for these seeds.
    pub fn find_pda(&self, authority: &Address, program_id: &Address) -> (r: (Address, u8))
        requires
            pda_lookup(
                authority@,
                self.chunk(0),
                self.chunk(1),
                self.bucket_bytes@,
                program_id@,
            ) is Some,
        ensures
            Some((r.0@, r.1)) == pda_lookup(
                authority@,
                self.chunk(0),
                self.chunk(1),
                self.bucket_bytes@,
                program_id@,
            ),
            pda_reconstruct(
                authority@,
                self.chunk(0),
                self.chunk(1),
                self.bucket_bytes@,
                r.1,
                program_id@,
            ) == Some(r.0@),
    {
        let c0 = *array_index_get(&self.ns_chunks, 0);
        let c1 = *array_index_get(&self.ns_chunks, 1);
        match search_program_address(authority, c0, c1, &self.bucket_bytes, program_id) {
            Some(p) => p,
            None => unreached(),
        }
    }

    /// Recompute the record address from these seeds and a known
    /// disambiguation byte.
    pub fn reconstruct_pda(&self, authority: &Address, bump: u8, program_id: &Address) -> (r:
        Option<Address>)
        ensures
            match pda_reconstruct(
                authority@,
                self.chunk(0),
                self.chunk(1),
                self.bucket_bytes@,
                bump,
                program_id@,
            ) {
                None => r is None,
                Some(addr) => r matches Some(a) && a@ == addr,
            },
    {
        let c0 = *array_index_get(&self.ns_chunks, 0);
        let c1 = *array_index_get(&self.ns_chunks, 1);
        reconstruct_program_address(authority, c0, c1, &self.bucket_bytes, bump, program_id)
    }
}

/// The little-endian bytes of a 64-bit integer.
fn u64_to_le_bytes(x: u64) -> (r: [u8; 8])
    ensures
        r@ == Seq::new(8, |i: int| u64_le_byte(x, i)),
{
    let r: [u8; 8] = [
        (x % 256) as u8,
        ((x / 256) % 256) as u8,
        ((x / 65536) % 256) as u8,
        ((x / 16777216) % 256) as u8,
        ((x / 4294967296) % 256) as u8,
        ((x / 1099511627776) % 256) as u8,
        ((x / 281474976710656) % 256) as u8,
        ((x / 72057594037927936) % 256) as u8,
    ];
    proof {
        assert(r@ =~= Seq::new(8, |i: int| u64_le_byte(x, i)));
    }
    r
}

/// Derive the record address and disambiguation byte for an identity,
/// namespace and sequence number, rejecting over-long namespaces.
pub fn derive_bitmap_pda(
    authority: &Address,
    namespace: &[u8],
    sequence: u64,
    program_id: &Address,
) -> (r: Result<(Address, u8), DerivePdaError>)
    requires
        namespace@.len() <= MAX_NAMESPACE_LEN ==> spec_derive(
            authority@,
            namespace@,
            sequence,
            program_id@,
        ) is Some,
    ensures
        namespace@.len() > MAX_NAMESPACE_LEN <==> r == Err::<(Address, u8), DerivePdaError>(
            DerivePdaError::NamespaceTooLong,
        ),
        namespace@.len() <= MAX_NAMESPACE_LEN ==> (r matches Ok(p) && Some((p.0@, p.1))
            == spec_derive(authority@, namespace@, sequence, program_id@)),
{
    if namespace.len() > MAX_NAMESPACE_LEN {
        return Err(DerivePdaError::NamespaceTooLong);
    }
    let seeds = BitmapPdaSeeds::new(namespace, sequence);
    Ok(seeds.find_pda(authority, program_id))
}

/// Derive the record address, first testing that the runtime's search finds
/// one: `Ok(None)` reports the (statistically negligible) case that no
/// viable address exists for these seeds.
pub fn try_derive_bitmap_pda(
    authority: &Address,
    namespace: &[u8],
    sequence: u64,
    program_id: &Address,
) -> (r: Result<Option<(Address, u8)>, DerivePdaError>)
    ensures
        namespace@.len() > MAX_NAMESPACE_LEN <==> r == Err::<
            Option<(Address, u8)>,
            DerivePdaError,
        >(DerivePdaError::NamespaceTooLong),
        namespace@.len() <= MAX_NAMESPACE_LEN ==> match spec_derive(
            authority@,
            namespace@,
            sequence,
            program_id@,
        ) {
            None => r == Ok::<Option<(Address, u8)>, DerivePdaError>(None),
            Some((addr, bump)) => r matches Ok(Some(p)) && p.0@ == addr && p.1 == bump,
        },
{
    if namespace.len() > MAX_NAMESPACE_LEN {
        return Err(DerivePdaError::NamespaceTooLong);
    }
    let seeds = BitmapPdaSeeds::new(namespace, sequence);
    let c0 = *array_index_get(&seeds.ns_chunks, 0);
    let c1 = *array_index_get(&seeds.ns_chunks, 1);
    match search_program_address(authority, c0, c1, &seeds.bucket_bytes, program_id) {
        Some(_) => match derive_bitmap_pda(authority, namespace, sequence, program_id) {
            Ok(p) => Ok(Some(p)),
            Err(e) => Err(e),
        },
        None => Ok(None),
    }
}

} // verus!
