//! Wire codec for the two operation payloads.
//!
//! Both operations share one binary layout:
//! `[opcode: 1][namespace_len: u16 LE][namespace: namespace_len bytes][sequence: u64 LE]`.
//! Decoding borrows the namespace from the input buffer; nothing is copied.

use vstd::prelude::*;
use vstd::slice::slice_index_get;
use vstd::slice::slice_subrange;

use crate::errors::DecodeError;
use crate::MAX_NAMESPACE_LEN;

verus! {

/// Opcode of the permissionless record-creation operation.
pub const CREATE_BITMAP: u8 = 0;

/// Opcode of the consume operation.
pub const MARK_USED: u8 = 1;

/// The value of two bytes read as a little-endian 16-bit integer.
pub open spec fn le16(b0: u8, b1: u8) -> int {
    b0 + 256 * b1
}

/// The value of the eight bytes of `b` starting at `o`, read as a
/// little-endian 64-bit integer.
pub open spec fn le64_at(b: Seq<u8>, o: int) -> int {
    b[o] + 256 * b[o + 1] + 65536 * b[o + 2] + 16777216 * b[o + 3] + 4294967296 * b[o + 4]
        + 1099511627776 * b[o + 5] + 281474976710656 * b[o + 6] + 72057594037927936 * b[o + 7]
}

/// Byte `i` of the little-endian encoding of `x`.
pub open spec fn u64_le_byte(x: u64, i: int) -> u8 {
    if i == 0 {
        (x % 256) as u8
    } else if i == 1 {
        ((x / 256) % 256) as u8
    } else if i == 2 {
        ((x / 65536) % 256) as u8
    } else if i == 3 {
        ((x / 16777216) % 256) as u8
    } else if i == 4 {
        ((x / 4294967296) % 256) as u8
    } else if i == 5 {
        ((x / 1099511627776) % 256) as u8
    } else if i == 6 {
        ((x / 281474976710656) % 256) as u8
    } else {
        ((x / 72057594037927936) % 256) as u8
    }
}

/// What decoding a payload (the bytes after the opcode) yields: the
/// namespace and the sequence number, or the reason it is rejected.
pub open spec fn spec_decode_payload(p: Seq<u8>) -> Result<(Seq<u8>, u64), DecodeError> {
    if p.len() < 10 {
        Err(DecodeError::Truncated)
    } else {
        let len = le16(p[0], p[1]);
        if len > MAX_NAMESPACE_LEN {
            Err(DecodeError::NamespaceTooLong)
        } else if p.len() != 2 + len + 8 {
            Err(DecodeError::LengthMismatch)
        } else {
            Ok((p.subrange(2, 2 + len), le64_at(p, 2 + len) as u64))
        }
    }
}

/// What decoding a full request yields: the opcode, the namespace and the
/// sequence number, or the reason it is rejected.
pub open spec fn spec_decode(data: Seq<u8>) -> Result<(u8, Seq<u8>, u64), DecodeError> {
    if data.len() < 11 {
        Err(DecodeError::Truncated)
    } else {
        match spec_decode_payload(data.skip(1)) {
            Err(e) => Err(e),
            Ok((ns, sequence)) => {
                if data[0] == CREATE_BITMAP || data[0] == MARK_USED {
                    Ok((data[0], ns, sequence))
                } else {
                    Err(DecodeError::UnknownOpcode)
                }
            },
        }
    }
}

/// The encoding of one operation: opcode, namespace length, namespace,
/// sequence number.
pub open spec fn spec_encode(opcode: u8, namespace: Seq<u8>, sequence: u64) -> Seq<u8> {
    seq![opcode, (namespace.len() % 256) as u8, ((namespace.len() / 256) % 256) as u8] + namespace
        + Seq::new(8, |i: int| u64_le_byte(sequence, i))
}

/// A decoded request, with the namespace borrowed from the input buffer.
#[derive(Debug, Clone, Copy, PartialEq, Eq)]
pub enum Instruction<'a> {
    /// Bring the record for the sequence's bucket into existence (opcode 0).
    /// Permissionless: only the payer signs.
    CreateBitmap { namespace: &'a [u8], sequence: u64 },
    /// Consume a sequence number (opcode 1). The owning identity must sign.
    MarkUsed { namespace: &'a [u8], sequence: u64 },
}

/// The payload common to both operations, with the namespace borrowed from
/// the input buffer.
#[derive(Debug, Clone, Copy, PartialEq, Eq)]
pub struct InstructionData<'a> {
    /// The application-chosen namespace, at most `MAX_NAMESPACE_LEN` bytes.
    pub namespace: &'a [u8],
    /// The sequence number the operation is about.
    pub sequence: u64,
}

/// Read two bytes at `offset` as a little-endian 16-bit integer.
fn read_u16_le(data: &[u8], offset: usize) -> (r: usize)
    requires
        offset + 2 <= data@.len(),
    ensures
        r == le16(data@[offset as int], data@[offset + 1]),
        r < 65536,
{
    // A slice is at most usize::MAX long, so the offsets below cannot
    // overflow; the binding brings that bound into scope.
    let _n: usize = data.len();
    let b0 = *slice_index_get(data, offset);
    let b1 = *slice_index_get(data, offset + 1);
    (b0 as usize) + 256 * (b1 as usize)
}

/// Read eight bytes at `offset` as a little-endian 64-bit integer.
fn read_u64_le(data: &[u8], offset: usize) -> (r: u64)
    requires
        offset + 8 <= data@.len(),
    ensures
        r == le64_at(data@, offset as int),
{
    // A slice is at most usize::MAX long, so the offsets below cannot
    // overflow; the binding brings that bound into scope.
    let _n: usize = data.len();
    let b0 = *slice_index_get(data, offset) as u64;
    let b1 = *slice_index_get(data, offset + 1) as u64;
    let b2 = *slice_index_get(data, offset + 2) as u64;
    let b3 = *slice_index_get(data, offset + 3) as u64;
    let b4 = *slice_index_get(data, offset + 4) as u64;
    let b5 = *slice_index_get(data, offset + 5) as u64;
    let b6 = *slice_index_get(data, offset + 6) as u64;
    let b7 = *slice_index_get(data, offset + 7) as u64;
    b0 + 256 * b1 + 65536 * b2 + 16777216 * b3 + 4294967296 * b4 + 1099511627776 * b5
        + 281474976710656 * b6 + 72057594037927936 * b7
}

impl<'a> InstructionData<'a> {
    /// Decode a payload (namespace length, namespace, sequence).
    pub fn parse(data: &'a [u8]) -> (r: Result<InstructionData<'a>, DecodeError>)
        ensures
            match spec_decode_payload(data@) {
                Err(e) => r matches Err(e2) && e2 == e,
                Ok((ns, sequence)) => r matches Ok(d) && d.namespace@ == ns && d.sequence
                    == sequence,
            },
    {
        if data.len() < 10 {
            return Err(DecodeError::Truncated);
        }
        let namespace_len = read_u16_le(data, 0);
        if namespace_len > MAX_NAMESPACE_LEN {
            return Err(DecodeError::NamespaceTooLong);
        }
        if data.len() != 2 + namespace_len + 8 {
            return Err(DecodeError::LengthMismatch);
        }
        let namespace = slice_subrange(data, 2, 2 + namespace_len);
        let sequence = read_u64_le(data, 2 + namespace_len);
        Ok(InstructionData { namespace, sequence })
    }
}

impl<'a> Instruction<'a> {
    /// Decode a full request: opcode byte, then the payload.
    pub fn parse(data: &'a [u8]) -> (r: Result<Instruction<'a>, DecodeError>)
        ensures
            match spec_decode(data@) {
                Err(e) => r matches Err(e2) && e2 == e,
                Ok((opcode, ns, sequence)) => r matches Ok(i) && (if opcode == CREATE_BITMAP {
                    i matches Instruction::CreateBitmap { namespace, sequence: s } && namespace@
                        == ns && s == sequence
                } else {
                    i matches Instruction::MarkUsed { namespace, sequence: s } && namespace@ == ns
                        && s == sequence
                }),
            },
    {
        if data.len() < 11 {
            return Err(DecodeError::Truncated);
        }
        let discriminator = *slice_index_get(data, 0);
        let payload = slice_subrange(data, 1, data.len());
        let parsed = InstructionData::parse(payload)?;
        match discriminator {
            CREATE_BITMAP => Ok(
                Instruction::CreateBitmap {
                    namespace: parsed.namespace,
                    sequence: parsed.sequence,
                },
            ),
            MARK_USED => Ok(
                Instruction::MarkUsed { namespace: parsed.namespace, sequence: parsed.sequence },
            ),
            _ => Err(DecodeError::UnknownOpcode),
        }
    }
}

/// Encode one operation in the shared wire layout.
pub fn build_instruction_data(discriminator: u8, namespace: &[u8], sequence: u64) -> (r: Vec<u8>)
    requires
        namespace@.len() <= MAX_NAMESPACE_LEN,
    ensures
        r@ == spec_encode(discriminator, namespace@, sequence),
{
    let mut data: Vec<u8> = Vec::new();
    data.push(discriminator);
    data.push((namespace.len() % 256) as u8);
    data.push(((namespace.len() / 256) % 256) as u8);
    let mut i: usize = 0;
    while i < namespace.len()
        invariant
            i <= namespace@.len(),
            data@.len() == 3 + i,
            data@[0] == discriminator,
            data@[1] == (namespace@.len() % 256) as u8,
            data@[2] == ((namespace@.len() / 256) % 256) as u8,
            forall|j: int| 0 <= j < i ==> data@[3 + j] == namespace@[j],
        decreases namespace@.len() - i,
    {
        data.push(*slice_index_get(namespace, i));
        i += 1;
    }
    data.push((sequence % 256) as u8);
    data.push(((sequence / 256) % 256) as u8);
    data.push(((sequence / 65536) % 256) as u8);
    data.push(((sequence / 16777216) % 256) as u8);
    data.push(((sequence / 4294967296) % 256) as u8);
    data.push(((sequence / 1099511627776) % 256) as u8);
    data.push(((sequence / 281474976710656) % 256) as u8);
    data.push(((sequence / 72057594037927936) % 256) as u8);
    proof {
        let s = spec_encode(discriminator, namespace@, sequence);
        let n = namespace@.len() as int;
        assert(data@.len() == 11 + n);
        assert(s.len() == 11 + n);
        assert forall|j: int| 0 <= j < data@.len() implies data@[j] == s[j] by {
            if j < 3 {
            } else if j < 3 + n {
                assert(s[j] == namespace@[j - 3]);
                assert(data@[j] == namespace@[j - 3]);
            } else {
                assert(s[j] == u64_le_byte(sequence, j - 3 - n));
            }
        }
        assert(data@ =~= s);
    }
    data
}

/// Encoding then decoding a well-formed operation yields it back unchanged:
/// for either opcode and a namespace within the length bound, the decoder
/// accepts the encoder's output and recovers the opcode, the namespace and
/// the sequence number.
pub proof fn lemma_encode_decode_round_trip(opcode: u8, namespace: Seq<u8>, sequence: u64)
    requires
        opcode == CREATE_BITMAP || opcode == MARK_USED,
        namespace.len() <= MAX_NAMESPACE_LEN,
    ensures
        spec_decode(spec_encode(opcode, namespace, sequence)) == Ok::<_, DecodeError>(
            (opcode, namespace, sequence),
        ),
{
    let e = spec_encode(opcode, namespace, sequence);
    let p = e.skip(1);
    assert(e.len() == 11 + namespace.len());
    assert(p.len() == 10 + namespace.len());
    assert(p[0] == (namespace.len() % 256) as u8);
    assert(p[1] == ((namespace.len() / 256) % 256) as u8);
    assert(le16(p[0], p[1]) == namespace.len()) by {
        let n = namespace.len() as int;
        assert(0 <= n <= 64);
    }
    assert(p.subrange(2, 2 + namespace.len() as int) =~= namespace);
    let o = 2 + namespace.len() as int;
    assert(p[o] == e[1 + o] && p[o + 1] == e[1 + o + 1] && p[o + 2] == e[1 + o + 2] && p[o + 3]
        == e[1 + o + 3] && p[o + 4] == e[1 + o + 4] && p[o + 5] == e[1 + o + 5] && p[o + 6] == e[1
        + o + 6] && p[o + 7] == e[1 + o + 7]);
    assert(e[1 + o] == u64_le_byte(sequence, 0) && e[1 + o + 1] == u64_le_byte(sequence, 1) && e[1
        + o + 2] == u64_le_byte(sequence, 2) && e[1 + o + 3] == u64_le_byte(sequence, 3) && e[1 + o
        + 4] == u64_le_byte(sequence, 4) && e[1 + o + 5] == u64_le_byte(sequence, 5) && e[1 + o + 6]
        == u64_le_byte(sequence, 6) && e[1 + o + 7] == u64_le_byte(sequence, 7));
    lemma_le64_of_le_bytes(sequence, p, o);
    assert(spec_decode_payload(p) == Ok::<_, DecodeError>(
        (namespace, sequence),
    ));
    assert(e[0] == opcode);
}

/// Reading back the eight little-endian bytes of `x` yields `x`.
proof fn lemma_le64_of_le_bytes(x: u64, b: Seq<u8>, o: int)
    requires
        0 <= o,
        o + 8 <= b.len(),
        b[o] == u64_le_byte(x, 0),
        b[o + 1] == u64_le_byte(x, 1),
        b[o + 2] == u64_le_byte(x, 2),
        b[o + 3] == u64_le_byte(x, 3),
        b[o + 4] == u64_le_byte(x, 4),
        b[o + 5] == u64_le_byte(x, 5),
        b[o + 6] == u64_le_byte(x, 6),
        b[o + 7] == u64_le_byte(x, 7),
    ensures
        le64_at(b, o) == x,
{
    assert(((x % 256) as u8) == x % 256 && (((x / 256) % 256) as u8) == (x / 256) % 256 && (((x
        / 65536) % 256) as u8) == (x / 65536) % 256 && (((x / 16777216) % 256) as u8) == (x
        / 16777216) % 256 && (((x / 4294967296) % 256) as u8) == (x / 4294967296) % 256 && (((x
        / 1099511627776) % 256) as u8) == (x / 1099511627776) % 256 && (((x / 281474976710656)
        % 256) as u8) == (x / 281474976710656) % 256 && (((x / 72057594037927936) % 256) as u8)
        == (x / 72057594037927936) % 256) by (bit_vector);
    assert((x % 256) + 256 * ((x / 256) % 256) + 65536 * ((x / 65536) % 256) + 16777216 * ((x
        / 16777216) % 256) + 4294967296 * ((x / 4294967296) % 256) + 1099511627776 * ((x
        / 1099511627776) % 256) + 281474976710656 * ((x / 281474976710656) % 256)
        + 72057594037927936 * ((x / 72057594037927936) % 256) == x) by (bit_vector);
}

} // verus!
