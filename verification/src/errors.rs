//! Error taxonomy of the registry.

use vstd::prelude::*;

verus! {

/// A request payload that could not be decoded.
#[derive(Debug, Clone, Copy, PartialEq, Eq, Structural)]
pub enum DecodeError {
    /// Fewer bytes than the smallest well-formed payload.
    Truncated,
    /// The declared namespace length exceeds the maximum.
    NamespaceTooLong,
    /// The payload length does not match the declared namespace length.
    LengthMismatch,
    /// The leading opcode byte names no operation.
    UnknownOpcode,
}

/// A failure while processing a decoded operation.
#[derive(Debug, Clone, Copy, PartialEq, Eq, Structural)]
pub enum OpError {
    /// A required authorizing signature is absent.
    MissingSigner,
    /// The supplied record does not sit at the derived address.
    AddressMismatch,
    /// The sequence number was consumed before: replay detected.
    AlreadyUsed,
    /// The namespace exceeds the maximum length.
    NamespaceTooLong,
    /// The record's stored data is smaller than one full record.
    RecordTooSmall,
}

/// Any failure of a full request: either its bytes could not be decoded,
/// or the decoded operation failed.
#[derive(Debug, Clone, Copy, PartialEq, Eq, Structural)]
pub enum RequestError {
    /// The request payload is malformed.
    Decode(DecodeError),
    /// The decoded operation failed.
    Op(OpError),
}

} // verus!
