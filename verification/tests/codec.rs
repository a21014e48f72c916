//! Wire codec: exact layouts, the round trip, and every decode error.

use noreplay::errors::DecodeError;
use noreplay::instruction::{build_instruction_data, Instruction, InstructionData};
use noreplay::instruction::{CREATE_BITMAP, MARK_USED};

#[test]
fn encode_layout_is_exact() {
    let data = build_instruction_data(MARK_USED, b"ab", 0x0102030405060708);
    assert_eq!(
        data,
        vec![
            1, // opcode
            2, 0, // namespace length, little endian
            b'a', b'b', // namespace
            8, 7, 6, 5, 4, 3, 2, 1, // sequence, little endian
        ]
    );
}

#[test]
fn decode_recovers_what_encode_wrote() {
    let namespace = b"my_namespace";
    let sequence = 42u64;
    let data = build_instruction_data(CREATE_BITMAP, namespace, sequence);
    match Instruction::parse(&data) {
        Ok(Instruction::CreateBitmap { namespace: ns, sequence: s }) => {
            assert_eq!(ns, namespace);
            assert_eq!(s, sequence);
        }
        other => panic!("expected CreateBitmap, got {:?}", other.is_ok()),
    }

    let data = build_instruction_data(MARK_USED, b"", u64::MAX);
    match Instruction::parse(&data) {
        Ok(Instruction::MarkUsed { namespace: ns, sequence: s }) => {
            assert_eq!(ns, b"");
            assert_eq!(s, u64::MAX);
        }
        other => panic!("expected MarkUsed, got {:?}", other.is_ok()),
    }
}

#[test]
fn sixty_four_byte_namespace_decodes() {
    let namespace = [0x41u8; 64];
    let data = build_instruction_data(MARK_USED, &namespace, 7);
    match Instruction::parse(&data) {
        Ok(Instruction::MarkUsed { namespace: ns, sequence: s }) => {
            assert_eq!(ns, &namespace);
            assert_eq!(s, 7);
        }
        _ => panic!("64-byte namespace should decode"),
    }
}

#[test]
fn sixty_five_byte_namespace_is_rejected() {
    // Built by hand: the encoder itself refuses over-long namespaces.
    let namespace = [0x42u8; 65];
    let mut data = vec![MARK_USED, 65, 0];
    data.extend_from_slice(&namespace);
    data.extend_from_slice(&7u64.to_le_bytes());
    assert_eq!(Instruction::parse(&data), Err(DecodeError::NamespaceTooLong));
}

#[test]
fn empty_namespace_decodes() {
    let data = build_instruction_data(CREATE_BITMAP, b"", 9);
    match Instruction::parse(&data) {
        Ok(Instruction::CreateBitmap { namespace: ns, sequence: s }) => {
            assert_eq!(ns, b"");
            assert_eq!(s, 9);
        }
        _ => panic!("empty namespace should decode"),
    }
}

#[test]
fn short_payload_is_truncated() {
    assert_eq!(Instruction::parse(&[]), Err(DecodeError::Truncated));
    assert_eq!(Instruction::parse(&[1]), Err(DecodeError::Truncated));
    // Ten bytes: one short of the smallest well-formed request.
    assert_eq!(
        Instruction::parse(&[1, 0, 0, 0, 0, 0, 0, 0, 0, 0]),
        Err(DecodeError::Truncated)
    );
    // Eleven zero bytes decode as CreateBitmap of sequence 0.
    assert!(Instruction::parse(&[0u8; 11]).is_ok());
}

#[test]
fn wrong_total_length_is_mismatch() {
    // Declares a 3-byte namespace but carries 4 bytes before the sequence.
    let mut data = vec![MARK_USED, 3, 0];
    data.extend_from_slice(b"abcd");
    data.extend_from_slice(&1u64.to_le_bytes());
    assert_eq!(Instruction::parse(&data), Err(DecodeError::LengthMismatch));

    // Declares a 3-byte namespace but carries only 2.
    let mut data = vec![MARK_USED, 3, 0];
    data.extend_from_slice(b"ab");
    data.extend_from_slice(&1u64.to_le_bytes());
    assert_eq!(Instruction::parse(&data), Err(DecodeError::LengthMismatch));
}

#[test]
fn unknown_opcode_is_rejected() {
    let mut data = build_instruction_data(MARK_USED, b"ns", 1);
    data[0] = 2;
    assert_eq!(Instruction::parse(&data), Err(DecodeError::UnknownOpcode));
}

#[test]
fn payload_parse_skips_the_opcode() {
    let full = build_instruction_data(MARK_USED, b"xyz", 77);
    let payload = &full[1..];
    let parsed = InstructionData::parse(payload).expect("payload should parse");
    assert_eq!(parsed.namespace, b"xyz");
    assert_eq!(parsed.sequence, 77);

    // Nine bytes: one short of the smallest well-formed payload.
    assert!(matches!(
        InstructionData::parse(&[0u8; 9]),
        Err(DecodeError::Truncated)
    ));
}
