use zero_copy_read::error::AccessError;
use zero_copy_read::instruction::{InstructionData, PAYLOAD_LEN};

#[test]
fn payload_of_sixteen_bytes_decodes_little_endian() {
    let mut payload = vec![0u8; 16];
    payload[0] = 0x05;
    payload[1] = 0x01;
    payload[8] = 0x02;
    payload[15] = 0x80;
    let fields = InstructionData::try_from(&payload).unwrap();
    assert_eq!(fields.amount, 0x0105);
    assert_eq!(fields.multiplier, 0x8000_0000_0000_0002);
}

#[test]
fn payload_matches_std_encoding() {
    let mut payload = Vec::new();
    payload.extend_from_slice(&1_234_567_890_123u64.to_le_bytes());
    payload.extend_from_slice(&u64::MAX.to_le_bytes());
    let fields = InstructionData::try_from(&payload).unwrap();
    assert_eq!(fields.amount, 1_234_567_890_123);
    assert_eq!(fields.multiplier, u64::MAX);
}

#[test]
fn payload_of_any_other_length_is_malformed() {
    for len in [0usize, 1, 8, 15, 17, 32, 100] {
        let payload = vec![7u8; len];
        assert_eq!(
            InstructionData::try_from(&payload),
            Err(AccessError::MalformedInstructionData)
        );
    }
}

#[test]
fn decode_then_encode_gives_the_payload_back() {
    let payload: Vec<u8> = (0u8..16).map(|b| b.wrapping_mul(37).wrapping_add(11)).collect();
    let fields = InstructionData::try_from(&payload).unwrap();
    assert_eq!(fields.to_bytes(), payload);
}

#[test]
fn encode_then_decode_gives_the_fields_back() {
    let fields = InstructionData { amount: 5, multiplier: 2 };
    let bytes = fields.to_bytes();
    assert_eq!(bytes.len(), PAYLOAD_LEN);
    assert_eq!(bytes, vec![5, 0, 0, 0, 0, 0, 0, 0, 2, 0, 0, 0, 0, 0, 0, 0]);
    assert_eq!(InstructionData::try_from(&bytes), Ok(fields));
}
