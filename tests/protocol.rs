use cu_feetech::protocol::{
    checksum, decode_position, decode_reply, encode_instruction, position_from_payload,
    position_request, reply_rest_len, ProtocolError, INSTR_READ,
};

#[test]
fn checksum_of_read_position_body() {
    // 1 + 4 + 2 + 56 + 2 = 65; !65 = 190
    assert_eq!(checksum(&[1, 4, 2, 56, 2]), 0xBE);
}

#[test]
fn checksum_wraps_past_a_byte() {
    // 200 + 100 = 300, which wraps to 44; !44 = 211
    assert_eq!(checksum(&[200, 100]), 211);
    assert_eq!(checksum(&[]), 0xFF);
    assert_eq!(checksum(&[0xFF]), 0x00);
}

#[test]
fn encode_read_position_packet() {
    let pkt = encode_instruction(1, INSTR_READ, &[56, 2]);
    assert_eq!(pkt, vec![0xFF, 0xFF, 0x01, 0x04, 0x02, 0x38, 0x02, 0xBE]);
    assert_eq!(position_request(1), pkt);
}

#[test]
fn encode_without_params() {
    let pkt = encode_instruction(7, 0x01, &[]);
    // 7 + 2 + 1 = 10; !10 = 245
    assert_eq!(pkt, vec![0xFF, 0xFF, 7, 2, 1, 245]);
}

#[test]
fn decode_gives_back_encoded_params() {
    let params = vec![9u8, 0, 255, 17, 3];
    let pkt = encode_instruction(3, 0x00, &params);
    assert_eq!(decode_reply(&pkt), Ok(params));
    let empty = encode_instruction(3, 0x00, &[]);
    assert_eq!(decode_reply(&empty), Ok(vec![]));
}

#[test]
fn decode_rejects_bad_header() {
    assert_eq!(decode_reply(&[0xFE, 0xFF, 1, 4, 0, 1, 2, 0]), Err(ProtocolError::BadHeader));
    assert_eq!(decode_reply(&[0xFF, 0x00, 1, 4, 0, 1, 2, 0]), Err(ProtocolError::BadHeader));
    assert_eq!(decode_reply(&[0, 0, 0, 0]), Err(ProtocolError::BadHeader));
    assert_eq!(reply_rest_len(&[0x12, 0xFF, 1, 4]), Err(ProtocolError::BadHeader));
}

#[test]
fn decode_rejects_truncated_reply() {
    assert_eq!(decode_reply(&[0xFF, 0xFF, 1]), Err(ProtocolError::Truncated));
    assert_eq!(decode_reply(&[0xFF, 0xFF, 1, 4, 0, 0x10]), Err(ProtocolError::Truncated));
    assert_eq!(reply_rest_len(&[0xFF, 0xFF]), Err(ProtocolError::Truncated));
}

#[test]
fn decode_rejects_length_below_two() {
    assert_eq!(decode_reply(&[0xFF, 0xFF, 1, 1, 0]), Err(ProtocolError::BadLength));
    assert_eq!(decode_reply(&[0xFF, 0xFF, 1, 0]), Err(ProtocolError::BadLength));
}

#[test]
fn reply_header_gives_rest_length() {
    assert_eq!(reply_rest_len(&[0xFF, 0xFF, 1, 4]), Ok(4));
}

#[test]
fn position_is_little_endian() {
    assert_eq!(position_from_payload(&[0x34, 0x12]), Ok(0x1234));
    assert_eq!(position_from_payload(&[0xFF, 0xFF, 9]), Ok(65535));
    assert_eq!(position_from_payload(&[7]), Err(ProtocolError::ShortResponse));
}

#[test]
fn decode_position_from_reply() {
    // id 1, length 4, status 0, position 2048, checksum
    let reply = [0xFF, 0xFF, 1, 4, 0, 0x00, 0x08, 0xF2];
    assert_eq!(decode_position(&reply), Ok(2048));
    let short = [0xFF, 0xFF, 1, 3, 0, 0x00, 0xFB];
    assert_eq!(decode_position(&short), Err(ProtocolError::ShortResponse));
    assert_eq!(decode_position(&[0xAA, 0xFF, 1, 4]), Err(ProtocolError::BadHeader));
}

#[test]
fn decode_gives_back_largest_params() {
    let params: Vec<u8> = (0..253u32).map(|i| (i % 256) as u8).collect();
    let pkt = encode_instruction(0xFE, 0x03, &params);
    assert_eq!(pkt[3], 255);
    assert_eq!(decode_reply(&pkt), Ok(params));
}

#[test]
fn encode_truncates_length_byte() {
    let params = vec![1u8; 254];
    let pkt = encode_instruction(1, 0x03, &params);
    assert_eq!(pkt[3], 0);
    assert_eq!(decode_reply(&pkt), Err(ProtocolError::BadLength));
}
