use rust_server_listener::frames::{FIN_BITS, OPCODE_BINARY, OPCODE_TEXT};
use rust_server_listener::websocket_error::{CloseReason, DecodePayloadErrors};
use rust_server_listener::websocket_server::{
    apply_mask, build_close_frame, build_frame, decode_payload, encode, get_fin_bit,
    get_mask_bit, get_message_length, get_opcode, get_payload_header,
    get_payload_length_and_offset, handle_frame, FrameOutcome, PayloadLengthFrame, OPCODES,
};

fn round_trip(len: usize) {
    let payload: Vec<u8> = (0..len).map(|i| (i % 251) as u8).collect();
    let key: [u8; 4] = [0x12, 0x34, 0x56, 0x78];
    let frame = encode(OPCODE_BINARY, true, &key, &payload);
    let decoded = decode_payload(&frame).expect("a well-formed frame must decode");
    assert_eq!(decoded, payload);
}

#[test]
fn round_trip_empty() {
    round_trip(0);
}

#[test]
fn round_trip_one_byte() {
    round_trip(1);
}

#[test]
fn round_trip_small_boundary() {
    round_trip(125);
}

#[test]
fn round_trip_extended_boundary() {
    round_trip(126);
}

#[test]
fn round_trip_u16_boundary() {
    round_trip(65535);
}

#[test]
fn round_trip_u64_form() {
    round_trip(65536);
}

#[test]
fn masking_is_self_inverse() {
    let payload: Vec<u8> = vec![0, 1, 2, 3, 250, 251, 252, 253, 254, 255, 42];
    let key: [u8; 4] = [0xa5, 0x00, 0xff, 0x37];
    let masked = apply_mask(&payload, &key);
    let unmasked = apply_mask(&masked, &key);
    assert_eq!(unmasked, payload);
    assert_ne!(masked, payload);
}

#[test]
fn header_picks_one_byte_form_at_125() {
    assert_eq!(get_payload_header(125), vec![125u8]);
    assert!(matches!(get_message_length(125), PayloadLengthFrame::PayloadData));
}

#[test]
fn header_picks_two_byte_form_at_126() {
    assert_eq!(get_payload_header(126), vec![126u8, 0, 126]);
    assert!(matches!(get_message_length(126), PayloadLengthFrame::ExtensionData));
}

#[test]
fn header_picks_eight_byte_form_above_u16() {
    assert_eq!(
        get_payload_header(65536),
        vec![127u8, 0, 0, 0, 0, 0, 1, 0, 0]
    );
    assert!(matches!(
        get_message_length(65536),
        PayloadLengthFrame::ApplicationData
    ));
}

#[test]
fn length_parsing_direct_form() {
    // indicator 125 with mask bit set: length 125, field ends at offset 2
    let buffer = [0x82u8, 0x80 | 125, 0, 0];
    assert_eq!(get_payload_length_and_offset(&buffer), Ok((125u64, 2usize)));
}

#[test]
fn length_parsing_extended_form() {
    let buffer = [0x82u8, 0x80 | 126, 0x01, 0x02];
    assert_eq!(get_payload_length_and_offset(&buffer), Ok((258u64, 4usize)));
}

#[test]
fn length_parsing_u64_form() {
    let buffer = [0x82u8, 0x80 | 127, 0, 0, 0, 0, 0, 1, 0, 0];
    assert_eq!(get_payload_length_and_offset(&buffer), Ok((65536u64, 10usize)));
}

#[test]
fn length_with_top_bit_set_is_rejected() {
    let buffer = [0x82u8, 0x80 | 127, 0x80, 0, 0, 0, 0, 0, 0, 1];
    assert_eq!(
        get_payload_length_and_offset(&buffer),
        Err(DecodePayloadErrors::ParseError)
    );
}

#[test]
fn short_buffer_is_io_error() {
    let buffer = [0x82u8, 0x80 | 126, 0x01];
    assert_eq!(
        get_payload_length_and_offset(&buffer),
        Err(DecodePayloadErrors::IoError)
    );
    // announced payload longer than the buffer
    let frame = [0x82u8, 0x80 | 5, 1, 2, 3, 4, 9];
    assert_eq!(decode_payload(&frame), Err(DecodePayloadErrors::IoError));
}

#[test]
fn decode_unmasks_payload() {
    // "ab" masked with a zero-free key
    let key = [0x10u8, 0x20, 0x30, 0x40];
    let masked = [b'a' ^ 0x10, b'b' ^ 0x20];
    let frame = [0x81u8, 0x80 | 2, key[0], key[1], key[2], key[3], masked[0], masked[1]];
    assert_eq!(decode_payload(&frame), Ok(b"ab".to_vec()));
}

#[test]
fn opcode_parsing() {
    assert_eq!(get_opcode(0x81), Some(OPCODES::TEXT));
    assert_eq!(get_opcode(0x82), Some(OPCODES::BINARY));
    assert_eq!(get_opcode(0x80), Some(OPCODES::CONTINUE));
    assert_eq!(get_opcode(0x83), None);
    assert_eq!(get_opcode(0x88), None);
}

#[test]
fn fin_and_mask_bits() {
    assert_eq!(get_fin_bit(0x81), FIN_BITS);
    assert_eq!(get_fin_bit(0x01), 0);
    assert_eq!(get_mask_bit(0xfe), FIN_BITS);
    assert_eq!(get_mask_bit(0x7e), 0);
}

#[test]
fn invalid_opcode_closes_with_protocol_error() {
    // opcode 0x3 is not understood: protocol-error close
    let frame = [0x83u8, 0x80 | 1, 1, 2, 3, 4, 0x55];
    assert!(matches!(
        handle_frame(&frame),
        FrameOutcome::Close(CloseReason::ProtocolError)
    ));
}

#[test]
fn unmasked_frame_closes_with_protocol_error() {
    // mask bit clear: a server must reject the frame
    let frame = [0x81u8, 0x01, b'x'];
    assert!(matches!(
        handle_frame(&frame),
        FrameOutcome::Close(CloseReason::ProtocolError)
    ));
}

#[test]
fn truncated_frame_closes_with_server_down() {
    let frame = [0x81u8, 0x80 | 9, 1, 2, 3, 4, b'x'];
    assert!(matches!(
        handle_frame(&frame),
        FrameOutcome::Close(CloseReason::ServerDown)
    ));
}

#[test]
fn bad_length_field_closes_with_protocol_error() {
    let frame = [0x81u8, 0x80 | 127, 0x80, 0, 0, 0, 0, 0, 0, 1, 1, 2, 3, 4];
    assert!(matches!(
        handle_frame(&frame),
        FrameOutcome::Close(CloseReason::ProtocolError)
    ));
}

#[test]
fn good_frame_dispatches_payload() {
    let key = [9u8, 8, 7, 6];
    let frame = encode(OPCODE_TEXT, true, &key, b"hello");
    match handle_frame(&frame) {
        FrameOutcome::Message(m) => assert_eq!(m, b"hello".to_vec()),
        FrameOutcome::Close(_) => panic!("a well-formed frame must dispatch"),
    }
}

#[test]
fn close_frame_carries_reason_code() {
    // 1002 = 0x03ea, 1001 = 0x03e9
    assert_eq!(
        build_close_frame(CloseReason::ProtocolError),
        vec![0x88u8, 2, 0x03, 0xea]
    );
    assert_eq!(
        build_close_frame(CloseReason::ServerDown),
        vec![0x88u8, 2, 0x03, 0xe9]
    );
}

#[test]
fn server_frame_layout() {
    let frame = build_frame(OPCODE_TEXT, b"hi");
    assert_eq!(frame, vec![0x81u8, 2, b'h', b'i']);
}

#[test]
fn client_frame_layout() {
    let key = [1u8, 2, 3, 4];
    let frame = encode(OPCODE_TEXT, true, &key, b"hi");
    assert_eq!(
        frame,
        vec![0x81u8, 0x80 | 2, 1, 2, 3, 4, b'h' ^ 1, b'i' ^ 2]
    );
}
