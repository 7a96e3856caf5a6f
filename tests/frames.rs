use actix_ws::{decode, encode, CloseReason, Frame, Message, OpCode, ProtocolError};

fn frame(opcode: OpCode, fin: bool, payload: &[u8]) -> Frame {
    Frame { opcode, fin, payload: payload.to_vec() }
}

fn round_trip(f: Frame) {
    let m = decode(f.clone()).expect("frame decodes");
    assert_eq!(encode(&m), f);
}

#[test]
fn encode_text_is_one_final_frame() {
    let f = encode(&Message::Text("hi".to_string()));
    assert_eq!(f, frame(OpCode::Text, true, b"hi"));
}

#[test]
fn encode_close_puts_code_big_endian_then_reason() {
    let r = CloseReason { code: 1000, description: Some("bye".to_string()) };
    let f = encode(&Message::Close(Some(r)));
    assert_eq!(f, frame(OpCode::Close, true, &[3, 232, b'b', b'y', b'e']));
}

#[test]
fn encode_close_without_reason_is_empty() {
    assert_eq!(encode(&Message::Close(None)), frame(OpCode::Close, true, &[]));
}

#[test]
fn decode_text_keeps_multibyte_characters() {
    let m = decode(frame(OpCode::Text, true, "héllo".as_bytes())).unwrap();
    assert_eq!(m, Message::Text("héllo".to_string()));
}

#[test]
fn decode_close_with_code_and_reason() {
    let m = decode(frame(OpCode::Close, true, &[3, 233, b'x'])).unwrap();
    assert_eq!(m, Message::Close(Some(CloseReason { code: 1001, description: Some("x".to_string()) })));
}

#[test]
fn decode_close_with_code_only() {
    let m = decode(frame(OpCode::Close, true, &[15, 160])).unwrap();
    assert_eq!(m, Message::Close(Some(CloseReason { code: 4000, description: None })));
}

#[test]
fn round_trip_every_kind() {
    round_trip(frame(OpCode::Text, true, b"hello"));
    round_trip(frame(OpCode::Text, true, b""));
    round_trip(frame(OpCode::Binary, true, &[0, 255, 7]));
    round_trip(frame(OpCode::Binary, true, &[]));
    round_trip(frame(OpCode::Ping, true, &[]));
    round_trip(frame(OpCode::Pong, true, &[]));
    round_trip(frame(OpCode::Ping, true, b"abc"));
    round_trip(frame(OpCode::Close, true, &[]));
    round_trip(frame(OpCode::Close, true, &[3, 232]));
    round_trip(frame(OpCode::Close, true, &[3, 232, b'o', b'k']));
}

#[test]
fn decode_invalid_utf8_text() {
    assert_eq!(decode(frame(OpCode::Text, true, &[0xff, 0xfe])), Err(ProtocolError::InvalidText));
}

#[test]
fn decode_close_of_one_byte() {
    assert_eq!(decode(frame(OpCode::Close, true, &[3])), Err(ProtocolError::InvalidClose));
}

#[test]
fn decode_close_with_reserved_code() {
    assert_eq!(decode(frame(OpCode::Close, true, &[3, 237])), Err(ProtocolError::InvalidClose));
}

#[test]
fn decode_close_with_invalid_reason() {
    assert_eq!(decode(frame(OpCode::Close, true, &[3, 232, 0xff])), Err(ProtocolError::InvalidClose));
}

#[test]
fn decode_fragmented_control() {
    assert_eq!(decode(frame(OpCode::Ping, false, b"x")), Err(ProtocolError::FragmentedControl));
}

#[test]
fn decode_first_fragment_alone() {
    assert_eq!(decode(frame(OpCode::Binary, false, b"x")), Err(ProtocolError::Incomplete));
}

#[test]
fn decode_continuation_alone() {
    assert_eq!(decode(frame(OpCode::Continue, true, b"x")), Err(ProtocolError::UnexpectedContinuation));
}
