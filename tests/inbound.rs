use actix_ws::{Connection, Frame, Message, MessageStream, OpCode, ProtocolError};

fn frame(opcode: OpCode, fin: bool, payload: &[u8]) -> Frame {
    Frame { opcode, fin, payload: payload.to_vec() }
}

#[test]
fn fragments_join_into_one_text() {
    let mut c = Connection::new(4);
    let mut s = MessageStream::new();
    assert_eq!(s.feed(frame(OpCode::Text, false, b"Hel"), &mut c), Ok(None));
    assert_eq!(s.feed(frame(OpCode::Continue, false, b"lo "), &mut c), Ok(None));
    assert_eq!(s.feed(frame(OpCode::Continue, false, b"wor"), &mut c), Ok(None));
    assert_eq!(
        s.feed(frame(OpCode::Continue, true, b"ld"), &mut c),
        Ok(Some(Message::Text("Hello world".to_string())))
    );
    assert!(!s.is_done());
}

#[test]
fn multibyte_character_split_across_fragments() {
    let mut c = Connection::new(4);
    let mut s = MessageStream::new();
    let bytes = "é".as_bytes();
    assert_eq!(s.feed(frame(OpCode::Text, false, &bytes[..1]), &mut c), Ok(None));
    assert_eq!(
        s.feed(frame(OpCode::Continue, true, &bytes[1..]), &mut c),
        Ok(Some(Message::Text("é".to_string())))
    );
}

#[test]
fn ping_between_fragments_is_delivered() {
    let mut c = Connection::new(4);
    let mut s = MessageStream::new();
    assert_eq!(s.feed(frame(OpCode::Binary, false, &[1]), &mut c), Ok(None));
    assert_eq!(s.feed(frame(OpCode::Ping, true, &[7]), &mut c), Ok(Some(Message::Ping(vec![7]))));
    assert_eq!(
        s.feed(frame(OpCode::Continue, true, &[2]), &mut c),
        Ok(Some(Message::Binary(vec![1, 2])))
    );
}

#[test]
fn continuation_without_open_message_ends_stream() {
    let mut c = Connection::new(4);
    let mut s = MessageStream::new();
    assert_eq!(
        s.feed(frame(OpCode::Continue, true, b"x"), &mut c),
        Err(ProtocolError::UnexpectedContinuation)
    );
    assert!(s.is_done());
}

#[test]
fn new_message_while_one_is_open() {
    let mut c = Connection::new(4);
    let mut s = MessageStream::new();
    assert_eq!(s.feed(frame(OpCode::Text, false, b"a"), &mut c), Ok(None));
    assert_eq!(s.feed(frame(OpCode::Text, true, b"b"), &mut c), Err(ProtocolError::InterleavedMessage));
    assert!(s.is_done());
}

#[test]
fn invalid_text_is_found_when_complete() {
    let mut c = Connection::new(4);
    let mut s = MessageStream::new();
    assert_eq!(s.feed(frame(OpCode::Text, false, &[0xff]), &mut c), Ok(None));
    assert_eq!(s.feed(frame(OpCode::Continue, true, b"a"), &mut c), Err(ProtocolError::InvalidText));
    assert!(s.is_done());
}

#[test]
fn fragmented_ping_is_an_error() {
    let mut c = Connection::new(4);
    let mut s = MessageStream::new();
    assert_eq!(s.feed(frame(OpCode::Ping, false, b"a"), &mut c), Err(ProtocolError::FragmentedControl));
    assert!(s.is_done());
}

#[test]
fn close_frame_is_last_and_recorded() {
    let mut c = Connection::new(4);
    let mut s = MessageStream::new();
    assert_eq!(s.feed(frame(OpCode::Close, true, &[]), &mut c), Ok(Some(Message::Close(None))));
    assert!(s.is_done());
    assert!(c.close_state().remote_close_received());
    assert!(!c.close_state().local_close_sent());
}

#[test]
fn bad_close_payload_is_an_error_and_not_recorded() {
    let mut c = Connection::new(4);
    let mut s = MessageStream::new();
    assert_eq!(s.feed(frame(OpCode::Close, true, &[1]), &mut c), Err(ProtocolError::InvalidClose));
    assert!(s.is_done());
    assert!(!c.close_state().remote_close_received());
}
