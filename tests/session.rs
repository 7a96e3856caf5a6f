use actix_ws::{
    encode, ClosePhase, CloseReason, Connection, Frame, Message, MessageStream, OpCode, Pull,
    SendError,
};

fn text(s: &str) -> Message {
    Message::Text(s.to_string())
}

#[test]
fn sends_then_close_come_out_in_order() {
    let mut c = Connection::new(32);
    let sent = vec![text("a"), Message::Binary(vec![1, 2]), Message::Ping(vec![9]), text("b")];
    for m in &sent {
        assert_eq!(c.try_send(m), Ok(()));
    }
    assert_eq!(c.try_close(None), Ok(()));
    for m in &sent {
        assert_eq!(c.pull(), Pull::Frame(encode(m)));
    }
    assert_eq!(c.pull(), Pull::Frame(Frame { opcode: OpCode::Close, fin: true, payload: vec![] }));
    assert_eq!(c.pull(), Pull::Pending);
    assert_eq!(c.try_send(&text("late")), Err(SendError::Closed));
    assert_eq!(c.pull(), Pull::Pending);
    c.remove_sender();
    assert_eq!(c.pull(), Pull::End);
    assert_eq!(c.pull(), Pull::End);
}

#[test]
fn close_twice_queues_one_close_frame() {
    let mut c = Connection::new(32);
    let r = CloseReason { code: 1000, description: None };
    assert_eq!(c.try_close(Some(r)), Ok(()));
    assert_eq!(c.queued(), 1);
    assert_eq!(c.try_close(None), Ok(()));
    assert_eq!(c.queued(), 1);
    assert_eq!(c.pull(), Pull::Frame(Frame { opcode: OpCode::Close, fin: true, payload: vec![3, 232] }));
    assert_eq!(c.pull(), Pull::Pending);
}

#[test]
fn oversized_ping_is_refused_and_queue_unchanged() {
    let mut c = Connection::new(32);
    assert_eq!(c.try_send(&text("x")), Ok(()));
    assert_eq!(c.try_send(&Message::Ping(vec![0; 126])), Err(SendError::InvalidPayload));
    assert_eq!(c.try_send(&Message::Pong(vec![0; 126])), Err(SendError::InvalidPayload));
    assert_eq!(c.queued(), 1);
    assert_eq!(c.try_send(&Message::Ping(vec![0; 125])), Ok(()));
    assert_eq!(c.queued(), 2);
}

#[test]
fn full_queue_waits_until_one_is_pulled() {
    let mut c = Connection::new(2);
    assert_eq!(c.try_send(&text("1")), Ok(()));
    assert_eq!(c.try_send(&text("2")), Ok(()));
    assert_eq!(c.try_send(&text("3")), Err(SendError::Full));
    assert_eq!(c.queued(), 2);
    assert_eq!(c.pull(), Pull::Frame(encode(&text("1"))));
    assert_eq!(c.try_send(&text("3")), Ok(()));
    assert_eq!(c.try_send(&text("4")), Err(SendError::Full));
    assert_eq!(c.pull(), Pull::Frame(encode(&text("2"))));
    assert_eq!(c.pull(), Pull::Frame(encode(&text("3"))));
}

#[test]
fn close_waits_for_room_too() {
    let mut c = Connection::new(1);
    assert_eq!(c.try_send(&text("1")), Ok(()));
    assert_eq!(c.try_close(None), Err(SendError::Full));
    assert!(!c.close_state().local_close_sent());
    assert_eq!(c.pull(), Pull::Frame(encode(&text("1"))));
    assert_eq!(c.try_close(None), Ok(()));
    assert!(c.close_state().local_close_sent());
}

#[test]
fn peer_close_then_local_close_ends_output() {
    let mut c = Connection::new(32);
    let mut s = MessageStream::new();
    assert_eq!(c.try_send(&text("x")), Ok(()));
    let got = s.feed(Frame { opcode: OpCode::Close, fin: true, payload: vec![3, 232] }, &mut c);
    assert_eq!(got, Ok(Some(Message::Close(Some(CloseReason { code: 1000, description: None })))));
    assert!(s.is_done());
    assert!(c.close_state().remote_close_received());
    assert_eq!(c.close_state().phase(), ClosePhase::RemoteClosing);
    assert_eq!(c.try_close(None), Ok(()));
    assert!(c.close_state().local_close_sent());
    assert_eq!(c.close_state().phase(), ClosePhase::Closed);
    assert_eq!(c.close_state().reason(), Some(CloseReason { code: 1000, description: None }));
    assert_eq!(c.pull(), Pull::Frame(encode(&text("x"))));
    assert_eq!(c.pull(), Pull::Frame(Frame { opcode: OpCode::Close, fin: true, payload: vec![] }));
    assert_eq!(c.pull(), Pull::End);
    assert_eq!(c.try_send(&text("y")), Err(SendError::Closed));
}

#[test]
fn local_close_first_is_local_closing() {
    let mut c = Connection::new(4);
    assert_eq!(c.close_state().phase(), ClosePhase::Open);
    assert_eq!(c.try_close(Some(CloseReason { code: 1001, description: Some("away".to_string()) })), Ok(()));
    assert_eq!(c.close_state().phase(), ClosePhase::LocalClosing);
}

#[test]
fn sends_fail_once_consumer_is_gone() {
    let mut c = Connection::new(4);
    c.drop_consumer();
    assert_eq!(c.try_send(&text("x")), Err(SendError::Closed));
    assert_eq!(c.try_close(None), Err(SendError::Closed));
}

#[test]
fn output_ends_when_every_sender_is_gone() {
    let mut c = Connection::new(4);
    assert!(c.add_sender());
    assert_eq!(c.try_send(&text("x")), Ok(()));
    c.remove_sender();
    assert_eq!(c.pull(), Pull::Frame(encode(&text("x"))));
    assert_eq!(c.pull(), Pull::Pending);
    c.remove_sender();
    assert_eq!(c.pull(), Pull::End);
}
