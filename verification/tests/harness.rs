use destiny::harness::{
    decode_greeting, parse_mode, session_label, strip_prefixes, Connection, HandshakeError,
    HandshakeMode, HandshakeResponder, HandshakeState, Mode, Outcome, ReadEvent,
};
use destiny::text::ascii_dump;

#[test]
fn modes_and_greetings() {
    assert_eq!(parse_mode("capture"), Ok(HandshakeMode::Capture));
    assert_eq!(parse_mode("server-first"), Ok(HandshakeMode::ServerFirst));
    assert_eq!(parse_mode("server_first"), Ok(HandshakeMode::ServerFirst));
    assert_eq!(parse_mode("Capture"), Err(HandshakeError::UnsupportedMode("Capture".into())));
    assert_eq!(decode_greeting("0x0aFF"), Ok(vec![0x0a, 0xff]));
    assert_eq!(decode_greeting("0x0x01"), Ok(vec![1]));
    assert_eq!(decode_greeting(""), Ok(vec![]));
    assert_eq!(decode_greeting("abc"), Err(HandshakeError::InvalidGreeting));
    assert_eq!(decode_greeting("zz"), Err(HandshakeError::InvalidGreeting));
    assert_eq!(decode_greeting("é1"), Err(HandshakeError::InvalidGreeting));
    assert_eq!(strip_prefixes("0x0x0"), "0");
}

#[test]
fn responder_settings_and_start() {
    let r = HandshakeResponder::from_settings("capture", "").unwrap();
    assert_eq!(r.begin().unwrap(), (None, HandshakeState::WaitingServerGreeting));
    let r = HandshakeResponder::from_settings("server-first", "0x0102").unwrap();
    assert_eq!(r.greeting, vec![1, 2]);
    assert_eq!(r.begin().unwrap(), (Some(vec![1, 2]), HandshakeState::WaitingClientResponse));
    let r = HandshakeResponder::from_settings("server-first", "").unwrap();
    assert_eq!(r.begin(), Err(HandshakeError::MissingGreeting));
    assert!(matches!(HandshakeResponder::from_settings("other", ""), Err(HandshakeError::UnsupportedMode(_))));
    assert!(matches!(HandshakeResponder::from_settings("capture", "0x1"), Err(HandshakeError::InvalidGreeting)));
}

#[test]
fn bytes_are_stored_and_replayed() {
    let mut c = Connection::new("127.0.0.1:5".into(), Mode::Replay);
    let r = c.on_read(ReadEvent::Bytes(vec![0, 1, 2]), 10);
    let s = r.store.unwrap();
    assert_eq!(s.payload, vec![0, 1, 2]);
    assert_eq!(s.session_id, "127.0.0.1:5");
    assert_eq!(s.direction, "client_to_server");
    assert_eq!(s.timestamp_ms, 10);
    assert_eq!(s.opcode, None);
    assert_eq!(s.confidence, "unknown");
    assert_eq!(s.notes, "raw harness observation; opcode unmapped");
    assert!(r.replay);
    assert_eq!(r.outcome, Outcome::Continue);
    let r = c.on_read(ReadEvent::Bytes(vec![3]), 11);
    assert_eq!(r.store.unwrap().payload, vec![3]);
    assert_eq!(c.received, vec![0, 1, 2, 3]);
    let r = c.on_read(ReadEvent::Bytes(vec![]), 12);
    assert!(r.store.is_none());
    assert_eq!(r.outcome, Outcome::Stop(HandshakeState::Closed));
}

#[test]
fn close_without_bytes_stores_one_empty_capture() {
    let mut c = Connection::new("p".into(), Mode::Capture);
    let r = c.on_read(ReadEvent::Bytes(vec![]), 3);
    let s = r.store.unwrap();
    assert_eq!(s.payload.len(), 0);
    assert_eq!(s.notes, "empty capture; client closed before sending bytes");
    assert!(!r.replay);
    assert_eq!(r.outcome, Outcome::Stop(HandshakeState::Closed));
}

#[test]
fn resets_errors_and_timeouts_end_serving() {
    let mut c = Connection::new("p".into(), Mode::Capture);
    let r = c.on_read(ReadEvent::Bytes(vec![1]), 1);
    assert!(!r.replay);
    let r = c.on_read(ReadEvent::Reset, 2);
    assert!(r.store.is_none());
    assert_eq!(r.outcome, Outcome::Stop(HandshakeState::Closed));
    assert_eq!(c.on_read(ReadEvent::Failed, 3).outcome, Outcome::Error);
    assert_eq!(c.on_read(ReadEvent::TimedOut, 4).outcome, Outcome::Stop(HandshakeState::Failed));
    assert_eq!(c.received, vec![1]);
}

#[test]
fn session_labels_and_ascii() {
    assert_eq!(session_label(1700, "127.0.0.1:39000"), "tcp-1700-127.0.0.1_39000");
    assert_eq!(session_label(0, "[::1]:5"), "tcp-0-[__1]_5");
    assert_eq!(ascii_dump(b"A\0 ~\x7f"), "A. ~.");
}
