use destiny::adapter::{OpaqueTranslator, PacketTranslator, ResponsePipeline};
use destiny::network::{
    decode, decode_at, encode, unknown_message, unknown_message_at, Direction, MemoryPacketLog,
    OpcodeEntry, OpcodeRegistry, PacketLogger, ReplaySource,
};

#[test]
fn unknown_packet_is_fully_described() {
    let m = unknown_message("s", "tcp", b"A\0");
    assert_eq!(m.hex, "4100");
    assert_eq!(m.ascii, "A.");
    assert_eq!(m.handler, "unmapped-placeholder");
}

#[test]
fn unknown_message_fields() {
    let m = unknown_message_at(42, "sess", "udp", b" ~\x7f\xff");
    assert_eq!(m.timestamp_ms, 42);
    assert_eq!(m.session_id, "sess");
    assert_eq!(m.transport, "udp");
    assert_eq!(m.payload_length, 4);
    assert_eq!(m.hex, "207e7fff");
    assert_eq!(m.ascii, " ~..");
}

#[test]
fn decode_then_encode_keeps_bytes() {
    let p = decode_at(vec![9, 8, 7], 11);
    assert_eq!(p.opcode, None);
    assert_eq!(p.direction, Direction::Unknown);
    assert_eq!(p.timestamp_ms, 11);
    assert_eq!(p.session_id, "");
    assert!(p.unknown_fields.is_empty());
    assert_eq!(encode(&p), vec![9, 8, 7]);
    assert_eq!(encode(&decode(vec![])), Vec::<u8>::new());
}

#[test]
fn opcode_registry_keeps_order() {
    let mut r = OpcodeRegistry::new();
    r.register(OpcodeEntry { name: "a".into(), value: None, status: "unknown".into(), notes: "".into() });
    r.register(OpcodeEntry { name: "b".into(), value: Some(3), status: "observed".into(), notes: "n".into() });
    let e = r.entries();
    assert_eq!(e.len(), 2);
    assert_eq!(e[0].name, "a");
    assert_eq!(e[1].value, Some(3));
}

#[test]
fn memory_log_and_replay() {
    let mut log = MemoryPacketLog::default();
    log.record(decode_at(vec![1], 1));
    log.record(decode_at(vec![2], 2));
    assert_eq!(log.packets().len(), 2);
    assert_eq!(log.packets()[1].payload, vec![2]);
    let mut source = log.values.clone().into_iter();
    assert_eq!(ReplaySource::next(&mut source).unwrap().timestamp_ms, 1);
    assert_eq!(ReplaySource::next(&mut source).unwrap().timestamp_ms, 2);
    assert!(ReplaySource::next(&mut source).is_none());
}

#[test]
fn opaque_translation_is_lossless() {
    let t = OpaqueTranslator;
    let p = t.inbound(vec![5, 6], "s".into());
    assert_eq!(p.direction, Direction::ClientToServer);
    assert_eq!(p.opcode, None);
    assert_eq!(p.session_id, "s");
    assert_eq!(ResponsePipeline::encode(&t, &p), vec![5, 6]);
}
