//! Protocol research types. No opcode or wire value is asserted: packets keep
//! their raw payload, and unknown messages are described byte for byte.
use vstd::prelude::*;
use crate::clock::now_ms;
use crate::text::{ascii_dump, ascii_dump_chars, hex_encode, hex_lower, lit};

verus! {

#[derive(Debug, Clone, Copy, PartialEq, Eq, Structural)]
pub enum Direction {
    ClientToServer,
    ServerToClient,
    Unknown,
}

#[derive(Debug, Clone, PartialEq)]
pub struct Packet {
    pub opcode: Option<u16>,
    pub direction: Direction,
    pub timestamp_ms: u128,
    pub session_id: String,
    pub payload: Vec<u8>,
    pub unknown_fields: Vec<UnknownField>,
}

#[derive(Debug, Clone, PartialEq)]
pub struct UnknownField {
    pub offset: usize,
    pub bytes: Vec<u8>,
    pub reason: String,
}

#[derive(Debug, Clone)]
pub struct OpcodeEntry {
    pub name: String,
    pub value: Option<u16>,
    pub status: String,
    pub notes: String,
}

/// Opcode observations, in the order they were registered.
#[derive(Debug, Default)]
pub struct OpcodeRegistry {
    entries: Vec<OpcodeEntry>,
}

impl View for OpcodeRegistry {
    type V = Seq<OpcodeEntry>;

    closed spec fn view(&self) -> Seq<OpcodeEntry> {
        self.entries@
    }
}

impl OpcodeRegistry {
    pub fn new() -> (r: OpcodeRegistry)
        ensures
            r@ == Seq::<OpcodeEntry>::empty(),
    {
        OpcodeRegistry { entries: Vec::new() }
    }

    /// Appends an observation.
    pub fn register(&mut self, e: OpcodeEntry)
        ensures
            final(self)@ == old(self)@.push(e),
    {
        self.entries.push(e)
    }

    /// All observations, in registration order.
    pub fn entries(&self) -> (r: &[OpcodeEntry])
        ensures
            r@ == self@,
    {
        self.entries.as_slice()
    }
}

/// The bytes a packet is sent as: its payload.
pub open spec fn encoded(p: Packet) -> Seq<u8> {
    p.payload@
}

/// The bytes sent for a packet: its payload.
pub fn encode(p: &Packet) -> (r: Vec<u8>)
    ensures
        r@ == encoded(*p),
{
    p.payload.clone()
}

/// A packet received at `timestamp_ms` carrying `payload`: no opcode is
/// assigned, the direction is unknown, the session is empty and no field is
/// identified.
pub open spec fn decoded(p: Packet, payload: Seq<u8>, timestamp_ms: u128) -> bool {
    &&& p.opcode is None
    &&& p.direction == Direction::Unknown
    &&& p.timestamp_ms == timestamp_ms
    &&& p.session_id@ == Seq::<char>::empty()
    &&& p.payload@ == payload
    &&& p.unknown_fields@.len() == 0
}

/// Wraps `payload` in a packet stamped `timestamp_ms`.
pub fn decode_at(payload: Vec<u8>, timestamp_ms: u128) -> (p: Packet)
    ensures
        decoded(p, payload@, timestamp_ms),
{
    Packet {
        opcode: None,
        direction: Direction::Unknown,
        timestamp_ms,
        session_id: String::new(),
        payload,
        unknown_fields: Vec::new(),
    }
}

/// Wraps `payload` in a packet stamped with the current time.
pub fn decode(payload: Vec<u8>) -> (p: Packet)
    ensures
        exists|t: u128| decoded(p, payload@, t),
{
    decode_at(payload, now_ms())
}

/// Keeps the packets it is given.
pub trait PacketLogger {
    /// The packets recorded so far, in order.
    spec fn logged(&self) -> Seq<Packet>;

    fn record(&mut self, packet: Packet)
        ensures
            final(self).logged() == old(self).logged().push(packet),
    ;

    fn packets(&self) -> (r: &[Packet])
        ensures
            r@ == self.logged(),
    ;
}

/// A packet log held in memory.
#[derive(Default)]
pub struct MemoryPacketLog {
    pub values: Vec<Packet>,
}

impl PacketLogger for MemoryPacketLog {
    open spec fn logged(&self) -> Seq<Packet> {
        self.values@
    }

    fn record(&mut self, p: Packet) {
        self.values.push(p)
    }

    fn packets(&self) -> (r: &[Packet]) {
        self.values.as_slice()
    }
}

/// A source of recorded packets to replay.
pub trait ReplaySource {
    /// The packets still to be replayed, in order.
    spec fn pending(&self) -> Seq<Packet>;

    /// Hands out the next pending packet, or `None` when none is left.
    fn next(&mut self) -> (r: Option<Packet>)
        ensures
            old(self).pending().len() > 0 ==> {
                &&& r == Some(old(self).pending()[0])
                &&& final(self).pending() == old(self).pending().drop_first()
            },
            old(self).pending().len() == 0 ==> r is None && final(self).pending() == old(self).pending(),
    ;
}

/// The packets a consumed vector has not handed out yet, in order.
pub uninterp spec fn remaining_packets(it: std::vec::IntoIter<Packet>) -> Seq<Packet>;

/// The next packet of a consumed vector.
///
/// Trusted: `<std::vec::IntoIter<Packet> as Iterator>::next`. The iterator
/// holds the vector's elements not yet handed out (named
/// `remaining_packets`); `next` moves the first of them out and returns it,
/// and returns `None`, leaving the iterator as it is, once none is left.
#[verifier::external_body]
fn next_of(it: &mut std::vec::IntoIter<Packet>) -> (r: Option<Packet>)
    ensures
        remaining_packets(*old(it)).len() > 0 ==> {
            &&& r == Some(remaining_packets(*old(it))[0])
            &&& remaining_packets(*final(it)) == remaining_packets(*old(it)).drop_first()
        },
        remaining_packets(*old(it)).len() == 0 ==> r is None && remaining_packets(*final(it)) == remaining_packets(*old(it)),
{
    Iterator::next(it)
}

/// Replays the packets of a consumed vector, in order, then `None`.
impl ReplaySource for std::vec::IntoIter<Packet> {
    open spec fn pending(&self) -> Seq<Packet> {
        remaining_packets(*self)
    }

    fn next(&mut self) -> (r: Option<Packet>) {
        next_of(self)
    }
}

#[derive(Debug, Clone, PartialEq)]
pub struct UnknownMessage {
    pub timestamp_ms: u128,
    pub session_id: String,
    pub transport: String,
    pub payload_length: usize,
    pub hex: String,
    pub ascii: String,
    pub handler: String,
}

/// The description of an unmapped message.
pub open spec fn describes(
    m: UnknownMessage,
    timestamp_ms: u128,
    session_id: Seq<char>,
    transport: Seq<char>,
    payload: Seq<u8>,
) -> bool {
    &&& m.timestamp_ms == timestamp_ms
    &&& m.session_id@ == session_id
    &&& m.transport@ == transport
    &&& m.payload_length == payload.len()
    &&& m.hex@ == hex_lower(payload)
    &&& m.ascii@ == ascii_dump_chars(payload)
    &&& m.handler@ == "unmapped-placeholder"@
}

/// Describes an unmapped message seen at `timestamp_ms`: its length, its
/// bytes in hexadecimal and in ASCII, and the placeholder handler.
pub fn unknown_message_at(timestamp_ms: u128, session_id: &str, transport: &str, payload: &[u8]) -> (m: UnknownMessage)
    ensures
        describes(m, timestamp_ms, session_id@, transport@, payload@),
{
    UnknownMessage {
        timestamp_ms,
        session_id: lit(session_id),
        transport: lit(transport),
        payload_length: payload.len(),
        hex: hex_encode(payload),
        ascii: ascii_dump(payload),
        handler: lit("unmapped-placeholder"),
    }
}

/// Describes an unmapped message seen now.
pub fn unknown_message(session_id: &str, transport: &str, payload: &[u8]) -> (m: UnknownMessage)
    ensures
        exists|t: u128| describes(m, t, session_id@, transport@, payload@),
{
    unknown_message_at(now_ms(), session_id, transport, payload)
}


/// Decoding and encoding are lossless: what `encode` sends for a packet
/// that `decode` (or `decode_at`) built from some bytes is those bytes,
/// whatever the time stamp.
pub proof fn law_decode_encode_round_trip(p: Packet, payload: Seq<u8>, t: u128)
    requires
        decoded(p, payload, t),
    ensures
        encoded(p) == payload,
{
}

} // verus!
