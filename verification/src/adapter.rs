//! The boundary to external clients. Translation is lossless and
//! semantic-free: bytes become a packet payload and back, untouched.
use vstd::prelude::*;
use crate::network::{Direction, Packet};

verus! {

/// Turns client bytes into packets and packets back into bytes.
pub trait PacketTranslator {
    /// The bytes `outbound` produces for a packet.
    spec fn outbound_bytes(&self, packet: Packet) -> Seq<u8>;

    fn inbound(&self, bytes: Vec<u8>, session_id: String) -> Packet;

    fn outbound(&self, packet: &Packet) -> (r: Vec<u8>)
        ensures
            r@ == self.outbound_bytes(*packet),
    ;
}

/// The packet the opaque translator makes of client bytes: no opcode, sent
/// by the client, no time stamp, the session given, the bytes as payload and
/// no field identified.
pub open spec fn opaque_packet(p: Packet, bytes: Seq<u8>, session_id: Seq<char>) -> bool {
    &&& p.opcode is None
    &&& p.direction == Direction::ClientToServer
    &&& p.timestamp_ms == 0
    &&& p.session_id@ == session_id
    &&& p.payload@ == bytes
    &&& p.unknown_fields@.len() == 0
}

/// The translator that assigns no meaning: the bytes are the payload.
pub struct OpaqueTranslator;

impl PacketTranslator for OpaqueTranslator {
    open spec fn outbound_bytes(&self, packet: Packet) -> Seq<u8> {
        packet.payload@
    }

    fn inbound(&self, bytes: Vec<u8>, session_id: String) -> (p: Packet)
        ensures
            p.session_id == session_id,
            p.payload == bytes,
            opaque_packet(p, bytes@, session_id@),
    {
        Packet {
            opcode: None,
            direction: Direction::ClientToServer,
            timestamp_ms: 0,
            session_id,
            payload: bytes,
            unknown_fields: Vec::new(),
        }
    }

    fn outbound(&self, p: &Packet) -> (r: Vec<u8>) {
        p.payload.clone()
    }
}

/// Encodes responses for the client.
pub struct ResponsePipeline;

impl ResponsePipeline {
    /// The bytes the translator sends for `p`.
    pub fn encode<T: PacketTranslator>(t: &T, p: &Packet) -> (r: Vec<u8>)
        ensures
            r@ == t.outbound_bytes(*p),
    {
        t.outbound(p)
    }
}

/// Opaque translation loses nothing: the bytes `outbound` sends for the
/// packet `inbound` made of client bytes are those bytes, for every session.
pub proof fn law_opaque_translation_is_lossless(p: Packet, bytes: Seq<u8>, session_id: Seq<char>)
    requires
        opaque_packet(p, bytes, session_id),
    ensures
        OpaqueTranslator.outbound_bytes(p) == bytes,
{
}

} // verus!
