//! Runtime telemetry and the dispatch decision for incoming packets.
use vstd::prelude::*;
use crate::network::{decoded, MemoryPacketLog, Packet};
use crate::adapter::opaque_packet;
use crate::text::lit;

verus! {

#[derive(Default, Debug, Clone)]
pub struct Telemetry {
    pub request_log: Vec<String>,
    pub service_timing_ms: Vec<(String, u128)>,
    pub packet_traces: Vec<String>,
    pub session_history: Vec<String>,
}

/// The outcome of dispatching a packet.
#[derive(Debug, Clone, Copy, PartialEq, Eq, Structural)]
pub enum DispatchResult {
    UnknownOpcode,
    Accepted,
}

/// A packet without an opcode cannot be routed.
pub open spec fn dispatch_result(p: Packet) -> DispatchResult {
    if p.opcode is None {
        DispatchResult::UnknownOpcode
    } else {
        DispatchResult::Accepted
    }
}

/// The trace line recorded for a dispatch outcome.
pub open spec fn trace_line(r: DispatchResult) -> Seq<char> {
    match r {
        DispatchResult::UnknownOpcode => "packet result: UnknownOpcode"@,
        DispatchResult::Accepted => "packet result: Accepted"@,
    }
}

impl Telemetry {
    /// Decides the outcome for `packet` and records it: a trace line and
    /// the dispatch timing `elapsed_ms`. The other logs are unchanged.
    pub fn record_dispatch(&mut self, packet: &Packet, elapsed_ms: u128) -> (r: DispatchResult)
        ensures
            r == dispatch_result(*packet),
            final(self).packet_traces@.len() == old(self).packet_traces@.len() + 1,
            forall|i: int| 0 <= i < old(self).packet_traces@.len()
                ==> #[trigger] final(self).packet_traces@[i] == old(self).packet_traces@[i],
            final(self).packet_traces@.last()@ == trace_line(r),
            final(self).service_timing_ms@.len() == old(self).service_timing_ms@.len() + 1,
            forall|i: int| 0 <= i < old(self).service_timing_ms@.len()
                ==> #[trigger] final(self).service_timing_ms@[i] == old(self).service_timing_ms@[i],
            final(self).service_timing_ms@.last().0@ == "dispatch"@,
            final(self).service_timing_ms@.last().1 == elapsed_ms,
            final(self).request_log == old(self).request_log,
            final(self).session_history == old(self).session_history,
    {
        let r = if packet.opcode.is_none() {
            DispatchResult::UnknownOpcode
        } else {
            DispatchResult::Accepted
        };
        let line = match r {
            DispatchResult::UnknownOpcode => lit("packet result: UnknownOpcode"),
            DispatchResult::Accepted => lit("packet result: Accepted"),
        };
        self.packet_traces.push(line);
        self.service_timing_ms.push((lit("dispatch"), elapsed_ms));
        r
    }
}

/// The packet logging layer of the server.
pub struct NetworkLayer {
    pub log: MemoryPacketLog,
}

impl Default for NetworkLayer {
    fn default() -> (n: NetworkLayer)
        ensures
            n.log.values@.len() == 0,
    {
        NetworkLayer { log: MemoryPacketLog { values: Vec::new() } }
    }
}

/// No opcode is assigned on the way in, so nothing is routed on a guess: a
/// packet decoded from raw bytes (`decode`) or made of client bytes by the
/// opaque translator (`OpaqueTranslator::inbound`) dispatches as an unknown
/// opcode and is traced as such; only a packet with an opcode is accepted.
pub proof fn law_unmapped_packets_dispatch_unknown(p: Packet, payload: Seq<u8>, t: u128, session_id: Seq<char>)
    ensures
        decoded(p, payload, t) ==> dispatch_result(p) == DispatchResult::UnknownOpcode,
        opaque_packet(p, payload, session_id) ==> dispatch_result(p) == DispatchResult::UnknownOpcode,
        p.opcode is None ==> trace_line(dispatch_result(p)) == "packet result: UnknownOpcode"@,
        p.opcode is Some ==> dispatch_result(p) == DispatchResult::Accepted,
{
}

} // verus!
