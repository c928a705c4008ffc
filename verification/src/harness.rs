//! Decisions of the capture harness that accepts emulator connections: how
//! the handshake starts, and what is stored, replayed and ended as bytes
//! arrive. The socket, the clock and the capture database stay with the
//! caller, which performs what these functions decide.
use vstd::prelude::*;
use crate::text::{
    append_str, chars_of, has_hex_prefix, is_hex_digit_char, lit, push_char, string_from_chars,
    u128_decimal, decimal,
};

verus! {

#[verifier::external_type_specification]
#[verifier::external_body]
pub struct ExFromHexError(hex::FromHexError);

/// Decodes pairs of hexadecimal digits.
///
/// Trusted: `hex::decode` on the text's bytes. For text made only of an even
/// number of ASCII hexadecimal digits it returns the byte of each pair (high
/// digit first, either case); for any other text it returns an error: an
/// odd byte length, or a byte outside `0-9a-fA-F` (every byte of a non-ASCII
/// character is one), is refused by its `FromHex for Vec<u8>`.
#[verifier::external_body]
fn hex_decode(s: &str) -> (r: Result<Vec<u8>, hex::FromHexError>)
    ensures
        r is Ok <==> is_hex_text(s@),
        r is Ok ==> r.unwrap()@ == hex_pairs(s@),
{
    hex::decode(s)
}

/// Text made of an even number of hexadecimal digits.
pub open spec fn is_hex_text(s: Seq<char>) -> bool {
    s.len() % 2 == 0 && forall|i: int| 0 <= i < s.len() ==> #[trigger] is_hex_digit_char(s[i])
}

/// The value of a hexadecimal digit.
pub open spec fn hex_value(c: char) -> int {
    if '0' <= c && c <= '9' {
        c as int - 48
    } else if 'a' <= c && c <= 'f' {
        c as int - 87
    } else {
        c as int - 55
    }
}

/// The bytes written by pairs of hexadecimal digits.
pub open spec fn hex_pairs(s: Seq<char>) -> Seq<u8> {
    Seq::new(s.len() / 2, |i: int| (hex_value(s[2 * i]) * 16 + hex_value(s[2 * i + 1])) as u8)
}

/// How a connection is served.
#[derive(Clone, Copy, Debug, PartialEq, Eq, Structural)]
pub enum Mode {
    Capture,
    Replay,
}

/// Who speaks first in the handshake.
#[derive(Clone, Copy, Debug, PartialEq, Eq, Structural)]
pub enum HandshakeMode {
    Capture,
    ServerFirst,
}

#[derive(Clone, Copy, Debug, PartialEq, Eq, Structural)]
pub enum HandshakeState {
    Connected,
    WaitingServerGreeting,
    WaitingClientResponse,
    HandshakeComplete,
    Failed,
    Closed,
}

/// Why the handshake settings or start were refused.
#[derive(Debug, Clone, PartialEq, Eq)]
pub enum HandshakeError {
    /// The handshake mode is neither `capture` nor `server-first`.
    UnsupportedMode(String),
    /// The greeting is not hexadecimal.
    InvalidGreeting,
    /// Server-first mode has no greeting to send.
    MissingGreeting,
}

pub struct HandshakeResponder {
    pub mode: HandshakeMode,
    pub greeting: Vec<u8>,
}

/// The handshake mode a setting names.
pub open spec fn spec_parse_mode(s: Seq<char>) -> Option<HandshakeMode> {
    if s == "capture"@ {
        Some(HandshakeMode::Capture)
    } else if s == "server-first"@ || s == "server_first"@ {
        Some(HandshakeMode::ServerFirst)
    } else {
        None
    }
}

/// The text without every leading `0x`.
pub open spec fn strip_hex_prefixes(s: Seq<char>) -> Seq<char>
    decreases s.len(),
{
    if has_hex_prefix(s) {
        strip_hex_prefixes(s.subrange(2, s.len() as int))
    } else {
        s
    }
}

/// The greeting a setting gives: the bytes written in hexadecimal after
/// any leading `0x`, or nothing when the text is not hexadecimal.
pub open spec fn spec_greeting(s: Seq<char>) -> Option<Seq<u8>> {
    let h = strip_hex_prefixes(s);
    if is_hex_text(h) {
        Some(hex_pairs(h))
    } else {
        None
    }
}

fn same_text(a: &Vec<char>, b: &str) -> (r: bool)
    ensures
        r == (a@ == b@),
{
    let bv = chars_of(b);
    if a.len() != bv.len() {
        return false;
    }
    let n = a.len();
    for i in 0..n
        invariant
            n == a@.len(),
            n == bv@.len(),
            bv@ == b@,
            forall|j: int| 0 <= j < i ==> a@[j] == bv@[j],
    {
        if a[i] != bv[i] {
            assert(a@[i as int] != b@[i as int]);
            return false;
        }
    }
    assert(a@ =~= bv@);
    true
}

/// Reads a handshake mode: `capture`, or `server-first` (also written
/// `server_first`).
pub fn parse_mode(s: &str) -> (r: Result<HandshakeMode, HandshakeError>)
    ensures
        spec_parse_mode(s@) matches Some(m) ==> r == Ok::<HandshakeMode, HandshakeError>(m),
        spec_parse_mode(s@) is None ==> (r matches Err(HandshakeError::UnsupportedMode(t)) && t@ == s@),
{
    let v = chars_of(s);
    if same_text(&v, "capture") {
        Ok(HandshakeMode::Capture)
    } else if same_text(&v, "server-first") || same_text(&v, "server_first") {
        Ok(HandshakeMode::ServerFirst)
    } else {
        Err(HandshakeError::UnsupportedMode(lit(s)))
    }
}

/// The text without every leading `0x`, as `trim_start_matches("0x")`.
pub fn strip_prefixes(s: &str) -> (r: String)
    ensures
        r@ == strip_hex_prefixes(s@),
{
    let v = chars_of(s);
    let n = v.len();
    let mut a: usize = 0;
    assert(v@.subrange(0, n as int) == v@);
    while n >= 2 && a <= n - 2 && v[a] == '0' && v[a + 1] == 'x'
        invariant
            n == v@.len(),
            a <= n,
            strip_hex_prefixes(v@) == strip_hex_prefixes(v@.subrange(a as int, n as int)),
        decreases n - a,
    {
        assert(v@.subrange(a as int, n as int).subrange(2, n - a) == v@.subrange(a + 2, n as int));
        a = a + 2;
    }
    string_from_chars(&v, a, n)
}

/// Decodes a greeting written in hexadecimal, after any leading `0x`.
pub fn decode_greeting(s: &str) -> (r: Result<Vec<u8>, HandshakeError>)
    ensures
        spec_greeting(s@) matches Some(g) ==> (r matches Ok(v) && v@ == g),
        spec_greeting(s@) is None ==> r == Err::<Vec<u8>, HandshakeError>(HandshakeError::InvalidGreeting),
{
    let h = strip_prefixes(s);
    match hex_decode(h.as_str()) {
        Ok(v) => Ok(v),
        Err(_) => Err(HandshakeError::InvalidGreeting),
    }
}

impl HandshakeResponder {
    /// The responder configured by a mode setting and a greeting setting
    /// (an empty greeting means none).
    pub fn from_settings(mode: &str, greeting: &str) -> (r: Result<HandshakeResponder, HandshakeError>)
        ensures
            spec_parse_mode(mode@) is None ==> (r matches Err(HandshakeError::UnsupportedMode(t)) && t@ == mode@),
            spec_parse_mode(mode@) matches Some(m) ==> {
                if greeting@.len() == 0 {
                    r matches Ok(h) && h.mode == m && h.greeting@.len() == 0
                } else {
                    match spec_greeting(greeting@) {
                        Some(g) => r matches Ok(h) && h.mode == m && h.greeting@ == g,
                        None => r == Err::<HandshakeResponder, HandshakeError>(HandshakeError::InvalidGreeting),
                    }
                }
            },
    {
        let m = match parse_mode(mode) {
            Ok(m) => m,
            Err(e) => {
                return Err(e);
            },
        };
        let empty = chars_of(greeting).len() == 0;
        let g = if empty {
            Vec::new()
        } else {
            match decode_greeting(greeting) {
                Ok(g) => g,
                Err(e) => {
                    return Err(e);
                },
            }
        };
        Ok(HandshakeResponder { mode: m, greeting: g })
    }

    /// How the handshake starts: in server-first mode the greeting is sent
    /// and the client's response awaited (a missing greeting is refused);
    /// otherwise nothing is sent and the server greeting is awaited.
    pub fn begin(&self) -> (r: Result<(Option<Vec<u8>>, HandshakeState), HandshakeError>)
        ensures
            self.mode == HandshakeMode::ServerFirst && self.greeting@.len() == 0
                ==> r == Err::<(Option<Vec<u8>>, HandshakeState), HandshakeError>(HandshakeError::MissingGreeting),
            self.mode == HandshakeMode::ServerFirst && self.greeting@.len() > 0
                ==> (r matches Ok((Some(g), s)) && g@ == self.greeting@ && s == HandshakeState::WaitingClientResponse),
            self.mode == HandshakeMode::Capture
                ==> (r matches Ok((None, s)) && s == HandshakeState::WaitingServerGreeting),
    {
        match self.mode {
            HandshakeMode::ServerFirst => {
                if self.greeting.len() == 0 {
                    Err(HandshakeError::MissingGreeting)
                } else {
                    Ok((Some(self.greeting.clone()), HandshakeState::WaitingClientResponse))
                }
            },
            HandshakeMode::Capture => Ok((None, HandshakeState::WaitingServerGreeting)),
        }
    }
}

/// The session label of a connection accepted at `timestamp_ms`: `tcp-`,
/// the time, `-`, and the peer address with `:` written as `_`.
pub open spec fn spec_session_label(timestamp_ms: u128, peer: Seq<char>) -> Seq<char> {
    "tcp-"@ + decimal(timestamp_ms as nat) + "-"@ + peer.map_values(|c: char| if c == ':' { '_' } else { c })
}

pub fn session_label(timestamp_ms: u128, peer: &str) -> (r: String)
    ensures
        r@ == spec_session_label(timestamp_ms, peer@),
{
    let mut r = lit("tcp-");
    let t = u128_decimal(timestamp_ms);
    append_str(&mut r, t.as_str());
    append_str(&mut r, "-");
    let ghost head = r@;
    let v = chars_of(peer);
    let n = v.len();
    for i in 0..n
        invariant
            n == v@.len(),
            v@ == peer@,
            r@ == head + v@.subrange(0, i as int).map_values(|c: char| if c == ':' { '_' } else { c }),
    {
        let c = v[i];
        push_char(&mut r, if c == ':' { '_' } else { c });
        assert(v@.subrange(0, i + 1) == v@.subrange(0, i as int).push(c));
    }
    assert(v@.subrange(0, n as int) == v@);
    r
}


/// What one read from the client gave.
#[derive(Debug)]
pub enum ReadEvent {
    /// Bytes arrived; an empty read means the client closed the connection.
    Bytes(Vec<u8>),
    /// The connection was reset or the pipe broke.
    Reset,
    /// Any other read error.
    Failed,
    /// Nothing arrived within the handshake timeout.
    TimedOut,
}

/// A capture to store, as the protocol analyzer ingests it.
#[derive(Debug)]
pub struct CaptureRecord {
    pub session_id: String,
    pub direction: String,
    pub timestamp_ms: u128,
    pub payload: Vec<u8>,
    pub opcode: Option<u16>,
    pub confidence: String,
    pub notes: String,
}

/// Whether serving goes on after a read.
#[derive(Debug, Clone, Copy, PartialEq, Eq, Structural)]
pub enum Outcome {
    /// Wait for more bytes.
    Continue,
    /// Stop serving; the connection ended in this state.
    Stop(HandshakeState),
    /// Stop serving with a read error.
    Error,
}

/// What the caller does after a read: store a capture, look up a replay
/// response for the stored payload and send it when one is found, then go
/// on or stop.
#[derive(Debug)]
pub struct Reaction {
    pub store: Option<CaptureRecord>,
    pub replay: bool,
    pub outcome: Outcome,
}

/// A served connection: the peer, the mode and every byte received.
pub struct Connection {
    pub peer: String,
    pub mode: Mode,
    pub received: Vec<u8>,
}

pub open spec fn raw_notes() -> Seq<char> {
    "raw harness observation; opcode unmapped"@
}

pub open spec fn empty_notes() -> Seq<char> {
    "empty capture; client closed before sending bytes"@
}

/// The client-to-server capture of `payload` from `peer` at `timestamp_ms`.
pub open spec fn is_capture(c: CaptureRecord, peer: Seq<char>, timestamp_ms: u128, payload: Seq<u8>, notes: Seq<char>) -> bool {
    &&& c.session_id@ == peer
    &&& c.direction@ == "client_to_server"@
    &&& c.timestamp_ms == timestamp_ms
    &&& c.payload@ == payload
    &&& c.opcode is None
    &&& c.confidence@ == "unknown"@
    &&& c.notes@ == notes
}

/// The bytes a reaction stores.
pub open spec fn stored_bytes(r: Reaction) -> Seq<u8> {
    match r.store {
        Some(c) => c.payload@,
        None => Seq::empty(),
    }
}

fn capture(peer: &String, timestamp_ms: u128, payload: Vec<u8>, notes: &str) -> (c: CaptureRecord)
    ensures
        is_capture(c, peer@, timestamp_ms, payload@, notes@),
{
    CaptureRecord {
        session_id: peer.clone(),
        direction: lit("client_to_server"),
        timestamp_ms,
        payload,
        opcode: None,
        confidence: lit("unknown"),
        notes: lit(notes),
    }
}

impl Connection {
    /// A connection from `peer` that has received nothing yet.
    pub fn new(peer: String, mode: Mode) -> (c: Connection)
        ensures
            c.peer == peer,
            c.mode == mode,
            c.received@.len() == 0,
    {
        Connection { peer, mode, received: Vec::new() }
    }

    /// Decides what follows a read at `timestamp_ms`. Bytes are appended to
    /// what was received and stored as a raw capture, a replay response is
    /// looked up for them in replay mode, and serving goes on. An empty read
    /// ends the connection as closed, storing one empty capture when nothing
    /// was ever received. A reset ends it as closed, a timeout as failed, and
    /// any other read error ends serving with that error; none of these
    /// stores anything.
    pub fn on_read(&mut self, event: ReadEvent, timestamp_ms: u128) -> (r: Reaction)
        ensures
            final(self).peer == old(self).peer,
            final(self).mode == old(self).mode,
            final(self).received@ == old(self).received@ + stored_bytes(r),
            match event {
                ReadEvent::Bytes(b) => if b@.len() > 0 {
                    &&& r.store matches Some(c) && is_capture(c, old(self).peer@, timestamp_ms, b@, raw_notes())
                    &&& r.replay == (old(self).mode == Mode::Replay)
                    &&& r.outcome == Outcome::Continue
                } else {
                    &&& (old(self).received@.len() == 0 ==> (r.store matches Some(c)
                        && is_capture(c, old(self).peer@, timestamp_ms, Seq::empty(), empty_notes())))
                    &&& (old(self).received@.len() > 0 ==> r.store is None)
                    &&& !r.replay
                    &&& r.outcome == Outcome::Stop(HandshakeState::Closed)
                },
                ReadEvent::Reset => r.store is None && !r.replay && r.outcome == Outcome::Stop(HandshakeState::Closed),
                ReadEvent::Failed => r.store is None && !r.replay && r.outcome == Outcome::Error,
                ReadEvent::TimedOut => r.store is None && !r.replay && r.outcome == Outcome::Stop(HandshakeState::Failed),
            },
    {
        match event {
            ReadEvent::Bytes(b) => {
                if b.len() > 0 {
                    self.received.extend_from_slice(b.as_slice());
                    let replay = match self.mode {
                        Mode::Replay => true,
                        Mode::Capture => false,
                    };
                    let c = capture(&self.peer, timestamp_ms, b, "raw harness observation; opcode unmapped");
                    Reaction { store: Some(c), replay, outcome: Outcome::Continue }
                } else if self.received.len() == 0 {
                    let c = capture(&self.peer, timestamp_ms, Vec::new(), "empty capture; client closed before sending bytes");
                    assert(self.received@ == self.received@ + c.payload@);
                    Reaction { store: Some(c), replay: false, outcome: Outcome::Stop(HandshakeState::Closed) }
                } else {
                    assert(self.received@ == self.received@ + Seq::<u8>::empty());
                    Reaction { store: None, replay: false, outcome: Outcome::Stop(HandshakeState::Closed) }
                }
            },
            ReadEvent::Reset => {
                assert(self.received@ == self.received@ + Seq::<u8>::empty());
                Reaction { store: None, replay: false, outcome: Outcome::Stop(HandshakeState::Closed) }
            },
            ReadEvent::Failed => {
                assert(self.received@ == self.received@ + Seq::<u8>::empty());
                Reaction { store: None, replay: false, outcome: Outcome::Error }
            },
            ReadEvent::TimedOut => {
                assert(self.received@ == self.received@ + Seq::<u8>::empty());
                Reaction { store: None, replay: false, outcome: Outcome::Stop(HandshakeState::Failed) }
            },
        }
    }
}


/// The bytes of the parts, one after another.
pub open spec fn concat(parts: Seq<Seq<u8>>) -> Seq<u8>
    decreases parts.len(),
{
    if parts.len() == 0 {
        Seq::empty()
    } else {
        concat(parts.drop_last()) + parts.last()
    }
}

/// Served from its start, a connection has received exactly the bytes of
/// the captures it stored, in the order they were stored: `received[i]` is
/// what had been received after `i` reads, and each read appended what it
/// stored (as `Connection::on_read` ensures).
pub proof fn law_received_bytes_are_stored(received: Seq<Seq<u8>>, stored: Seq<Seq<u8>>)
    requires
        received.len() == stored.len() + 1,
        received[0].len() == 0,
        forall|i: int| 0 <= i < stored.len() ==> #[trigger] received[i + 1] == received[i] + stored[i],
    ensures
        received.last() == concat(stored),
    decreases stored.len(),
{
    if stored.len() == 0 {
        assert(received.last() =~= Seq::<u8>::empty());
    } else {
        let r2 = received.drop_last();
        let s2 = stored.drop_last();
        assert forall|i: int| 0 <= i < s2.len() implies #[trigger] r2[i + 1] == r2[i] + s2[i] by {
            assert(received[i + 1] == received[i] + stored[i]);
        }
        law_received_bytes_are_stored(r2, s2);
        assert(received[stored.len() as int] == received[stored.len() - 1] + stored[stored.len() - 1]);
    }
}

} // verus!
