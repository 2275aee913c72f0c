//! The Minecraft handshake prefix of an inbound connection, read before the
//! connection is forwarded. Server-list requests are answered from the
//! object's metadata so that a ping never starts a server; login connections
//! are forwarded with the consumed bytes replayed.
//!
//! The socket, its deadline and the server-list lookup are driven from outside
//! the library: `Packets` decides what the bytes read so far hold, and
//! `AcceptState::step` decides what the exchange does next.

use vstd::prelude::*;
use crate::varint::{decode_varint, decode_varint_at, lemma_decode_fits, lemma_varint_roundtrip, read_varint, varint, varint_bytes};

verus! {

/// The largest handshake or status packet, and the longest server address,
/// that a connection may send.
pub const MAX_PACKET: usize = 1024;

/// How a connection's handshake ended.
pub enum Handshake {
    /// A server-list exchange was answered; the connection is done.
    Status,
    /// A login handshake; `consumed` holds the bytes read so far.
    Login { consumed: Vec<u8> },
}

/// A VarInt that must be complete: its value and length, or the message of
/// the error.
pub open spec fn required_outcome(bytes: Seq<u8>) -> Result<(nat, nat), Seq<char>> {
    match decode_varint(bytes) {
        Ok(Some(read)) => Ok(read),
        Ok(None) => Err("Truncated handshake"@),
        Err(()) => Err("Invalid VarInt"@),
    }
}

/// Reads a VarInt that must be complete.
pub fn required_varint(bytes: &[u8]) -> (read: Result<(u32, usize), String>)
    ensures
        match required_outcome(bytes@) {
            Ok((v, n)) => read matches Ok((rv, rn)) && rv == v && rn == n,
            Err(m) => read matches Err(e) && e@ == m,
        },
{
    match read_varint(bytes) {
        Ok(Some(read)) => Ok(read),
        Ok(None) => Err(String::from_str("Truncated handshake")),
        Err(e) => Err(e),
    }
}

/// A packet: the length of its content as a VarInt, then the content, which
/// is the packet id as a VarInt followed by the body. A length that does not
/// fit 32 bits is cut to its low 32 bits.
pub open spec fn frame_bytes(id: nat, body: Seq<u8>) -> Seq<u8> {
    let content = varint_bytes(id) + body;
    varint_bytes((content.len() as u32) as nat) + content
}

/// Appends `bytes` to `out`.
fn push_all(out: &mut Vec<u8>, bytes: &[u8])
    ensures
        final(out)@ == old(out)@ + bytes@,
{
    let mut i: usize = 0;
    while i < bytes.len()
        invariant
            i <= bytes@.len(),
            out@ == old(out)@ + bytes@.take(i as int),
        decreases bytes@.len() - i,
    {
        out.push(bytes[i]);
        i = i + 1;
        assert(out@ =~= old(out)@ + bytes@.take(i as int));
    }
    assert(bytes@.take(i as int) =~= bytes@);
}

/// Frames a packet with id `id` and body `body`.
pub fn frame(id: u32, body: &[u8]) -> (packet: Vec<u8>)
    ensures
        packet@ == frame_bytes(id as nat, body@),
{
    let mut content = varint(id);
    push_all(&mut content, body);
    let mut out = varint(content.len() as u32);
    push_all(&mut out, content.as_slice());
    out
}

/// The outcome of reading a handshake packet's body: `(protocol, next
/// state)`, or the message of the error.
pub open spec fn handshake_outcome(packet: Seq<u8>) -> Result<(u32, u32), Seq<char>> {
    match required_outcome(packet) {
        Err(m) => Err(m),
        Ok((id, a)) => match required_outcome(packet.skip(a as int)) {
            Err(m) => Err(m),
            Ok((protocol, b)) => match required_outcome(packet.skip((a + b) as int)) {
                Err(m) => Err(m),
                Ok((host_length, c)) => {
                    let host_end = a + b + c + host_length;
                    if id != 0 || host_length > MAX_PACKET || host_end + 2 >= packet.len() {
                        Err("Invalid handshake"@)
                    } else {
                        match required_outcome(packet.skip((host_end + 2) as int)) {
                            Err(m) => Err(m),
                            Ok((state, end)) => if host_end + 2 + end != packet.len() {
                                Err("Invalid handshake length"@)
                            } else if !(1 <= state <= 3) {
                                Err("Invalid handshake state"@)
                            } else {
                                Ok((protocol as u32, state as u32))
                            },
                        }
                    }
                },
            },
        },
    }
}

proof fn lemma_required_fits(bytes: Seq<u8>)
    ensures
        required_outcome(bytes) matches Ok((v, n)) ==> v <= u32::MAX && 1 <= n <= 5 && n
            <= bytes.len(),
{
    lemma_decode_fits(bytes);
}

/// `(protocol, next state)` from a handshake packet body.
pub fn handshake_state(packet: &[u8]) -> (result: Result<(u32, u32), String>)
    ensures
        match handshake_outcome(packet@) {
            Ok(v) => result == Ok::<(u32, u32), String>(v),
            Err(m) => result matches Err(e) && e@ == m,
        },
{
    let len = packet.len();
    proof {
        lemma_required_fits(packet@);
    }
    let (id, a) = match required_varint(packet) {
        Ok(r) => r,
        Err(e) => return Err(e),
    };
    let second = &packet[a..len];
    assert(second@ =~= packet@.skip(a as int));
    proof {
        lemma_required_fits(second@);
    }
    let (protocol, b) = match required_varint(second) {
        Ok(r) => r,
        Err(e) => return Err(e),
    };
    let third = &packet[a + b..len];
    assert(third@ =~= packet@.skip((a + b) as int));
    proof {
        lemma_required_fits(third@);
    }
    let (host_length, c) = match required_varint(third) {
        Ok(r) => r,
        Err(e) => return Err(e),
    };
    if id != 0 || host_length as usize > MAX_PACKET {
        return Err(String::from_str("Invalid handshake"));
    }
    let host_end = a + b + c + host_length as usize;
    if host_end + 2 >= len {
        return Err(String::from_str("Invalid handshake"));
    }
    let last = &packet[host_end + 2..len];
    assert(last@ =~= packet@.skip((host_end + 2) as int));
    proof {
        lemma_required_fits(last@);
    }
    let (state, end) = match required_varint(last) {
        Ok(r) => r,
        Err(e) => return Err(e),
    };
    if host_end + 2 + end != len {
        return Err(String::from_str("Invalid handshake length"));
    }
    if !(1 <= state && state <= 3) {
        return Err(String::from_str("Invalid handshake state"));
    }
    Ok((protocol, state))
}

/// A handshake packet's body: packet id 0, the protocol version, the server
/// address, a two-byte port and the next state.
pub open spec fn handshake_body(protocol: u32, host: Seq<u8>, port: Seq<u8>, state: u32) -> Seq<
    u8,
> {
    varint_bytes(0) + varint_bytes(protocol as nat) + varint_bytes(host.len()) + host + port
        + varint_bytes(state as nat)
}

/// A well-formed handshake, with an address of at most `MAX_PACKET` bytes and
/// a next state of 1 (status), 2 (login) or 3 (transfer), is read back as its
/// protocol and next state.
pub proof fn lemma_handshake_accepted(protocol: u32, host: Seq<u8>, port: Seq<u8>, state: u32)
    requires
        host.len() <= MAX_PACKET,
        port.len() == 2,
        1 <= state <= 3,
    ensures
        handshake_outcome(handshake_body(protocol, host, port, state)) == Ok::<
            (u32, u32),
            Seq<char>,
        >((protocol, state)),
{
    let v0 = varint_bytes(0);
    let vp = varint_bytes(protocol as nat);
    let vh = varint_bytes(host.len());
    let vs = varint_bytes(state as nat);
    let p = handshake_body(protocol, host, port, state);
    lemma_varint_roundtrip(0, vp + vh + host + port + vs);
    assert(p =~= v0 + (vp + vh + host + port + vs));
    let a = v0.len();
    lemma_varint_roundtrip(protocol as nat, vh + host + port + vs);
    assert(p.skip(a as int) =~= vp + (vh + host + port + vs));
    let b = vp.len();
    lemma_varint_roundtrip(host.len(), host + port + vs);
    assert(p.skip((a + b) as int) =~= vh + (host + port + vs));
    let c = vh.len();
    let host_end = a + b + c + host.len();
    lemma_varint_roundtrip(state as nat, Seq::empty());
    assert(p.skip((host_end + 2) as int) =~= vs + Seq::empty());
    assert(p.len() == host_end + 2 + vs.len());
}

/// The outcome of looking for a whole packet at the start of `buffer`:
/// nothing yet, its body and the length of the whole packet, or the message
/// of the error.
pub open spec fn packet_outcome(buffer: Seq<u8>) -> Result<Option<(Seq<u8>, nat)>, Seq<char>> {
    match decode_varint(buffer) {
        Err(()) => Err("Invalid VarInt"@),
        Ok(None) => Ok(None),
        Ok(Some((size, start))) => if size < 1 || size > MAX_PACKET {
            Err("Invalid handshake/status packet size"@)
        } else if buffer.len() >= start + size {
            Ok(Some((buffer.subrange(start as int, (start + size) as int), start + size)))
        } else {
            Ok(None)
        },
    }
}

/// The bytes of a connection read so far, parted into the whole packets
/// taken from them and the rest.
pub struct Packets {
    buffer: Vec<u8>,
    consumed: Vec<u8>,
    received: Ghost<Seq<u8>>,
}

impl Packets {
    /// What was taken and what is buffered are, in order, every byte fed.
    #[verifier::type_invariant]
    spec fn keeps_every_byte(self) -> bool {
        self.consumed@ + self.buffer@ == self.received@
    }

    /// The bytes read and not yet taken as a packet.
    pub closed spec fn buffered(&self) -> Seq<u8> {
        self.buffer@
    }

    /// The packets taken so far, as they were read.
    pub closed spec fn taken(&self) -> Seq<u8> {
        self.consumed@
    }

    /// Every byte fed so far, in order.
    pub closed spec fn received(&self) -> Seq<u8> {
        self.received@
    }

    /// Nothing read yet.
    pub fn new() -> (packets: Packets)
        ensures
            packets.buffered() == Seq::<u8>::empty(),
            packets.taken() == Seq::<u8>::empty(),
            packets.received() == Seq::<u8>::empty(),
    {
        let packets = Packets { buffer: Vec::new(), consumed: Vec::new(), received: Ghost(Seq::empty()) };
        assert(packets.consumed@ + packets.buffer@ =~= Seq::<u8>::empty());
        packets
    }

    /// Adds bytes read from the stream.
    pub fn feed(&mut self, chunk: &[u8])
        ensures
            final(self).buffered() == old(self).buffered() + chunk@,
            final(self).taken() == old(self).taken(),
            final(self).received() == old(self).received() + chunk@,
    {
        let mut current = Packets::new();
        std::mem::swap(self, &mut current);
        proof {
            use_type_invariant(&current);
        }
        let Packets { mut buffer, consumed, received } = current;
        push_all(&mut buffer, chunk);
        assert(consumed@ + buffer@ =~= received@ + chunk@);
        *self = Packets { buffer, consumed, received: Ghost(received@ + chunk@) };
    }

    /// The next packet body, if the bytes read so far hold a whole packet.
    /// A taken packet moves, length prefix and all, from the buffer to the
    /// bytes taken, so what was read is kept in order.
    pub fn next_packet(&mut self) -> (packet: Result<Option<Vec<u8>>, String>)
        ensures
            final(self).received() == old(self).received(),
            match packet_outcome(old(self).buffered()) {
                Err(m) => packet matches Err(e) && e@ == m && *final(self) == *old(self),
                Ok(None) => packet matches Ok(None) && *final(self) == *old(self),
                Ok(Some((body, n))) => {
                    &&& packet matches Ok(Some(b)) && b@ == body
                    &&& final(self).buffered() == old(self).buffered().skip(n as int)
                    &&& final(self).taken() == old(self).taken() + old(self).buffered().take(
                        n as int,
                    )
                },
            },
    {
        proof {
            lemma_decode_fits(self.buffer@);
        }
        let read = match read_varint(self.buffer.as_slice()) {
            Ok(read) => read,
            Err(e) => return Err(e),
        };
        if let Some((size, start)) = read {
            let size = size as usize;
            if size < 1 || size > MAX_PACKET {
                return Err(String::from_str("Invalid handshake/status packet size"));
            }
            if self.buffer.len() >= start + size {
                let end = start + size;
                let mut current = Packets::new();
                std::mem::swap(self, &mut current);
                proof {
                    use_type_invariant(&current);
                }
                let Packets { mut buffer, mut consumed, received } = current;
                let ghost before = buffer@;
                let mut whole = buffer.split_off(end);
                std::mem::swap(&mut whole, &mut buffer);
                push_all(&mut consumed, whole.as_slice());
                let body = vstd::slice::slice_to_vec(&whole.as_slice()[start..end]);
                proof {
                    assert(body@ =~= before.subrange(start as int, end as int));
                    assert(whole@ =~= before.take(end as int));
                    assert(before.take(end as int) + before.skip(end as int) =~= before);
                    assert(consumed@ + buffer@ =~= received@);
                }
                *self = Packets { buffer, consumed, received };
                return Ok(Some(body));
            }
        }
        Ok(None)
    }

    /// At a clean end of the stream nothing may be left unread.
    pub fn finish(&self) -> (result: Result<(), String>)
        ensures
            self.buffered().len() == 0 ==> result is Ok,
            self.buffered().len() != 0 ==> (result matches Err(e) && e@
                == "Truncated handshake/status packet"@),
    {
        if self.buffer.len() != 0 {
            return Err(String::from_str("Truncated handshake/status packet"));
        }
        Ok(())
    }

    /// Everything read from the stream so far, in order: the packets taken
    /// followed by the bytes not yet parsed. This is every byte fed.
    pub fn into_consumed(self) -> (bytes: Vec<u8>)
        ensures
            bytes@ == self.taken() + self.buffered(),
            bytes@ == self.received(),
    {
        proof {
            use_type_invariant(&self);
        }
        let Packets { mut consumed, buffer, received } = self;
        push_all(&mut consumed, buffer.as_slice());
        consumed
    }
}

/// A packet that holds one whole packet of content length 1 to `MAX_PACKET`,
/// whatever follows it, is taken whole with its body.
pub proof fn lemma_frame_taken(id: u32, body: Seq<u8>, rest: Seq<u8>)
    requires
        1 <= (varint_bytes(id as nat) + body).len() <= MAX_PACKET,
    ensures
        packet_outcome(frame_bytes(id as nat, body) + rest) == Ok::<
            Option<(Seq<u8>, nat)>,
            Seq<char>,
        >(Some((varint_bytes(id as nat) + body, frame_bytes(id as nat, body).len()))),
{
    let content = varint_bytes(id as nat) + body;
    let len = content.len();
    assert((len as u32) as nat == len);
    lemma_varint_roundtrip(len, content + rest);
    let prefix = varint_bytes(len);
    let s = frame_bytes(id as nat, body) + rest;
    assert(s =~= prefix + (content + rest));
    assert(s.subrange(prefix.len() as int, (prefix.len() + len) as int) =~= content);
}

/// Where the server-list exchange of a connection stands.
#[derive(Clone, Copy, PartialEq, Eq, Debug, Structural)]
pub enum AcceptState {
    /// Waiting for the handshake packet.
    AwaitHandshake,
    /// A status handshake for `protocol` was read; waiting for the request.
    AwaitRequest { protocol: u32 },
    /// Waiting for the server-list JSON.
    AwaitServerList,
    /// The response was sent; waiting for the ping or the end of the stream.
    AwaitPing,
    /// The exchange is over.
    Done,
}

/// What happened since the last step.
pub enum AcceptEvent {
    /// The next packet body, or `None` at a clean end of the stream.
    Packet(Option<Vec<u8>>),
    /// The server-list JSON for the requested protocol.
    ServerList(String),
}

/// What the connection does next.
pub enum AcceptAction {
    /// Read the next packet.
    Read,
    /// Look up the server-list JSON for this protocol.
    FetchServerList(u32),
    /// Write and flush these bytes, then read the next packet.
    Respond(Vec<u8>),
    /// Write and flush these bytes; the exchange was a status exchange.
    Pong(Vec<u8>),
    /// The exchange was a status exchange.
    Status,
    /// The connection is a login: forward it with every byte read replayed.
    Login,
    /// The exchange failed with this message.
    Fail(String),
}

/// The response to a status request: packet 0 holding the JSON text as a
/// string, that is its UTF-8 length as a VarInt followed by its bytes.
pub open spec fn status_response(json: Seq<char>) -> Seq<u8> {
    let text = vstd::utf8::encode_utf8(json);
    frame_bytes(0, varint_bytes((text.len() as u32) as nat) + text)
}

/// `response` is one whole packet, its length prefix giving exactly the
/// rest, with packet id 0 and a body that is `json` as a protocol string: the
/// VarInt of its UTF-8 length followed by exactly its UTF-8 bytes.
pub open spec fn carries_json(response: Seq<u8>, json: Seq<char>) -> bool {
    let text = vstd::utf8::encode_utf8(json);
    match decode_varint(response) {
        Ok(Some((len, k))) => {
            &&& k + len == response.len()
            &&& decode_varint(response.skip(k as int)) == Ok::<Option<(nat, nat)>, ()>(
                Some((0nat, 1nat)),
            )
            &&& match decode_varint(response.skip((k + 1) as int)) {
                Ok(Some((n, m))) => n == text.len() && response.skip((k + 1 + m) as int) == text,
                _ => false,
            }
        },
        _ => false,
    }
}

/// A client reads the status response back as the JSON it carries, whatever
/// the JSON's length, up to the 32-bit lengths that the protocol allows.
pub proof fn lemma_status_response_carries_json(json: Seq<char>)
    requires
        vstd::utf8::encode_utf8(json).len() + 10 <= u32::MAX,
    ensures
        carries_json(status_response(json), json),
{
    let text = vstd::utf8::encode_utf8(json);
    let n = text.len();
    assert((n as u32) as nat == n);
    let vn = varint_bytes(n);
    lemma_varint_roundtrip(n, text);
    let v0 = varint_bytes(0);
    assert(v0 == seq![0u8]);
    let content = v0 + (vn + text);
    assert(content =~= varint_bytes(0) + (vn + text));
    let len = content.len();
    assert((len as u32) as nat == len);
    let r = status_response(json);
    assert(r =~= varint_bytes(len) + content);
    lemma_varint_roundtrip(len, content);
    let k = varint_bytes(len).len();
    assert(r.skip(k as int) =~= content);
    lemma_varint_roundtrip(0, vn + text);
    let m = vn.len();
    assert(r.skip((k + 1) as int) =~= vn + text);
    assert(r.skip((k + 1 + m) as int) =~= text);
}

/// A prefix of a VarInt's encoding is read as incomplete, never as an error.
proof fn lemma_varint_prefix_incomplete(value: nat, k: nat, depth: nat)
    requires
        depth <= 4,
        value < 16 * crate::varint::pow128((4 - depth) as nat),
        k < varint_bytes(value).len(),
    ensures
        decode_varint_at(varint_bytes(value).take(k as int), depth) == Ok::<
            Option<(nat, nat)>,
            (),
        >(None),
    decreases k,
{
    crate::varint::lemma_pow128_bounds();
    let s = varint_bytes(value).take(k as int);
    if k > 0 {
        assert(value >= 128);
        assert(depth < 4) by {
            if depth >= 4 {
                assert(value < 16);
            }
        }
        assert(crate::varint::pow128((4 - depth) as nat) == 128 * crate::varint::pow128(
            (4 - (depth + 1)) as nat,
        ));
        assert(value / 128 < 16 * crate::varint::pow128((4 - (depth + 1)) as nat))
            by (nonlinear_arith)
            requires
                value < 16 * crate::varint::pow128((4 - depth) as nat),
                crate::varint::pow128((4 - depth) as nat) == 128 * crate::varint::pow128(
                    (4 - (depth + 1)) as nat,
                ),
        ;
        lemma_varint_prefix_incomplete(value / 128, (k - 1) as nat, depth + 1);
        assert(s[0] == (value % 128 + 128) as u8);
        assert(s.drop_first() =~= varint_bytes(value / 128).take(k - 1));
    }
}

/// While a whole packet has not yet arrived, the bytes that have are never
/// an error: every strict prefix of a packet of content length 1 to
/// `MAX_PACKET` is read as incomplete, so that more bytes are waited for.
pub proof fn lemma_partial_packet_waits(id: u32, body: Seq<u8>, k: nat)
    requires
        1 <= (varint_bytes(id as nat) + body).len() <= MAX_PACKET,
        k < frame_bytes(id as nat, body).len(),
    ensures
        packet_outcome(frame_bytes(id as nat, body).take(k as int)) == Ok::<
            Option<(Seq<u8>, nat)>,
            Seq<char>,
        >(None),
{
    crate::varint::lemma_pow128_bounds();
    let content = varint_bytes(id as nat) + body;
    let len = content.len();
    assert((len as u32) as nat == len);
    let prefix = varint_bytes(len);
    let f = frame_bytes(id as nat, body);
    assert(f =~= prefix + content);
    let t = f.take(k as int);
    lemma_varint_roundtrip(len, content);
    if k < prefix.len() {
        assert(t =~= prefix.take(k as int));
        lemma_varint_prefix_incomplete(len, k, 0);
    } else {
        lemma_varint_roundtrip(len, t.skip(prefix.len() as int));
        assert(t =~= prefix + t.skip(prefix.len() as int));
    }
}

impl AcceptState {
    /// Whether `event` is one that the exchange waits for in this state.
    pub open spec fn expects(self, event: AcceptEvent) -> bool {
        match self {
            AcceptState::AwaitServerList => event is ServerList,
            AcceptState::Done => false,
            _ => event is Packet,
        }
    }

    /// The next state and action after `event`.
    pub fn step(self, event: AcceptEvent) -> (next: (AcceptState, AcceptAction))
        requires
            self.expects(event),
        ensures
            match (self, event) {
                (AcceptState::AwaitHandshake, AcceptEvent::Packet(None)) => next.0
                    == AcceptState::Done && next.1 is Status,
                (AcceptState::AwaitHandshake, AcceptEvent::Packet(Some(h))) => match handshake_outcome(h@) {
                    Err(m) => next.0 == AcceptState::Done && (next.1 matches AcceptAction::Fail(e)
                        && e@ == m),
                    Ok((protocol, state)) => if state != 1 {
                        next.0 == AcceptState::Done && next.1 is Login
                    } else {
                        next.0 == (AcceptState::AwaitRequest { protocol }) && next.1 is Read
                    },
                },
                (AcceptState::AwaitRequest { protocol }, AcceptEvent::Packet(request)) => if request matches Some(r) && r@ == seq![0u8] {
                    next.0 == AcceptState::AwaitServerList && next.1 == AcceptAction::FetchServerList(protocol)
                } else {
                    next.0 == AcceptState::Done && (next.1 matches AcceptAction::Fail(e) && e@ == "Invalid status request"@)
                },
                (AcceptState::AwaitServerList, AcceptEvent::ServerList(json)) => next.0
                    == AcceptState::AwaitPing && (next.1 matches AcceptAction::Respond(b) && b@
                    == status_response(json@) && (vstd::utf8::encode_utf8(json@).len() + 10
                    <= u32::MAX ==> carries_json(b@, json@))),
                (AcceptState::AwaitPing, AcceptEvent::Packet(None)) => next.0 == AcceptState::Done
                    && next.1 is Status,
                (AcceptState::AwaitPing, AcceptEvent::Packet(Some(p))) => if p@.len() == 9 && p@[0] == 1 {
                    next.0 == AcceptState::Done && (next.1 matches AcceptAction::Pong(b) && b@ == frame_bytes(1, p@.skip(1)))
                } else {
                    next.0 == AcceptState::Done && (next.1 matches AcceptAction::Fail(e) && e@ == "Invalid status ping"@)
                },
                _ => false,
            },
    {
        match (self, event) {
            (AcceptState::AwaitHandshake, AcceptEvent::Packet(None)) => (
                AcceptState::Done,
                AcceptAction::Status,
            ),
            (AcceptState::AwaitHandshake, AcceptEvent::Packet(Some(handshake))) => {
                match handshake_state(handshake.as_slice()) {
                    Err(e) => (AcceptState::Done, AcceptAction::Fail(e)),
                    Ok((protocol, state)) => {
                        if state != 1 {
                            (AcceptState::Done, AcceptAction::Login)
                        } else {
                            (AcceptState::AwaitRequest { protocol }, AcceptAction::Read)
                        }
                    },
                }
            },
            (AcceptState::AwaitRequest { protocol }, AcceptEvent::Packet(request)) => {
                let is_request = match &request {
                    Some(r) => r.len() == 1 && r[0] == 0,
                    None => false,
                };
                proof {
                    if let Some(r) = request {
                        if r@.len() == 1 && r@[0] == 0 {
                            assert(r@ =~= seq![0u8]);
                        }
                    }
                }
                if is_request {
                    (AcceptState::AwaitServerList, AcceptAction::FetchServerList(protocol))
                } else {
                    (AcceptState::Done, AcceptAction::Fail(String::from_str("Invalid status request")))
                }
            },
            (AcceptState::AwaitServerList, AcceptEvent::ServerList(json)) => {
                let text = json.as_str().as_bytes();
                let mut body = varint(text.len() as u32);
                push_all(&mut body, text);
                proof {
                    if vstd::utf8::encode_utf8(json@).len() + 10 <= u32::MAX {
                        lemma_status_response_carries_json(json@);
                    }
                }
                (AcceptState::AwaitPing, AcceptAction::Respond(frame(0, body.as_slice())))
            },
            (AcceptState::AwaitPing, AcceptEvent::Packet(None)) => (
                AcceptState::Done,
                AcceptAction::Status,
            ),
            (AcceptState::AwaitPing, AcceptEvent::Packet(Some(ping))) => {
                if ping.len() == 9 && ping[0] == 1 {
                    let payload = &ping.as_slice()[1..9];
                    assert(payload@ =~= ping@.skip(1));
                    (AcceptState::Done, AcceptAction::Pong(frame(1, payload)))
                } else {
                    (AcceptState::Done, AcceptAction::Fail(String::from_str("Invalid status ping")))
                }
            },
            _ => {
                assert(false);
                (AcceptState::Done, AcceptAction::Status)
            },
        }
    }
}

} // verus!
