use vstd::prelude::*;
use crate::ack::{PubAck, PubComp, PubRec};
use crate::codec::{
    frame_bytes, length_at, lemma_pow128_bounds, lemma_varint_round_trip,
    lemma_varint_strict_prefix, region, spec_length, varint_bytes, MAX_REMAINING_LENGTH,
};
use crate::connack::ConnAck;
use crate::error::{Error as PacketError, ErrorView};
use crate::kinds::{QoS, ReasonCode, Version};
use crate::packet::{decode_packet, packet_view, spec_decode_packet, Packet};
use crate::subscribe::{SubAck, UnsubAck};

verus! {

/// The keepalive, in seconds, before a CONNECT has set one.
pub const BOOTSTRAP_KEEPALIVE_SECS: u64 = 5;

/// What a link can fail with.
#[derive(Debug)]
pub enum Error {
    /// A packet could not be decoded or encoded.
    Packet(PacketError),
    /// The first packet of a connection was not a CONNECT.
    NotConnectPacket,
    /// Nothing came within the keepalive.
    Timeout,
    /// The peer closed the connection.
    ConnectionReset,
}

/// The keepalive that a link grants for an advertised one: one and a half
/// times as long, rounded up to whole seconds.
pub open spec fn spec_keepalive(advertised: u16) -> u64 {
    ((3 * advertised + 1) / 2) as u64
}

/// The keepalive, in seconds, granted for an advertised one of `advertised`
/// seconds: `ceil(advertised * 1.5)`.
pub fn keepalive_secs(advertised: u16) -> (r: u64)
    ensures
        r == spec_keepalive(advertised),
        2 * r >= 3 * advertised,
        2 * r <= 3 * advertised + 1,
{
    (3 * (advertised as u64) + 1) / 2
}

/// How far the bytes at the front of a read buffer are from a whole packet.
#[derive(Debug, Clone, Copy, PartialEq, Eq, Structural)]
pub enum Frame {
    /// At least this many more bytes are needed.
    Need(usize),
    /// A whole packet of `total` bytes stands at the front, its body starting
    /// at `header`.
    Ready { header: usize, total: usize },
}

/// Where the buffer stands: fewer than two bytes need the rest of two; a
/// remaining length that is not finished needs one more byte; a packet longer
/// than the buffer needs the difference.
pub open spec fn spec_frame(buf: Seq<u8>) -> Frame {
    if buf.len() < 2 {
        Frame::Need((2 - buf.len()) as usize)
    } else {
        match spec_length(buf.skip(1)) {
            Err(_) => Frame::Need(1),
            Ok((v, n)) => {
                let total = 1 + n + v;
                if buf.len() < total {
                    Frame::Need((total - buf.len()) as usize)
                } else {
                    Frame::Ready { header: (1 + n) as usize, total: total as usize }
                }
            },
        }
    }
}

/// Tells whether the read buffer starts with a whole packet.
pub fn frame(buf: &[u8]) -> (r: Frame)
    ensures
        r == spec_frame(buf@),
{
    if buf.len() < 2 {
        return Frame::Need(2 - buf.len());
    }
    assert(region(buf@, 1, buf@.len() as usize) =~= buf@.skip(1));
    match length_at(buf, 1, buf.len()) {
        Err(_) => Frame::Need(1),
        Ok((v, q)) => {
            let room = buf.len() - q;
            if room < v {
                Frame::Need(v - room)
            } else {
                Frame::Ready { header: q, total: q + v }
            }
        },
    }
}

/// The outcome of looking for a packet at the front of a read buffer.
#[derive(Debug)]
pub enum ReadStep {
    /// At least this many more bytes are needed.
    Need(usize),
    /// A packet, and the number of bytes it took from the front of the buffer.
    Packet(Packet, usize),
    /// The packet at the front could not be decoded.
    Fail(PacketError),
}

/// Takes the packet at the front of `buf`, if a whole one is there, and decodes
/// it for a session of the given version.
pub fn read_packet(buf: &[u8], version: Version) -> (r: ReadStep)
    ensures
        match spec_frame(buf@) {
            Frame::Need(n) => r matches ReadStep::Need(m) && m == n,
            Frame::Ready { header, total } => {
                let d = spec_decode_packet(
                    buf@[0],
                    buf@.subrange(header as int, total as int),
                    version,
                );
                match r {
                    ReadStep::Packet(p, c) => c == total && d == Ok::<_, ErrorView>(packet_view(p)),
                    ReadStep::Fail(e) => d == Err::<crate::packet::PacketView, _>(e@),
                    ReadStep::Need(_) => false,
                }
            },
        },
{
    match frame(buf) {
        Frame::Need(n) => ReadStep::Need(n),
        Frame::Ready { header, total } => {
            proof {
                crate::codec::lemma_pow128_bounds();
            }
            match decode_packet(buf[0], &buf[header..total], version) {
                Ok(p) => ReadStep::Packet(p, total),
                Err(e) => ReadStep::Fail(e),
            }
        },
    }
}

/// What a link does after a packet has come in.
#[derive(Debug)]
pub enum Action {
    /// Write this packet back.
    Send(Packet),
    /// Write nothing and read on.
    Nothing,
    /// End the connection cleanly.
    Close,
    /// End the connection with this error.
    Fail(Error),
}

/// The default reply to a packet on an established session: PINGRESP to
/// PINGREQ; PUBACK or PUBREC with the same packet identifier to a PUBLISH of
/// QoS 1 or 2, nothing for QoS 0; PUBCOMP to PUBREL; SUBACK and UNSUBACK with one
/// `Success` per subscription or topic; the end of the connection for
/// DISCONNECT; nothing for anything else.
pub open spec fn is_reply(packet: Packet, r: Action) -> bool {
    match packet {
        Packet::PingReq => r matches Action::Send(Packet::PingResp),
        Packet::Publish(p) => if p.qos == QoS::AtMostOnce {
            r is Nothing
        } else if p.qos == QoS::AtLeastOnce {
            r matches Action::Send(Packet::PubAck(a)) && a.packet_id == p.packet_id
                && a.reason_code == ReasonCode::Success && a.properties is None
        } else {
            r matches Action::Send(Packet::PubRec(a)) && a.packet_id == p.packet_id
                && a.reason_code == ReasonCode::Success && a.properties is None
        },
        Packet::PubRel(p) => r matches Action::Send(Packet::PubComp(a)) && a.packet_id
            == p.packet_id && a.reason_code == ReasonCode::Success && a.properties is None,
        Packet::Subscribe(s) => r matches Action::Send(Packet::SubAck(a)) && a.packet_id
            == s.packet_id && a.properties is None && a.payload@ == Seq::new(
            s.payload@.len(),
            |i: int| ReasonCode::Success,
        ),
        Packet::Unsubscribe(u) => r matches Action::Send(Packet::UnsubAck(a)) && a.packet_id
            == u.packet_id && a.properties is None && a.payload@ == Seq::new(
            u.payload@.len(),
            |i: int| ReasonCode::Success,
        ),
        Packet::Disconnect(_) => r is Close,
        _ => r is Nothing,
    }
}

/// The default reply to a packet on an established session.
pub fn reply(packet: &Packet) -> (r: Action)
    ensures
        is_reply(*packet, r),
{
    match packet {
        Packet::PingReq => Action::Send(Packet::PingResp),
        Packet::Publish(p) => match p.qos {
            QoS::AtMostOnce => Action::Nothing,
            QoS::AtLeastOnce => {
                let mut a = PubAck::new();
                a.packet_id = p.packet_id;
                Action::Send(Packet::PubAck(a))
            },
            QoS::ExactlyOnce => {
                let mut a = PubRec::new();
                a.packet_id = p.packet_id;
                Action::Send(Packet::PubRec(a))
            },
        },
        Packet::PubRel(p) => {
            let mut a = PubComp::new();
            a.packet_id = p.packet_id;
            Action::Send(Packet::PubComp(a))
        },
        Packet::Subscribe(s) => {
            let mut a = SubAck::new();
            a.packet_id = s.packet_id;
            a.payload = successes(s.payload.len());
            Action::Send(Packet::SubAck(a))
        },
        Packet::Unsubscribe(u) => {
            let mut a = UnsubAck::new();
            a.packet_id = u.packet_id;
            a.payload = successes(u.payload.len());
            Action::Send(Packet::UnsubAck(a))
        },
        Packet::Disconnect(_) => Action::Close,
        _ => Action::Nothing,
    }
}

/// `n` reason codes `Success`.
fn successes(n: usize) -> (r: Vec<ReasonCode>)
    ensures
        r@ == Seq::new(n as nat, |i: int| ReasonCode::Success),
{
    let mut v: Vec<ReasonCode> = Vec::new();
    let mut i: usize = 0;
    while i < n
        invariant
            i <= n,
            v@ == Seq::new(i as nat, |j: int| ReasonCode::Success),
        decreases n - i,
    {
        v.push(ReasonCode::Success);
        i = i + 1;
        assert(v@ =~= Seq::new(i as nat, |j: int| ReasonCode::Success));
    }
    v
}

/// The protocol state of one connection.
#[derive(Debug)]
pub struct Session {
    /// The version that the client's CONNECT asked for.
    pub version: Version,
    /// The client identifier of the CONNECT.
    pub client_id: String,
    /// How long, in seconds, a read may wait for the next byte.
    pub keepalive: u64,
    /// Whether the CONNECT has been taken.
    pub connected: bool,
}

impl Session {
    pub fn new() -> (r: Session)
        ensures
            r.version == Version::V5,
            r.client_id@.len() == 0,
            r.keepalive == BOOTSTRAP_KEEPALIVE_SECS,
            !r.connected,
    {
        Session {
            version: Version::V5,
            client_id: String::new(),
            keepalive: BOOTSTRAP_KEEPALIVE_SECS,
            connected: false,
        }
    }

    /// Takes a packet that came in. Before the handshake only a CONNECT is
    /// taken: it sets the version, the client identifier and the keepalive, and
    /// is answered with a successful CONNACK; anything else fails with
    /// `NotConnectPacket`. After it, the default reply is given.
    pub fn on_packet(&mut self, packet: &Packet) -> (r: Action)
        ensures
            !old(self).connected ==> match packet {
                Packet::Connect(c) => {
                    &&& final(self).connected
                    &&& final(self).version == c.protocol_version
                    &&& final(self).client_id@ == c.client_id@
                    &&& final(self).keepalive == spec_keepalive(c.keep_alive)
                    &&& r matches Action::Send(Packet::ConnAck(a)) && !a.session_present
                        && a.reason_code == ReasonCode::Success && a.properties is None
                },
                _ => r matches Action::Fail(Error::NotConnectPacket) && *final(self) == *old(
                    self,
                ),
            },
            old(self).connected ==> *final(self) == *old(self) && is_reply(*packet, r),
    {
        if !self.connected {
            match packet {
                Packet::Connect(c) => {
                    self.version = c.protocol_version;
                    self.client_id = c.client_id.clone();
                    self.keepalive = keepalive_secs(c.keep_alive);
                    self.connected = true;
                    Action::Send(Packet::ConnAck(ConnAck::new()))
                },
                _ => Action::Fail(Error::NotConnectPacket),
            }
        } else {
            reply(packet)
        }
    }
}

/// Framing does not depend on how the bytes of a packet arrive: a buffer that
/// holds only part of a packet frames no packet, and asks for at least one and at
/// most as many bytes as the packet still lacks.
pub proof fn lemma_frame_partial(first: u8, body: Seq<u8>, cut: int)
    requires
        body.len() <= MAX_REMAINING_LENGTH,
        0 <= cut < frame_bytes(first, body).len(),
    ensures
        spec_frame(frame_bytes(first, body).take(cut)) matches Frame::Need(n) && 1 <= n
            <= frame_bytes(first, body).len() - cut,
{
    let b = frame_bytes(first, body);
    let v = varint_bytes(body.len());
    let p = b.take(cut);
    lemma_pow128_bounds();
    lemma_varint_round_trip(body.len(), 4, body);
    if cut >= 2 {
        if cut - 1 < v.len() {
            assert(p.skip(1) =~= v.take(cut - 1));
            lemma_varint_strict_prefix(body.len(), cut - 1, 4);
        } else {
            assert(p.skip(1) =~= v + body.take(cut - 1 - v.len()));
            lemma_varint_round_trip(body.len(), 4, body.take(cut - 1 - v.len()));
        }
    }
}

/// A whole packet frames at its own length, whatever follows it in the buffer,
/// and its body is what stands between the header and that length.
pub proof fn lemma_frame_whole(first: u8, body: Seq<u8>, rest: Seq<u8>)
    requires
        body.len() <= MAX_REMAINING_LENGTH,
    ensures
        spec_frame(frame_bytes(first, body) + rest) == (Frame::Ready {
            header: (1 + varint_bytes(body.len()).len()) as usize,
            total: frame_bytes(first, body).len() as usize,
        }),
        (frame_bytes(first, body) + rest).subrange(
            1 + varint_bytes(body.len()).len() as int,
            frame_bytes(first, body).len() as int,
        ) == body,
        (frame_bytes(first, body) + rest)[0] == first,
{
    let b = frame_bytes(first, body) + rest;
    let v = varint_bytes(body.len());
    lemma_pow128_bounds();
    lemma_varint_round_trip(body.len(), 4, body + rest);
    assert(b.skip(1) =~= v + (body + rest));
    assert(b.subrange(1 + v.len() as int, 1 + v.len() + body.len() as int) =~= body);
}

} // verus!
