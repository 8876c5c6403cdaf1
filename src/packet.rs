use vstd::prelude::*;
use crate::ack::{ack_body, ack_fits, spec_pub_rel, PubAck, PubComp, PubRec, PubRel, PubRelView};
use crate::codec::frame_bytes;
use crate::connack::ConnAck;
use crate::connect::{spec_connect, Connect, ConnectView};
use crate::disconnect::{spec_disconnect, Auth, AuthView, Disconnect, DisconnectView};
use crate::error::{Error, ErrorView};
use crate::kinds::{PacketType, Version};
use crate::publish::{spec_publish, Publish, PublishView};
use crate::subscribe::{
    spec_subscribe, spec_unsubscribe, SubAck, Subscribe, SubscribeView, UnsubAck, Unsubscribe,
    UnsubscribeView,
};

verus! {

/// A control packet. `Unhandled` is the answer of a hook that leaves a packet
/// alone.
#[derive(Debug, Clone)]
pub enum Packet {
    Connect(Connect),
    ConnAck(ConnAck),
    Publish(Publish),
    PubAck(PubAck),
    PubRec(PubRec),
    PubRel(PubRel),
    PubComp(PubComp),
    Subscribe(Subscribe),
    SubAck(SubAck),
    Unsubscribe(Unsubscribe),
    UnsubAck(UnsubAck),
    PingReq,
    PingResp,
    Disconnect(Disconnect),
    Auth(Auth),
    Unhandled,
}

/// The mathematical value of a packet that a client sends; `Other` for the rest.
pub enum PacketView {
    Connect(ConnectView),
    Publish(PublishView),
    PubRel(PubRelView),
    Subscribe(SubscribeView),
    Unsubscribe(UnsubscribeView),
    PingReq,
    Disconnect(DisconnectView),
    Auth(AuthView),
    Other,
}

pub open spec fn packet_view(p: Packet) -> PacketView {
    match p {
        Packet::Connect(c) => PacketView::Connect(c@),
        Packet::Publish(x) => PacketView::Publish(x@),
        Packet::PubRel(x) => PacketView::PubRel(x@),
        Packet::Subscribe(x) => PacketView::Subscribe(x@),
        Packet::Unsubscribe(x) => PacketView::Unsubscribe(x@),
        Packet::PingReq => PacketView::PingReq,
        Packet::Disconnect(x) => PacketView::Disconnect(x@),
        Packet::Auth(x) => PacketView::Auth(x@),
        _ => PacketView::Other,
    }
}

pub open spec fn decoded_view(r: Result<Packet, Error>) -> Result<PacketView, ErrorView> {
    match r {
        Ok(p) => Ok(packet_view(p)),
        Err(e) => Err(e@),
    }
}

pub open spec fn wrap<T>(r: Result<T, ErrorView>, f: spec_fn(T) -> PacketView) -> Result<
    PacketView,
    ErrorView,
> {
    match r {
        Ok(v) => Ok(f(v)),
        Err(e) => Err(e),
    }
}

/// A packet that a client sends, from the first byte of its fixed header and its
/// body. The types a server takes are CONNECT, PUBLISH, PUBREL, SUBSCRIBE,
/// UNSUBSCRIBE, PINGREQ and DISCONNECT. Any other type nibble fails with
/// `InvalidPacket`, in every session: type 15 among them, which a server does
/// not take as input.
pub open spec fn spec_decode_packet(byte1: u8, s: Seq<u8>, version: Version) -> Result<
    PacketView,
    ErrorView,
> {
    let t = byte1 / 16;
    match PacketType::spec_from_byte(t) {
        Some(PacketType::Connect) => wrap(spec_connect(s), |v| PacketView::Connect(v)),
        Some(PacketType::Publish) => wrap(spec_publish(s, version, byte1), |v| PacketView::Publish(v)),
        Some(PacketType::PubRel) => wrap(spec_pub_rel(s, version), |v| PacketView::PubRel(v)),
        Some(PacketType::Subscribe) => wrap(spec_subscribe(s, version), |v| PacketView::Subscribe(v)),
        Some(PacketType::Unsubscribe) => wrap(
            spec_unsubscribe(s, version),
            |v| PacketView::Unsubscribe(v),
        ),
        Some(PacketType::PingReq) => Ok(PacketView::PingReq),
        Some(PacketType::Disconnect) => wrap(
            spec_disconnect(s, version),
            |v| PacketView::Disconnect(v),
        ),
        _ => Err(ErrorView::InvalidPacket(t)),
    }
}

/// Decodes a packet that a client sends, from the first byte of its fixed header
/// and its body, for a session of the given version.
pub fn decode_packet(byte1: u8, body: &[u8], version: Version) -> (r: Result<
    Packet,
    Error,
>)
    ensures
        decoded_view(r) == spec_decode_packet(byte1, body@, version),
{
    let t = byte1 / 16;
    match PacketType::from_byte(t) {
        Some(PacketType::Connect) => Ok(Packet::Connect(Connect::read(body)?)),
        Some(PacketType::Publish) => Ok(Packet::Publish(Publish::unpack(body, version, byte1)?)),
        Some(PacketType::PubRel) => Ok(Packet::PubRel(PubRel::unpack(body, version)?)),
        Some(PacketType::Subscribe) => Ok(Packet::Subscribe(Subscribe::unpack(body, version)?)),
        Some(PacketType::Unsubscribe) => Ok(
            Packet::Unsubscribe(Unsubscribe::unpack(body, version)?),
        ),
        Some(PacketType::PingReq) => Ok(Packet::PingReq),
        Some(PacketType::Disconnect) => Ok(Packet::Disconnect(Disconnect::read(body, version)?)),
        _ => Err(Error::InvalidPacket(t)),
    }
}

/// The packets that a server sends.
pub open spec fn is_outgoing(p: Packet) -> bool {
    match p {
        Packet::ConnAck(_) | Packet::PingResp | Packet::Disconnect(_) | Packet::PubAck(_)
        | Packet::PubRec(_) | Packet::PubComp(_) | Packet::SubAck(_) | Packet::UnsubAck(_)
        | Packet::Auth(_) => true,
        _ => false,
    }
}

/// The bytes of an outgoing packet, where it can be written.
pub open spec fn spec_encode_packet(p: Packet, version: Version) -> Option<Seq<u8>> {
    match p {
        Packet::ConnAck(a) => if a.fits(version) {
            Some(frame_bytes(0x20, a.body(version)))
        } else {
            None
        },
        Packet::PingResp => Some(seq![0xD0u8, 0x00u8]),
        Packet::Disconnect(d) => if d.fits() {
            Some(frame_bytes(0xE0, d.body()))
        } else {
            None
        },
        Packet::PubAck(a) => if ack_fits(a.packet_id, a.reason_code, a.prop_entries(), version, true) {
            Some(frame_bytes(0x40, ack_body(a.packet_id, a.reason_code, a.prop_entries(), version, true)))
        } else {
            None
        },
        Packet::PubRec(a) => if ack_fits(a.packet_id, a.reason_code, a.prop_entries(), version, true) {
            Some(frame_bytes(0x50, ack_body(a.packet_id, a.reason_code, a.prop_entries(), version, true)))
        } else {
            None
        },
        Packet::PubComp(a) => if ack_fits(a.packet_id, a.reason_code, a.prop_entries(), version, true) {
            Some(frame_bytes(0x70, ack_body(a.packet_id, a.reason_code, a.prop_entries(), version, true)))
        } else {
            None
        },
        Packet::SubAck(a) => if a.fits(version) {
            Some(frame_bytes(0x90, a.body(version)))
        } else {
            None
        },
        Packet::UnsubAck(a) => if a.fits(version) {
            Some(frame_bytes(0xB0, a.body(version)))
        } else {
            None
        },
        Packet::Auth(a) => if a.fits() {
            Some(frame_bytes(0xF0, a.body()))
        } else {
            None
        },
        _ => None,
    }
}

/// Appends an outgoing packet for a session of the given version; fails with
/// `PayloadTooLong` where a field does not fit.
pub fn write_packet(out: &mut Vec<u8>, packet: Packet, version: Version) -> (r: Result<(), Error>)
    requires
        is_outgoing(packet),
    ensures
        match spec_encode_packet(packet, version) {
            Some(b) => r is Ok && final(out)@ == old(out)@ + b,
            None => r is Err && r->Err_0@ == ErrorView::PayloadTooLong,
        },
{
    match packet {
        Packet::ConnAck(a) => a.pack(out, version),
        Packet::PingResp => {
            crate::pingresp::pack(out);
            Ok(())
        },
        Packet::Disconnect(d) => d.write(out),
        Packet::PubAck(a) => a.write(out, version),
        Packet::PubRec(a) => a.pack(out, version),
        Packet::PubComp(a) => a.pack(out, version),
        Packet::SubAck(a) => a.pack(out, version),
        Packet::UnsubAck(a) => a.pack(out, version),
        Packet::Auth(a) => a.pack(out),
        _ => Err(Error::InvalidPacket(0)),
    }
}

/// The empty body after the PINGREQ header byte that `pingreq::pack` writes
/// decodes as a PINGREQ, for any version.
pub proof fn lemma_pingreq_round_trip(version: Version)
    ensures
        spec_decode_packet(0xC0, seq![], version) == Ok::<PacketView, ErrorView>(
            PacketView::PingReq,
        ),
{
}

} // verus!
