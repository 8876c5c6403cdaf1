use rsmqtt::{
    frame, keepalive_secs, read_packet, write_packet, Action, Error, Frame, Packet, QoS,
    ReadStep, ReasonCode, Session, Version,
};

/// Feeds `input` to a session as a server would, and returns what it writes.
fn serve_bytes(session: &mut Session, input: &[u8]) -> (Vec<u8>, Option<Action>) {
    let mut buf: Vec<u8> = input.to_vec();
    let mut out = Vec::new();
    loop {
        match read_packet(&buf, session.version) {
            ReadStep::Need(_) => return (out, None),
            ReadStep::Fail(e) => return (out, Some(Action::Fail(Error::Packet(e)))),
            ReadStep::Packet(p, used) => {
                buf.drain(..used);
                match session.on_packet(&p) {
                    Action::Send(reply) => {
                        write_packet(&mut out, reply, session.version).unwrap();
                    }
                    Action::Nothing => {}
                    other => return (out, Some(other)),
                }
            }
        }
    }
}

const CONNECT_V5: [u8; 15] = [
    0x10, 0x0D, 0x00, 0x04, 0x4D, 0x51, 0x54, 0x54, 0x05, 0x02, 0x00, 0x3C, 0x00, 0x00, 0x00,
];
const CONNECT_V311: [u8; 14] = [
    0x10, 0x0C, 0x00, 0x04, 0x4D, 0x51, 0x54, 0x54, 0x04, 0x02, 0x00, 0x3C, 0x00, 0x00,
];

#[test]
fn connect_v5_minimal() {
    match read_packet(&CONNECT_V5, Version::V5) {
        ReadStep::Packet(Packet::Connect(c), used) => {
            assert_eq!(used, 15);
            assert_eq!(c.protocol_name, "MQTT");
            assert_eq!(c.protocol_version, Version::V5);
            assert!(c.clean_start);
            assert_eq!(c.keep_alive, 60);
            assert_eq!(c.client_id, "");
            assert!(c.properties.is_none());
        }
        other => panic!("unexpected {:?}", other),
    }
    let mut s = Session::new();
    let (out, end) = serve_bytes(&mut s, &CONNECT_V5);
    assert!(end.is_none());
    assert_eq!(out, vec![0x20, 0x03, 0x00, 0x00, 0x00]);
    assert_eq!(s.keepalive, 90);
}

#[test]
fn pingreq_after_connect() {
    let mut s = Session::new();
    serve_bytes(&mut s, &CONNECT_V5);
    let (out, end) = serve_bytes(&mut s, &[0xC0, 0x00]);
    assert!(end.is_none());
    assert_eq!(out, vec![0xD0, 0x00]);
}

#[test]
fn publish_qos1_v311() {
    let mut s = Session::new();
    let (out, _) = serve_bytes(&mut s, &CONNECT_V311);
    assert_eq!(out, vec![0x20, 0x02, 0x00, 0x00]);
    assert_eq!(s.version, Version::V311);
    let input = [0x32, 0x0A, 0x00, 0x04, 0x74, 0x65, 0x73, 0x74, 0x00, 0x07, 0x68, 0x69];
    match read_packet(&input, Version::V311) {
        ReadStep::Packet(Packet::Publish(p), _) => {
            assert_eq!(p.topic_name, "test");
            assert_eq!(p.qos, QoS::AtLeastOnce);
            assert_eq!(p.packet_id, 7);
            assert_eq!(p.payload, b"hi".to_vec());
        }
        other => panic!("unexpected {:?}", other),
    }
    let (out, _) = serve_bytes(&mut s, &input);
    assert_eq!(out, vec![0x40, 0x02, 0x00, 0x07]);
}

#[test]
fn publish_qos2_then_pubrel() {
    let mut s = Session::new();
    serve_bytes(&mut s, &CONNECT_V311);
    let publish = [0x34, 0x0A, 0x00, 0x04, 0x74, 0x65, 0x73, 0x74, 0x00, 0x09, 0x68, 0x69];
    let (out, _) = serve_bytes(&mut s, &publish);
    assert_eq!(out, vec![0x50, 0x02, 0x00, 0x09]);
    let (out, _) = serve_bytes(&mut s, &[0x62, 0x02, 0x00, 0x09]);
    assert_eq!(out, vec![0x70, 0x02, 0x00, 0x09]);
}

#[test]
fn subscribe_two_topics_v311() {
    let mut s = Session::new();
    serve_bytes(&mut s, &CONNECT_V311);
    let sub = [0x82, 0x0A, 0x00, 0x03, 0x00, 0x01, 0x61, 0x00, 0x00, 0x01, 0x62, 0x01];
    match read_packet(&sub, Version::V311) {
        ReadStep::Packet(Packet::Subscribe(p), _) => {
            assert_eq!(p.packet_id, 3);
            assert_eq!(p.payload.len(), 2);
            assert_eq!(p.payload[0].topic, "a");
            assert_eq!(p.payload[0].qos, QoS::AtMostOnce);
            assert_eq!(p.payload[1].topic, "b");
            assert_eq!(p.payload[1].qos, QoS::AtLeastOnce);
        }
        other => panic!("unexpected {:?}", other),
    }
    let mut s2 = Session::new();
    serve_bytes(&mut s2, &CONNECT_V311);
    let p = match read_packet(&sub, Version::V311) {
        ReadStep::Packet(p, _) => p,
        other => panic!("unexpected {:?}", other),
    };
    match s2.on_packet(&p) {
        Action::Send(Packet::SubAck(a)) => {
            assert_eq!(a.packet_id, 3);
            assert_eq!(a.payload, vec![ReasonCode::Success, ReasonCode::Success]);
        }
        other => panic!("unexpected {:?}", other),
    }
    let (out, _) = serve_bytes(&mut s, &sub);
    assert_eq!(out, vec![0x90, 0x04, 0x00, 0x03, 0x00, 0x00]);
}

#[test]
fn malformed_fixed_header() {
    let mut s = Session::new();
    let (out, end) = serve_bytes(&mut s, &[0xF0, 0x00]);
    assert!(out.is_empty());
    assert!(matches!(
        end,
        Some(Action::Fail(Error::Packet(rsmqtt::error::Error::InvalidPacket(15))))
    ));
}

#[test]
fn keepalive_after_connect() {
    assert_eq!(keepalive_secs(2), 3);
    let mut s = Session::new();
    assert_eq!(s.keepalive, 5);
    let connect = [
        0x10, 0x0C, 0x00, 0x04, 0x4D, 0x51, 0x54, 0x54, 0x04, 0x02, 0x00, 0x02, 0x00, 0x00,
    ];
    serve_bytes(&mut s, &connect);
    assert_eq!(s.keepalive, 3);
    let (out, end) = serve_bytes(&mut s, &[0xC0, 0x00]);
    assert_eq!(out, vec![0xD0, 0x00]);
    assert!(end.is_none());
    assert_eq!(s.keepalive, 3);
}

#[test]
fn keepalive_rounding() {
    assert_eq!(keepalive_secs(0), 0);
    assert_eq!(keepalive_secs(1), 2);
    assert_eq!(keepalive_secs(60), 90);
    assert_eq!(keepalive_secs(65535), 98303);
}

#[test]
fn first_packet_must_be_connect() {
    let mut s = Session::new();
    let (out, end) = serve_bytes(&mut s, &[0xC0, 0x00]);
    assert!(out.is_empty());
    assert!(matches!(end, Some(Action::Fail(Error::NotConnectPacket))));
    assert!(!s.connected);
}

#[test]
fn disconnect_ends_cleanly() {
    let mut s = Session::new();
    serve_bytes(&mut s, &CONNECT_V311);
    let (out, end) = serve_bytes(&mut s, &[0xE0, 0x00]);
    assert!(out.is_empty());
    assert!(matches!(end, Some(Action::Close)));
}

#[test]
fn unsubscribe_gets_one_code_per_topic() {
    let mut s = Session::new();
    serve_bytes(&mut s, &CONNECT_V5);
    // packet id 4, empty property block, topics "a" and "bc"
    let unsub = [0xA2, 0x0A, 0x00, 0x04, 0x00, 0x00, 0x01, 0x61, 0x00, 0x02, 0x62, 0x63];
    let (out, _) = serve_bytes(&mut s, &unsub);
    assert_eq!(out, vec![0xB0, 0x05, 0x00, 0x04, 0x00, 0x00, 0x00]);
}

#[test]
fn publish_qos0_gets_no_reply() {
    let mut s = Session::new();
    serve_bytes(&mut s, &CONNECT_V311);
    let publish = [0x30, 0x08, 0x00, 0x04, 0x74, 0x65, 0x73, 0x74, 0x68, 0x69];
    let (out, end) = serve_bytes(&mut s, &publish);
    assert!(out.is_empty());
    assert!(end.is_none());
}

#[test]
fn framing_over_every_split() {
    let packet = [0x32, 0x0A, 0x00, 0x04, 0x74, 0x65, 0x73, 0x74, 0x00, 0x07, 0x68, 0x69];
    for cut in 0..packet.len() {
        match frame(&packet[..cut]) {
            Frame::Need(n) => {
                assert!(n >= 1);
                assert!(n <= packet.len() - cut);
            }
            other => panic!("prefix of {} gave {:?}", cut, other),
        }
    }
    assert_eq!(frame(&packet), Frame::Ready { header: 2, total: 12 });
    let mut two = packet.to_vec();
    two.extend_from_slice(&packet);
    assert_eq!(frame(&two), Frame::Ready { header: 2, total: 12 });
}

#[test]
fn framing_inside_the_length_field() {
    // remaining length 200 takes two bytes: C8 01
    let mut packet = vec![0x30, 0xC8, 0x01, 0x00, 0x01, 0x74];
    packet.resize(203, 0x41);
    assert_eq!(frame(&packet[..1]), Frame::Need(1));
    assert_eq!(frame(&packet[..2]), Frame::Need(1));
    assert_eq!(frame(&packet[..3]), Frame::Need(200));
    assert_eq!(frame(&packet), Frame::Ready { header: 3, total: 203 });
    match read_packet(&packet, Version::V311) {
        ReadStep::Packet(Packet::Publish(p), used) => {
            assert_eq!(used, 203);
            assert_eq!(p.topic_name, "t");
            assert_eq!(p.payload.len(), 197);
        }
        other => panic!("unexpected {:?}", other),
    }
}

#[test]
fn chunked_delivery_gives_one_packet() {
    let packet = [0x32, 0x0A, 0x00, 0x04, 0x74, 0x65, 0x73, 0x74, 0x00, 0x07, 0x68, 0x69];
    let mut buf = Vec::new();
    let mut got = 0;
    for b in packet.iter() {
        buf.push(*b);
        if let ReadStep::Packet(Packet::Publish(p), used) = read_packet(&buf, Version::V311) {
            assert_eq!(p.packet_id, 7);
            buf.drain(..used);
            got += 1;
        }
    }
    assert_eq!(got, 1);
    assert!(buf.is_empty());
}

#[test]
fn type_15_after_v5_connect_closes() {
    let mut s = Session::new();
    let (out, _) = serve_bytes(&mut s, &CONNECT_V5);
    assert_eq!(out, vec![0x20, 0x03, 0x00, 0x00, 0x00]);
    let (out, end) = serve_bytes(&mut s, &[0xF0, 0x00, 0xC0, 0x00]);
    assert!(out.is_empty());
    assert!(matches!(
        end,
        Some(Action::Fail(Error::Packet(rsmqtt::error::Error::InvalidPacket(15))))
    ));
}

#[test]
fn empty_subscribe_is_refused() {
    let mut s = Session::new();
    serve_bytes(&mut s, &CONNECT_V311);
    let (out, end) = serve_bytes(&mut s, &[0x82, 0x02, 0x00, 0x03]);
    assert!(out.is_empty());
    assert!(matches!(
        end,
        Some(Action::Fail(Error::Packet(rsmqtt::error::Error::EmptyPayload)))
    ));
}
