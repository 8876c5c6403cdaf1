use rsmqtt::error::Error;
use rsmqtt::{
    decode_packet, read_length, write_length, Auth, AuthProperties, ConnAck, ConnAckProperties,
    PubComp, PubRec, PublishProperties, Subscription, ConnectProperties,
    Connect, Disconnect, DisconnectProperties, Packet, PubAck, PubAckProperties, PubRel,
    PubRelProperties, Publish, QoS, ReasonCode, RetainHandling, SubAck, Subscribe, UnsubAck,
    Unsubscribe, Version,
};

fn encode_length(n: usize) -> Vec<u8> {
    let mut out = Vec::new();
    write_length(&mut out, n).unwrap();
    out
}

#[test]
fn length_encodings() {
    assert_eq!(encode_length(0), vec![0x00]);
    assert_eq!(encode_length(127), vec![0x7F]);
    assert_eq!(encode_length(128), vec![0x80, 0x01]);
    assert_eq!(encode_length(16383), vec![0xFF, 0x7F]);
    assert_eq!(encode_length(16384), vec![0x80, 0x80, 0x01]);
    assert_eq!(encode_length(2097151), vec![0xFF, 0xFF, 0x7F]);
    assert_eq!(encode_length(2097152), vec![0x80, 0x80, 0x80, 0x01]);
    assert_eq!(encode_length(268435455), vec![0xFF, 0xFF, 0xFF, 0x7F]);
}

#[test]
fn length_round_trip() {
    for n in [0usize, 1, 127, 128, 200, 16383, 16384, 2097151, 2097152, 268435455] {
        let mut b = encode_length(n);
        let len = b.len();
        assert!((1..=4).contains(&len));
        b.push(0x55);
        assert_eq!(read_length(&b).unwrap(), (n, len));
    }
}

#[test]
fn length_too_long() {
    let mut out = vec![0x10];
    assert!(matches!(write_length(&mut out, 268435456), Err(Error::PayloadTooLong)));
    assert_eq!(out, vec![0x10]);
}

#[test]
fn length_four_continuations() {
    assert!(matches!(read_length(&[0xFF, 0xFF, 0xFF, 0xFF, 0x01]), Err(Error::InputTooShort)));
    assert!(matches!(read_length(&[0x80, 0x80]), Err(Error::InputTooShort)));
    assert!(matches!(read_length(&[]), Err(Error::InputTooShort)));
}

fn connect_body(version: u8, flags: u8, tail: &[u8]) -> Vec<u8> {
    let mut b = vec![0x00, 0x04, 0x4D, 0x51, 0x54, 0x54, version, flags, 0x00, 0x3C];
    b.extend_from_slice(tail);
    b
}

#[test]
fn connect_with_will_and_credentials() {
    // v3.1.1, username, password, will (qos 1, retain), clean start
    let body = connect_body(
        4,
        0xEE,
        &[
            0x00, 0x03, b'c', b'i', b'd', 0x00, 0x01, b't', 0x00, 0x02, b'w', b'p', 0x00, 0x01,
            b'u', 0x00, 0x02, b'p', b'w',
        ],
    );
    let c = Connect::read(&body).unwrap();
    assert_eq!(c.client_id, "cid");
    assert!(c.will_flag && c.will_retain && c.username_flag && c.password_flag);
    assert_eq!(c.will_qos, QoS::AtLeastOnce);
    assert_eq!(c.will_topic, "t");
    assert_eq!(c.will_payload, "wp");
    assert_eq!(c.username, "u");
    assert_eq!(c.password, "pw");
    assert!(c.will_properties.is_none());
}

#[test]
fn connect_v5_properties() {
    // properties: session expiry 10, receive maximum 20, user property (k, v)
    let body = connect_body(
        5,
        0x02,
        &[
            0x0F, 0x11, 0x00, 0x00, 0x00, 0x0A, 0x21, 0x00, 0x14, 0x26, 0x00, 0x01, b'k', 0x00,
            0x01, b'v', 0x00, 0x00,
        ],
    );
    let c = Connect::read(&body).unwrap();
    let p = c.properties.unwrap();
    assert_eq!(p.session_expiry_interval, Some(10));
    assert_eq!(p.receive_maximum, Some(20));
    assert_eq!(p.user_property, vec![("k".to_string(), "v".to_string())]);
    assert_eq!(p.auth_method, None);
}

#[test]
fn connect_v311_reads_no_property_block() {
    // the byte 0x00 where v5 has its property block is the client id's length here
    let body = connect_body(4, 0x02, &[0x00, 0x02, b'i', b'd']);
    let c = Connect::read(&body).unwrap();
    assert_eq!(c.client_id, "id");
    assert!(c.properties.is_none());
    let v5 = connect_body(5, 0x02, &[0x00, 0x02, b'i', b'd']);
    let c5 = Connect::read(&v5);
    assert!(matches!(c5, Err(Error::PacketTooShort)));
}

#[test]
fn connect_errors() {
    let mut bad_name = connect_body(4, 0x02, &[0x00, 0x00]);
    bad_name[2] = b'X';
    match Connect::read(&bad_name) {
        Err(Error::InvalidProtocol(n)) => assert_eq!(n, "XQTT"),
        other => panic!("unexpected {:?}", other),
    }
    let mqisdp = [
        0x00, 0x06, b'M', b'Q', b'I', b's', b'd', b'p', 0x03, 0x02, 0x00, 0x0A, 0x00, 0x00,
    ];
    assert_eq!(Connect::read(&mqisdp).unwrap().protocol_version, Version::V31);
    assert!(matches!(
        Connect::read(&connect_body(6, 0x02, &[0x00, 0x00])),
        Err(Error::InvalidProtocolVersion(6))
    ));
    assert!(matches!(
        Connect::read(&connect_body(4, 0x18, &[0x00, 0x00])),
        Err(Error::InvalidQoS(3))
    ));
    assert!(matches!(
        Connect::read(&connect_body(4, 0x02, &[0x00, 0x02, 0xFF, 0xFE])),
        Err(Error::NotUtf8)
    ));
    assert!(matches!(
        Connect::read(&connect_body(5, 0x02, &[0x02, 0x01, 0x01, 0x00, 0x00])),
        Err(Error::InvalidProperty(0x01))
    ));
    assert!(matches!(
        Connect::read(&connect_body(5, 0x02, &[0x02, 0x07, 0x01, 0x00, 0x00])),
        Err(Error::InvalidProperty(0x07))
    ));
    assert!(matches!(Connect::read(&[0x00, 0x04, b'M']), Err(Error::PacketTooShort)));
}

#[test]
fn publish_v5_properties() {
    // topic "a", qos 1, id 5, properties: topic alias 3, two subscription identifiers
    let body = [
        0x00, 0x01, b'a', 0x00, 0x05, 0x08, 0x23, 0x00, 0x03, 0x0B, 0x01, 0x0B, 0x80, 0x01,
        b'x',
    ];
    let p = Publish::unpack(&body, Version::V5, 0x3B).unwrap();
    assert!(p.dup && p.retain);
    assert_eq!(p.qos, QoS::AtLeastOnce);
    assert_eq!(p.packet_id, 5);
    let props = p.properties.unwrap();
    assert_eq!(props.topic_alias, Some(3));
    assert_eq!(props.sub_identifier, vec![1, 128]);
    assert_eq!(p.payload, vec![b'x']);
}

#[test]
fn publish_empty_payload_and_bad_qos() {
    let body = [0x00, 0x01, b'a'];
    let p = Publish::unpack(&body, Version::V311, 0x30).unwrap();
    assert!(p.payload.is_empty());
    assert!(matches!(Publish::unpack(&body, Version::V311, 0x36), Err(Error::InvalidQoS(3))));
    assert!(matches!(
        Publish::unpack(&[0x00, 0x01, b'a', 0x01], Version::V5, 0x30),
        Err(Error::PacketTooShort)
    ));
}

#[test]
fn subscribe_options() {
    // options 0x2E: retain handling 2, retain as published, no local, qos 2
    let body = [0x00, 0x01, 0x00, 0x00, 0x01, b'x', 0x2E];
    let s = Subscribe::unpack(&body, Version::V5).unwrap();
    let sub = &s.payload[0];
    assert_eq!(sub.retain_handling, RetainHandling::Never);
    assert!(sub.retain_as_published && sub.no_local);
    assert_eq!(sub.qos, QoS::ExactlyOnce);
    let bad = [0x00, 0x01, 0x00, 0x01, b'x', 0x30];
    assert!(matches!(
        Subscribe::unpack(&bad, Version::V311),
        Err(Error::InvalidRetainHandling(3))
    ));
    let bad_qos = [0x00, 0x01, 0x00, 0x01, b'x', 0x03];
    assert!(matches!(Subscribe::unpack(&bad_qos, Version::V311), Err(Error::InvalidQoS(3))));
}

#[test]
fn unsubscribe_topics() {
    let body = [0x00, 0x02, 0x00, 0x01, b'a', 0x00, 0x01, b'b'];
    let u = Unsubscribe::unpack(&body, Version::V311).unwrap();
    assert_eq!(u.packet_id, 2);
    assert_eq!(u.payload, vec!["a".to_string(), "b".to_string()]);
}

#[test]
fn pubrel_forms() {
    let short = PubRel::unpack(&[0x00, 0x09], Version::V5).unwrap();
    assert_eq!(short.packet_id, 9);
    assert_eq!(short.reason_code, ReasonCode::Success);
    let coded = PubRel::unpack(&[0x00, 0x09, 0x92], Version::V5).unwrap();
    assert_eq!(coded.reason_code, ReasonCode::PacketIDNotFound);
    assert!(matches!(
        PubRel::unpack(&[0x00, 0x09, 0x03], Version::V5),
        Err(Error::InvalidReasonCode(0x03))
    ));
    assert!(matches!(PubRel::unpack(&[0x00], Version::V5), Err(Error::PacketTooShort)));
}

#[test]
fn pubrel_round_trip() {
    let mut props = PubRelProperties::new();
    props.reason_string = Some("why".to_string());
    props.user_property.push(("a".to_string(), "b".to_string()));
    let mut p = PubRel::new();
    p.packet_id = 300;
    p.reason_code = ReasonCode::PacketIDNotFound;
    p.properties = Some(props);
    let mut out = Vec::new();
    p.pack(&mut out, Version::V5).unwrap();
    assert_eq!(out[0], 0x62);
    let back = PubRel::unpack(&out[2..], Version::V5).unwrap();
    assert_eq!(back.packet_id, 300);
    assert_eq!(back.reason_code, ReasonCode::PacketIDNotFound);
    let bp = back.properties.unwrap();
    assert_eq!(bp.reason_string, Some("why".to_string()));
    assert_eq!(bp.user_property, vec![("a".to_string(), "b".to_string())]);
}

#[test]
fn disconnect_round_trip() {
    let mut props = DisconnectProperties::new();
    props.session_expiry_interval = Some(7);
    props.server_reference = Some("s".to_string());
    let mut d = Disconnect::new();
    d.reason_code = ReasonCode::ServerShuttingDown;
    d.properties = Some(props);
    let mut out = Vec::new();
    d.write(&mut out).unwrap();
    assert_eq!(
        out,
        vec![0xE0, 0x0B, 0x8B, 0x09, 0x11, 0x00, 0x00, 0x00, 0x07, 0x1C, 0x00, 0x01, b's']
    );
    let back = Disconnect::read(&out[2..], Version::V5).unwrap();
    assert_eq!(back.reason_code, ReasonCode::ServerShuttingDown);
    let bp = back.properties.unwrap();
    assert_eq!(bp.session_expiry_interval, Some(7));
    assert_eq!(bp.server_reference, Some("s".to_string()));
    let mut v3 = Disconnect::new();
    v3.version = Version::V311;
    let mut out3 = Vec::new();
    v3.write(&mut out3).unwrap();
    assert_eq!(out3, vec![0xE0, 0x00]);
}

#[test]
fn auth_round_trip() {
    let mut props = AuthProperties::new();
    props.auth_method = Some("m".to_string());
    props.auth_data = Some(vec![1, 2]);
    let mut a = Auth::new();
    a.reason_code = ReasonCode::ContinueAuthentication;
    a.properties = Some(props);
    let mut out = Vec::new();
    a.pack(&mut out).unwrap();
    assert_eq!(out, vec![0xF0, 0x0B, 0x18, 0x09, 0x15, 0x00, 0x01, b'm', 0x16, 0x00, 0x02, 1, 2]);
    let back = Auth::unpack(&out[2..]).unwrap();
    assert_eq!(back.reason_code, ReasonCode::ContinueAuthentication);
    let bp = back.properties.unwrap();
    assert_eq!(bp.auth_method, Some("m".to_string()));
    assert_eq!(bp.auth_data, Some(vec![1, 2]));
}

#[test]
fn puback_short_and_long_forms() {
    let mut a = PubAck::new();
    a.packet_id = 7;
    let mut out = Vec::new();
    a.write(&mut out, Version::V5).unwrap();
    assert_eq!(out, vec![0x40, 0x02, 0x00, 0x07]);
    let mut b = PubAck::new();
    b.packet_id = 7;
    b.reason_code = ReasonCode::NotMatchingSubscribers;
    let mut out = Vec::new();
    b.write(&mut out, Version::V5).unwrap();
    assert_eq!(out, vec![0x40, 0x04, 0x00, 0x07, 0x10, 0x00]);
    let mut c = PubAck::new();
    c.packet_id = 7;
    let mut props = PubAckProperties::new();
    props.reason_string = Some("r".to_string());
    c.properties = Some(props);
    let mut out = Vec::new();
    c.write(&mut out, Version::V311).unwrap();
    assert_eq!(out, vec![0x40, 0x02, 0x00, 0x07]);
}

#[test]
fn connack_with_properties() {
    let mut props = ConnAckProperties::new();
    props.topic_alias_max = Some(300);
    props.user_property.push(("k".to_string(), "v".to_string()));
    props.maximum_qos = Some(1);
    let mut a = ConnAck::new();
    a.session_present = true;
    a.properties = Some(props);
    let mut out = Vec::new();
    a.pack(&mut out, Version::V5).unwrap();
    assert_eq!(
        out,
        vec![
            0x20, 0x0F, 0x01, 0x00, 0x0C, 0x22, 0x01, 0x2C, 0x24, 0x01, 0x26, 0x00, 0x01, b'k',
            0x00, 0x01, b'v'
        ]
    );
    let mut v3 = ConnAck::new();
    v3.reason_code = ReasonCode::NotAuthorized;
    let mut out = Vec::new();
    v3.pack(&mut out, Version::V311).unwrap();
    assert_eq!(out, vec![0x20, 0x02, 0x00, 0x87]);
}

#[test]
fn suback_and_unsuback_versions() {
    let mut s = SubAck::new();
    s.packet_id = 1;
    s.payload = vec![ReasonCode::GrantedQoS1, ReasonCode::UnspecifiedError];
    let mut out = Vec::new();
    s.clone().pack(&mut out, Version::V311).unwrap();
    assert_eq!(out, vec![0x90, 0x04, 0x00, 0x01, 0x01, 0x80]);
    let mut out = Vec::new();
    s.pack(&mut out, Version::V5).unwrap();
    assert_eq!(out, vec![0x90, 0x05, 0x00, 0x01, 0x00, 0x01, 0x80]);
    let mut u = UnsubAck::new();
    u.packet_id = 1;
    u.payload = vec![ReasonCode::Success];
    let mut out = Vec::new();
    u.pack(&mut out, Version::V311).unwrap();
    assert_eq!(out, vec![0xB0, 0x02, 0x00, 0x01]);
}

#[test]
fn ping_packets() {
    let mut out = Vec::new();
    rsmqtt::pingreq::pack(&mut out);
    rsmqtt::pingresp::pack(&mut out);
    assert_eq!(out, vec![0xC0, 0x00, 0xD0, 0x00]);
}

#[test]
fn string_too_long_is_refused() {
    let mut props = PubAckProperties::new();
    props.reason_string = Some("x".repeat(65536));
    let mut a = PubAck::new();
    a.properties = Some(props);
    let mut out = Vec::new();
    assert!(matches!(a.write(&mut out, Version::V5), Err(Error::PayloadTooLong)));
}

#[test]
fn decode_dispatch() {
    assert!(matches!(decode_packet(0xC0, &[], Version::V5), Ok(Packet::PingReq)));
    assert!(matches!(decode_packet(0x20, &[], Version::V5), Err(Error::InvalidPacket(2))));
    assert!(matches!(decode_packet(0x00, &[], Version::V5), Err(Error::InvalidPacket(0))));
    assert!(matches!(decode_packet(0xF0, &[], Version::V5), Err(Error::InvalidPacket(15))));
    assert!(matches!(
        decode_packet(0xF0, &[], Version::V311),
        Err(Error::InvalidPacket(15))
    ));
    assert!(matches!(
        decode_packet(0xE0, &[0x00], Version::V5),
        Ok(Packet::Disconnect(_))
    ));
}

#[test]
fn ack_decoders_take_both_forms() {
    let short = PubAck::unpack(&[0x00, 0x07], Version::V5).unwrap();
    assert_eq!(short.packet_id, 7);
    assert_eq!(short.reason_code, ReasonCode::Success);
    assert!(short.properties.is_none());
    let long = PubRec::unpack(&[0x00, 0x07, 0x10, 0x00], Version::V5).unwrap();
    assert_eq!(long.reason_code, ReasonCode::NotMatchingSubscribers);
    assert!(long.properties.is_none());
    let mut c = PubComp::new();
    c.packet_id = 12;
    c.reason_code = ReasonCode::PacketIDNotFound;
    let mut out = Vec::new();
    c.pack(&mut out, Version::V5).unwrap();
    assert_eq!(out, vec![0x70, 0x04, 0x00, 0x0C, 0x92, 0x00]);
    let back = PubComp::unpack(&out[2..], Version::V5).unwrap();
    assert_eq!(back.packet_id, 12);
    assert_eq!(back.reason_code, ReasonCode::PacketIDNotFound);
}

#[test]
fn publish_round_trip() {
    let mut props = PublishProperties::new();
    props.content_type = Some("text".to_string());
    props.sub_identifier = vec![5, 300];
    props.user_property.push(("k".to_string(), "v".to_string()));
    let mut p = Publish::new();
    p.qos = QoS::ExactlyOnce;
    p.retain = true;
    p.topic_name = "a/b".to_string();
    p.packet_id = 42;
    p.properties = Some(props);
    p.payload = vec![1, 2, 3];
    let mut out = Vec::new();
    p.clone().pack(&mut out, Version::V5).unwrap();
    assert_eq!(out[0], 0x35);
    let back = Publish::unpack(&out[2..], Version::V5, out[0]).unwrap();
    assert_eq!(back.qos, QoS::ExactlyOnce);
    assert!(back.retain && !back.dup);
    assert_eq!(back.topic_name, "a/b");
    assert_eq!(back.packet_id, 42);
    assert_eq!(back.payload, vec![1, 2, 3]);
    let bp = back.properties.unwrap();
    assert_eq!(bp.content_type, Some("text".to_string()));
    assert_eq!(bp.sub_identifier, vec![5, 300]);
    assert_eq!(bp.user_property, vec![("k".to_string(), "v".to_string())]);
    let mut q0 = Publish::new();
    q0.topic_name = "t".to_string();
    q0.payload = b"hi".to_vec();
    let mut out = Vec::new();
    q0.pack(&mut out, Version::V311).unwrap();
    assert_eq!(out, vec![0x30, 0x05, 0x00, 0x01, b't', b'h', b'i']);
}

#[test]
fn connect_pack_then_read() {
    let mut c = Connect::new();
    c.protocol_name = "MQTT".to_string();
    c.protocol_version = Version::V5;
    c.clean_start = true;
    c.keep_alive = 30;
    c.client_id = "me".to_string();
    c.username_flag = true;
    c.username = "u".to_string();
    let mut props = ConnectProperties::new();
    props.receive_maximum = Some(10);
    c.properties = Some(props);
    let mut out = Vec::new();
    c.pack(&mut out).unwrap();
    assert_eq!(out[0], 0x10);
    let back = Connect::read(&out[2..]).unwrap();
    assert_eq!(back.protocol_name, "MQTT");
    assert_eq!(back.keep_alive, 30);
    assert!(back.clean_start && back.username_flag && !back.password_flag);
    assert_eq!(back.client_id, "me");
    assert_eq!(back.username, "u");
    assert_eq!(back.properties.unwrap().receive_maximum, Some(10));
}

#[test]
fn subscribe_pack_then_unpack() {
    let mut s = Subscribe::new();
    s.packet_id = 3;
    s.payload.push(Subscription {
        topic: "a".to_string(),
        retain_handling: RetainHandling::NewSub,
        retain_as_published: false,
        no_local: true,
        qos: QoS::AtLeastOnce,
    });
    let mut out = Vec::new();
    s.pack(&mut out, Version::V311).unwrap();
    assert_eq!(out, vec![0x82, 0x06, 0x00, 0x03, 0x00, 0x01, b'a', 0x15]);
    let back = Subscribe::unpack(&out[2..], Version::V311).unwrap();
    assert_eq!(back.payload[0].retain_handling, RetainHandling::NewSub);
    assert!(back.payload[0].no_local);
    assert_eq!(back.payload[0].qos, QoS::AtLeastOnce);
    let mut u = Unsubscribe::new();
    u.packet_id = 4;
    u.payload.push("x".to_string());
    let mut out = Vec::new();
    u.pack(&mut out, Version::V5).unwrap();
    assert_eq!(out, vec![0xA2, 0x06, 0x00, 0x04, 0x00, 0x00, 0x01, b'x']);
}

#[test]
fn client_side_acks_decode() {
    let a = ConnAck::unpack(&[0x01, 0x00, 0x00], Version::V5).unwrap();
    assert!(a.session_present);
    assert_eq!(a.reason_code, ReasonCode::Success);
    assert!(a.properties.is_none());
    assert!(matches!(ConnAck::unpack(&[0x00, 0x03], Version::V311), Err(Error::InvalidReasonCode(3))));
    let s = SubAck::unpack(&[0x00, 0x03, 0x00, 0x01, 0x80], Version::V311).unwrap();
    assert_eq!(s.packet_id, 3);
    assert_eq!(s.payload, vec![ReasonCode::Success, ReasonCode::GrantedQoS1, ReasonCode::UnspecifiedError]);
    let u = UnsubAck::unpack(&[0x00, 0x05, 0x00, 0x11], Version::V5).unwrap();
    assert_eq!(u.payload, vec![ReasonCode::NoSubscriptionExisted]);
    let u3 = UnsubAck::unpack(&[0x00, 0x05], Version::V311).unwrap();
    assert!(u3.payload.is_empty());
}

#[test]
fn empty_unsubscribe_is_refused() {
    assert!(matches!(Unsubscribe::unpack(&[0x00, 0x01], Version::V311), Err(Error::EmptyPayload)));
    assert!(matches!(
        Unsubscribe::unpack(&[0x00, 0x01, 0x00], Version::V5),
        Err(Error::EmptyPayload)
    ));
    assert!(matches!(Subscribe::unpack(&[0x00, 0x01, 0x00], Version::V5), Err(Error::EmptyPayload)));
}
