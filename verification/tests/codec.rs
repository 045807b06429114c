use std::sync::Arc;

use mqttc::bits::{has_bit, high_nibble, low_nibble, low_seven, three_bits, two_bits};
use mqttc::{
    Connack, Connect, ConnectReturnCode, Header, LastWill, MQError, MqttRead, MqttWrite, Packet,
    PacketIdentifier, PacketType, Protocol, Publish, QoS, Suback, Subscribe,
    SubscribeReturnCodes, SubscribeTopic, Unsubscribe,
};

fn encode(packet: &Packet) -> Result<Vec<u8>, MQError> {
    let mut out = MqttWrite::new();
    out.write_packet(packet)?;
    Ok(out.into_bytes())
}

fn decode(bytes: &[u8]) -> Result<Packet, MQError> {
    MqttRead::new(bytes).read_packet()
}

fn full_connect() -> Packet {
    Packet::Connect(Box::new(Connect {
        protocol: Protocol::MQTT(4),
        keep_alive: 10,
        client_id: "test".to_owned(),
        clean_session: true,
        last_will: Some(LastWill {
            topic: "/a".to_owned(),
            message: "offline".to_owned(),
            retain: false,
            qos: QoS::AtLeastOnce,
        }),
        username: Some("rust".to_owned()),
        password: Some("mq".to_owned()),
    }))
}

fn full_connect_bytes() -> Vec<u8> {
    vec![
        0x10, 0x27, 0x00, 0x04, b'M', b'Q', b'T', b'T', 0x04, 0xCE, 0x00, 0x0A, 0x00, 0x04, b't',
        b'e', b's', b't', 0x00, 0x02, b'/', b'a', 0x00, 0x07, b'o', b'f', b'f', b'l', b'i', b'n',
        b'e', 0x00, 0x04, b'r', b'u', b's', b't', 0x00, 0x02, b'm', b'q',
    ]
}

#[test]
fn connect_with_will_user_and_password_decodes() {
    assert_eq!(decode(&full_connect_bytes()).unwrap(), full_connect());
}

#[test]
fn connect_with_will_user_and_password_encodes() {
    assert_eq!(encode(&full_connect()).unwrap(), full_connect_bytes());
}

#[test]
fn connack_accepted_with_session_present_decodes() {
    assert_eq!(
        decode(&[0x20, 0x02, 0x01, 0x00]).unwrap(),
        Packet::Connack(Connack { session_present: true, code: ConnectReturnCode::Accepted })
    );
}

#[test]
fn publish_at_level_one_decodes_and_encodes() {
    let bytes = vec![0x32, 0x0B, 0x00, 0x03, b'a', b'/', b'b', 0x00, 0x0A, 0xF1, 0xF2, 0xF3, 0xF4];
    let packet = Packet::Publish(Box::new(Publish {
        dup: false,
        qos: QoS::AtLeastOnce,
        retain: false,
        topic_name: "a/b".to_owned(),
        pid: Some(PacketIdentifier(10)),
        payload: Arc::new(vec![0xF1, 0xF2, 0xF3, 0xF4]),
    }));
    assert_eq!(decode(&bytes).unwrap(), packet);
    assert_eq!(encode(&packet).unwrap(), bytes);
}

#[test]
fn publish_flags_are_dup_qos_retain() {
    let packet = Packet::Publish(Box::new(Publish {
        dup: true,
        qos: QoS::ExactlyOnce,
        retain: true,
        topic_name: "t".to_owned(),
        pid: Some(PacketIdentifier(0x1234)),
        payload: Arc::new(vec![]),
    }));
    let bytes = encode(&packet).unwrap();
    assert_eq!(bytes, vec![0x3D, 0x05, 0x00, 0x01, b't', 0x12, 0x34]);
    assert_eq!(decode(&bytes).unwrap(), packet);
}

#[test]
fn subscribe_with_three_filters_decodes_and_encodes() {
    let bytes = vec![
        0x82, 0x14, 0x01, 0x04, 0x00, 0x03, b'a', b'/', b'+', 0x00, 0x00, 0x01, b'#', 0x01, 0x00,
        0x05, b'a', b'/', b'b', b'/', b'c', 0x02,
    ];
    let packet = Packet::Subscribe(Box::new(Subscribe {
        pid: PacketIdentifier(260),
        topics: vec![
            SubscribeTopic { topic_path: "a/+".to_owned(), qos: QoS::AtMostOnce },
            SubscribeTopic { topic_path: "#".to_owned(), qos: QoS::AtLeastOnce },
            SubscribeTopic { topic_path: "a/b/c".to_owned(), qos: QoS::ExactlyOnce },
        ],
    }));
    assert_eq!(decode(&bytes).unwrap(), packet);
    assert_eq!(encode(&packet).unwrap(), bytes);
}

#[test]
fn suback_with_success_and_failure_decodes_and_encodes() {
    let bytes = vec![0x90, 0x04, 0x00, 0x0F, 0x01, 0x80];
    let packet = Packet::Suback(Box::new(Suback {
        pid: PacketIdentifier(15),
        return_codes: vec![
            SubscribeReturnCodes::Success(QoS::AtLeastOnce),
            SubscribeReturnCodes::Failure,
        ],
    }));
    assert_eq!(decode(&bytes).unwrap(), packet);
    assert_eq!(encode(&packet).unwrap(), bytes);
}

#[test]
fn five_length_bytes_are_malformed() {
    assert_eq!(
        decode(&[0x10, 0xFF, 0xFF, 0xFF, 0xFF, 0x00]),
        Err(MQError::MalformedRemainingLength)
    );
}

#[test]
fn remaining_length_round_trips_at_the_edges() {
    let cases: [(usize, usize); 8] = [
        (0, 1),
        (127, 1),
        (128, 2),
        (16383, 2),
        (16384, 3),
        (2097151, 3),
        (2097152, 4),
        (268435455, 4),
    ];
    for (n, width) in cases {
        let mut out = MqttWrite::new();
        out.write_remaining_length(n).unwrap();
        let bytes = out.into_bytes();
        assert_eq!(bytes.len(), width);
        let mut reader = MqttRead::new(&bytes);
        assert_eq!(reader.read_remaining_length(), Ok(n));
        assert_eq!(reader.remaining(), 0);
    }
}

#[test]
fn remaining_length_has_the_bytes_of_the_standard() {
    let mut out = MqttWrite::new();
    out.write_remaining_length(321).unwrap();
    assert_eq!(out.into_bytes(), vec![0xC1, 0x02]);
    let mut out = MqttWrite::new();
    out.write_remaining_length(268435455).unwrap();
    assert_eq!(out.into_bytes(), vec![0xFF, 0xFF, 0xFF, 0x7F]);
}

#[test]
fn remaining_length_beyond_the_largest_is_too_long() {
    let mut out = MqttWrite::new();
    assert_eq!(out.write_remaining_length(268435456), Err(MQError::PayloadTooLong));
    assert_eq!(out.len(), 0);
}

#[test]
fn remaining_length_that_ends_early_is_eof() {
    let bytes = [0x80u8, 0x80];
    let mut reader = MqttRead::new(&bytes);
    assert_eq!(reader.read_remaining_length(), Err(MQError::UnexpectedEof));
    assert_eq!(reader.remaining(), 2);
}

#[test]
fn every_kind_of_packet_round_trips() {
    let packets = vec![
        full_connect(),
        Packet::Connect(Box::new(Connect {
            protocol: Protocol::MQIsdp(3),
            keep_alive: 60,
            client_id: "".to_owned(),
            clean_session: false,
            last_will: Some(LastWill {
                topic: "will/topic".to_owned(),
                message: "gr\u{fc}\u{df}e \u{1F600}".to_owned(),
                retain: true,
                qos: QoS::ExactlyOnce,
            }),
            username: None,
            password: Some("secret".to_owned()),
        })),
        Packet::Connack(Connack {
            session_present: false,
            code: ConnectReturnCode::NotAuthorized,
        }),
        Packet::Publish(Box::new(Publish {
            dup: false,
            qos: QoS::AtMostOnce,
            retain: true,
            topic_name: "a/b".to_owned(),
            pid: None,
            payload: Arc::new(vec![0u8; 300]),
        })),
        Packet::Puback(PacketIdentifier(1)),
        Packet::Pubrec(PacketIdentifier(0xFFFF)),
        Packet::Pubrel(PacketIdentifier(256)),
        Packet::Pubcomp(PacketIdentifier(255)),
        Packet::Subscribe(Box::new(Subscribe {
            pid: PacketIdentifier(7),
            topics: vec![SubscribeTopic { topic_path: "x/#".to_owned(), qos: QoS::ExactlyOnce }],
        })),
        Packet::Suback(Box::new(Suback { pid: PacketIdentifier(7), return_codes: vec![] })),
        Packet::Unsubscribe(Box::new(Unsubscribe {
            pid: PacketIdentifier(8),
            topics: vec!["x/#".to_owned(), "y".to_owned()],
        })),
        Packet::Unsuback(PacketIdentifier(8)),
        Packet::Pingreq,
        Packet::Pingresp,
        Packet::Disconnect,
    ];
    for packet in packets {
        let bytes = encode(&packet).unwrap();
        let mut reader = MqttRead::new(&bytes);
        assert_eq!(reader.read_packet().unwrap(), packet);
        assert_eq!(reader.remaining(), 0);
        assert_eq!(encode(&decode(&bytes).unwrap()).unwrap(), bytes);
    }
}

#[test]
fn packets_are_read_one_after_the_other() {
    let mut bytes = encode(&Packet::Puback(PacketIdentifier(3))).unwrap();
    bytes.extend(encode(&Packet::Pingresp).unwrap());
    bytes.push(0x40);
    let mut reader = MqttRead::new(&bytes);
    assert_eq!(reader.read_packet(), Ok(Packet::Puback(PacketIdentifier(3))));
    assert_eq!(reader.read_packet(), Ok(Packet::Pingresp));
    assert_eq!(reader.read_packet(), Err(MQError::UnexpectedEof));
    assert_eq!(reader.remaining(), 1);
}

#[test]
fn bytes_that_are_not_canonical_are_not_written_back() {
    // a remaining length in two bytes where one would do, and a stray flag
    assert_eq!(decode(&[0xC0, 0x80, 0x00]), Ok(Packet::Pingreq));
    assert_eq!(encode(&Packet::Pingreq).unwrap(), vec![0xC0, 0x00]);
    assert_eq!(
        decode(&[0x25, 0x02, 0x03, 0x00]),
        Ok(Packet::Connack(Connack {
            session_present: true,
            code: ConnectReturnCode::Accepted
        }))
    );
    // a return code with stray bits
    assert_eq!(
        decode(&[0x90, 0x03, 0x00, 0x01, 0x85]),
        Ok(Packet::Suback(Box::new(Suback {
            pid: PacketIdentifier(1),
            return_codes: vec![SubscribeReturnCodes::Failure],
        })))
    );
}

#[test]
fn connect_passes_over_what_follows_the_last_field() {
    let mut bytes = vec![
        0x10, 14, 0x00, 0x04, b'M', b'Q', b'T', b'T', 0x04, 0x00, 0x00, 0x3C, 0x00, 0x00, 0xAA,
        0xBB,
    ];
    let mut reader = MqttRead::new(&bytes);
    assert_eq!(
        reader.read_packet(),
        Ok(Packet::Connect(Box::new(Connect {
            protocol: Protocol::MQTT(4),
            keep_alive: 60,
            client_id: "".to_owned(),
            clean_session: false,
            last_will: None,
            username: None,
            password: None,
        })))
    );
    assert_eq!(reader.remaining(), 0);
    bytes.truncate(15);
    assert_eq!(decode(&bytes), Err(MQError::UnexpectedEof));
}

#[test]
fn a_wrong_header_is_refused() {
    assert_eq!(decode(&[0x00, 0x00]), Err(MQError::UnsupportedPacketType));
    assert_eq!(decode(&[0xF0, 0x00]), Err(MQError::UnsupportedPacketType));
    assert_eq!(decode(&[0x80, 0x03, 0, 1, 0]), Err(MQError::IncorrectPacketFormat));
    assert_eq!(decode(&[0xA0, 0x02, 0, 1]), Err(MQError::IncorrectPacketFormat));
    assert_eq!(decode(&[0x60, 0x02, 0, 1]), Err(MQError::IncorrectPacketFormat));
    assert_eq!(decode(&[0xC0, 0x01, 0]), Err(MQError::IncorrectPacketFormat));
    assert_eq!(decode(&[0xD0, 0x01, 0]), Err(MQError::IncorrectPacketFormat));
    assert_eq!(decode(&[0xE0, 0x01, 0]), Err(MQError::UnsupportedPacketType));
    assert_eq!(decode(&[0x40, 0x00]), Err(MQError::PayloadRequired));
    assert_eq!(decode(&[0x30, 0x00]), Err(MQError::PayloadRequired));
    assert_eq!(decode(&[]), Err(MQError::UnexpectedEof));
    assert_eq!(decode(&[0x40]), Err(MQError::UnexpectedEof));
    assert_eq!(decode(&[0x40, 0x02, 0x00]), Err(MQError::UnexpectedEof));
}

#[test]
fn a_wrong_size_is_refused() {
    assert_eq!(decode(&[0x40, 0x03, 0, 1, 2]), Err(MQError::PayloadSizeIncorrect));
    assert_eq!(decode(&[0x50, 0x01, 0]), Err(MQError::PayloadSizeIncorrect));
    assert_eq!(decode(&[0x62, 0x03, 0, 1, 2]), Err(MQError::PayloadSizeIncorrect));
    assert_eq!(decode(&[0x70, 0x01, 0]), Err(MQError::PayloadSizeIncorrect));
    assert_eq!(decode(&[0xB0, 0x04, 0, 1, 2, 3]), Err(MQError::PayloadSizeIncorrect));
    assert_eq!(decode(&[0x20, 0x03, 0, 0, 0]), Err(MQError::PayloadSizeIncorrect));
    assert_eq!(decode(&[0x20, 0x01, 0]), Err(MQError::PayloadSizeIncorrect));
}

#[test]
fn a_wrong_connect_is_refused() {
    let good = full_connect_bytes();
    let mut name = good.clone();
    name[4] = b'X';
    assert_eq!(decode(&name), Err(MQError::UnsupportedProtocolName));
    let mut level = good.clone();
    level[8] = 0x05;
    assert_eq!(decode(&level), Err(MQError::UnsupportedProtocolVersion));
    let mut will_qos = good.clone();
    will_qos[9] = 0xDE;
    assert_eq!(decode(&will_qos), Err(MQError::UnsupportedQualityOfService));
    let mut bad_utf8 = good.clone();
    bad_utf8[14] = 0xFF;
    assert_eq!(decode(&bad_utf8), Err(MQError::TopicNameMustNotContainNonUtf8));
    // will flags without a will
    let flags = vec![
        0x10, 12, 0x00, 0x04, b'M', b'Q', b'T', b'T', 0x04, 0x08, 0x00, 0x3C, 0x00, 0x00,
    ];
    assert_eq!(decode(&flags), Err(MQError::IncorrectPacketFormat));
    let mut short = good.clone();
    short[1] = 0x26;
    short.truncate(40);
    assert_eq!(decode(&short), Err(MQError::UnexpectedEof));
}

#[test]
fn a_wrong_body_is_refused() {
    assert_eq!(decode(&[0x20, 0x02, 0x00, 0x06]), Err(MQError::UnsupportedConnectReturnCode));
    assert_eq!(
        decode(&[0x36, 0x05, 0x00, 0x01, b't', 0x00, 0x01]),
        Err(MQError::UnsupportedQualityOfService)
    );
    assert_eq!(decode(&[0x32, 0x04, 0x00, 0x01, b't', 0x00]), Err(MQError::UnexpectedEof));
    assert_eq!(
        decode(&[0x30, 0x03, 0x00, 0x01, 0xC0]),
        Err(MQError::TopicNameMustNotContainNonUtf8)
    );
    assert_eq!(decode(&[0x30, 0x03, 0x00, 0x05, b't']), Err(MQError::UnexpectedEof));
    assert_eq!(decode(&[0x82, 0x02, 0x00, 0x01]), Err(MQError::PayloadRequired));
    assert_eq!(
        decode(&[0x82, 0x06, 0x00, 0x01, 0x00, 0x01, b't', 0x03]),
        Err(MQError::UnsupportedQualityOfService)
    );
    assert_eq!(decode(&[0x82, 0x05, 0x00, 0x01, 0x00, 0x01, b't']), Err(MQError::UnexpectedEof));
    assert_eq!(
        decode(&[0x90, 0x03, 0x00, 0x01, 0x03]),
        Err(MQError::UnsupportedQualityOfService)
    );
    assert_eq!(decode(&[0xA2, 0x04, 0x00, 0x01, 0x00, 0x02]), Err(MQError::UnexpectedEof));
}

#[test]
fn a_packet_that_breaks_a_rule_is_not_written() {
    let mut out = MqttWrite::new();
    out.write_packet(&Packet::Pingreq).unwrap();
    let no_pid = Packet::Publish(Box::new(Publish {
        dup: false,
        qos: QoS::AtLeastOnce,
        retain: false,
        topic_name: "t".to_owned(),
        pid: None,
        payload: Arc::new(vec![]),
    }));
    assert_eq!(out.write_packet(&no_pid), Err(MQError::IncorrectPacketFormat));
    let stray_pid = Packet::Publish(Box::new(Publish {
        dup: false,
        qos: QoS::AtMostOnce,
        retain: false,
        topic_name: "t".to_owned(),
        pid: Some(PacketIdentifier(1)),
        payload: Arc::new(vec![]),
    }));
    assert_eq!(out.write_packet(&stray_pid), Err(MQError::IncorrectPacketFormat));
    let level = Packet::Connect(Box::new(Connect {
        protocol: Protocol::MQTT(3),
        keep_alive: 0,
        client_id: "c".to_owned(),
        clean_session: true,
        last_will: None,
        username: None,
        password: None,
    }));
    assert_eq!(out.write_packet(&level), Err(MQError::UnsupportedProtocolVersion));
    let empty = Packet::Subscribe(Box::new(Subscribe { pid: PacketIdentifier(1), topics: vec![] }));
    assert_eq!(out.write_packet(&empty), Err(MQError::PayloadRequired));
    let long = Packet::Unsubscribe(Box::new(Unsubscribe {
        pid: PacketIdentifier(1),
        topics: vec!["ok".to_owned(), "x".repeat(65536)],
    }));
    assert_eq!(out.write_packet(&long), Err(MQError::PayloadTooLong));
    assert_eq!(out.into_bytes(), vec![0xC0, 0x00]);
}

#[test]
fn a_string_of_the_largest_length_is_written() {
    let topic = "x".repeat(65535);
    let packet = Packet::Unsubscribe(Box::new(Unsubscribe {
        pid: PacketIdentifier(1),
        topics: vec![topic.clone()],
    }));
    let bytes = encode(&packet).unwrap();
    assert_eq!(&bytes[..8], &[0xA2, 0x83, 0x80, 0x04, 0x00, 0x01, 0xFF, 0xFF]);
    assert_eq!(decode(&bytes).unwrap(), packet);
    let mut out = MqttWrite::new();
    assert_eq!(out.write_mqtt_string(&"x".repeat(65536)), Err(MQError::PayloadTooLong));
    out.write_mqtt_string("\u{e9}").unwrap();
    assert_eq!(out.into_bytes(), vec![0x00, 0x02, 0xC3, 0xA9]);
}

#[test]
fn a_payload_beyond_the_largest_length_is_too_long() {
    let packet = Packet::Publish(Box::new(Publish {
        dup: false,
        qos: QoS::AtMostOnce,
        retain: false,
        topic_name: "t".to_owned(),
        pid: None,
        payload: Arc::new(vec![0u8; 268435455 - 2]),
    }));
    assert_eq!(encode(&packet), Err(MQError::PayloadTooLong));
}

#[test]
fn strings_and_numbers_are_read_from_where_the_reader_stands() {
    let bytes = [0x01u8, 0x04, 0x00, 0x02, 0xC3, 0xA9, 0x07, 0x00, 0x01];
    let mut reader = MqttRead::new(&bytes);
    assert_eq!(reader.read_u16(), Ok(260));
    assert_eq!(reader.read_mqtt_string(), Ok("\u{e9}".to_owned()));
    assert_eq!(reader.read_u8(), Ok(7));
    assert_eq!(reader.read_mqtt_string(), Err(MQError::UnexpectedEof));
    assert_eq!(reader.remaining(), 2);
    assert_eq!(reader.read_payload(5).unwrap(), Box::new(vec![0x00, 0x01]));
    assert_eq!(reader.read_u8(), Err(MQError::UnexpectedEof));
    assert_eq!(reader.read_u16(), Err(MQError::UnexpectedEof));
}

#[test]
fn take_splits_off_the_next_bytes() {
    let bytes = [1u8, 2, 3, 4, 5];
    let mut reader = MqttRead::new(&bytes);
    let mut part = reader.take(2).unwrap();
    assert_eq!(part.read_u16(), Ok(0x0102));
    assert_eq!(part.remaining(), 0);
    assert_eq!(reader.remaining(), 3);
    assert!(reader.take(4).is_err());
    assert_eq!(reader.read_payload(2).unwrap(), Box::new(vec![3, 4]));
}

#[test]
fn header_tells_kind_and_flags() {
    let header = Header::new(0x3B, 7).unwrap();
    assert_eq!(header.typ, PacketType::Publish);
    assert_eq!(header.len, 7);
    assert!(header.dup());
    assert_eq!(header.qos(), Ok(QoS::AtLeastOnce));
    assert!(header.retain());
    assert_eq!(Header::new(0x36, 0).unwrap().qos(), Err(MQError::UnsupportedQualityOfService));
    assert_eq!(Header::new(0x82, 5).unwrap().typ, PacketType::Subscribe);
    assert_eq!(Header::new(0x83, 5), Err(MQError::IncorrectPacketFormat));
    for nibble in 1u8..=14 {
        let kind = PacketType::from_u8(nibble).unwrap();
        assert_eq!(kind.to_u8(), nibble);
    }
    assert_eq!(PacketType::from_u8(15), Err(MQError::UnsupportedPacketType));
}

#[test]
fn codes_map_to_their_numbers() {
    for byte in 0u8..=2 {
        assert_eq!(QoS::from_u8(byte).unwrap().to_u8(), byte);
    }
    assert_eq!(QoS::from_u8(3), Err(MQError::UnsupportedQualityOfService));
    for byte in 0u8..=5 {
        assert_eq!(ConnectReturnCode::from_u8(byte).unwrap().to_u8(), byte);
    }
    assert_eq!(ConnectReturnCode::from_u8(6), Err(MQError::UnsupportedConnectReturnCode));
    assert_eq!(SubscribeReturnCodes::from_u8(0x80), Ok(SubscribeReturnCodes::Failure));
    assert_eq!(SubscribeReturnCodes::from_u8(0xFF), Ok(SubscribeReturnCodes::Failure));
    assert_eq!(
        SubscribeReturnCodes::from_u8(0x02),
        Ok(SubscribeReturnCodes::Success(QoS::ExactlyOnce))
    );
    assert_eq!(SubscribeReturnCodes::Success(QoS::AtLeastOnce).to_u8(), 1);
    assert_eq!(SubscribeReturnCodes::Failure.to_u8(), 0x80);
    assert_eq!(Protocol::new("MQTT", 4), Ok(Protocol::MQTT(4)));
    assert_eq!(Protocol::new("MQIsdp", 3), Ok(Protocol::MQIsdp(3)));
    assert_eq!(Protocol::new("MQTT", 3), Err(MQError::UnsupportedProtocolVersion));
    assert_eq!(Protocol::new("mqtt", 4), Err(MQError::UnsupportedProtocolName));
    assert_eq!(Protocol::MQTT(4).name(), "MQTT");
    assert_eq!(Protocol::MQIsdp(3).name(), "MQIsdp");
    assert_eq!(Protocol::MQIsdp(3).level(), 3);
}

#[test]
fn packet_identifiers_count_in_a_cycle_without_zero() {
    assert_eq!(PacketIdentifier::zero().next(), PacketIdentifier(1));
    assert_eq!(PacketIdentifier(0xFFFF).next(), PacketIdentifier(1));
    assert_eq!(PacketIdentifier(41).next(), PacketIdentifier(42));
    let mut pid = PacketIdentifier(1);
    for _ in 0..65535 {
        pid = pid.next();
        assert_ne!(pid, PacketIdentifier(0));
    }
    assert_eq!(pid, PacketIdentifier(1));
    let mut pid = PacketIdentifier::zero();
    for _ in 0..65536 {
        pid = pid.next();
    }
    assert_eq!(pid, PacketIdentifier(1));
}

#[test]
fn needed_counts_the_bytes_that_are_missing() {
    let whole = full_connect_bytes();
    assert_eq!(MqttRead::new(&[]).needed(), Ok(1));
    assert_eq!(MqttRead::new(&whole[..1]).needed(), Ok(1));
    assert_eq!(MqttRead::new(&whole[..2]).needed(), Ok(39));
    assert_eq!(MqttRead::new(&whole[..30]).needed(), Ok(11));
    assert_eq!(MqttRead::new(&whole).needed(), Ok(0));
    assert_eq!(MqttRead::new(&[0xC0, 0x00, 0x40]).needed(), Ok(0));
    assert_eq!(MqttRead::new(&[0x30, 0x80]).needed(), Ok(1));
    assert_eq!(MqttRead::new(&[0x30, 0x80, 0x01]).needed(), Ok(128));
    assert_eq!(MqttRead::new(&[0x30, 0xFF, 0xFF, 0xFF, 0x7F]).needed(), Ok(268435455));
    assert_eq!(MqttRead::new(&[0x30, 0xFF, 0xFF, 0xFF, 0xFF]).needed(), Ok(1));
    assert_eq!(
        MqttRead::new(&[0x30, 0xFF, 0xFF, 0xFF, 0xFF, 0x01]).needed(),
        Err(MQError::MalformedRemainingLength)
    );
}

#[test]
fn errors_have_their_words() {
    assert_eq!(MQError::IncorrectPacketFormat.description(), "Incorrect Packet Format");
    assert_eq!(MQError::UnexpectedEof.description(), "Unexpected EOF");
    assert_eq!(MQError::PayloadTooLong.description(), "Payload Too Long");
    assert_eq!(MQError::Io(mqttc::IoErrorKind::Other).description(), "uh oh");
    assert_eq!(
        mqttc::PacketIdentifierError::UnhandledPuback(PacketIdentifier(65535)).message(),
        "65535"
    );
    assert_eq!(
        mqttc::Error::from(MQError::PayloadRequired),
        mqttc::Error::Mqtt(MQError::PayloadRequired)
    );
    assert_eq!(
        mqttc::Error::from(ConnectReturnCode::ServerUnavailable),
        mqttc::Error::ConnectionRefused(ConnectReturnCode::ServerUnavailable)
    );
    assert_eq!(
        mqttc::Error::from(mqttc::StorageError::Unavailable),
        mqttc::Error::Storage(mqttc::StorageError::Unavailable)
    );
    assert_eq!(
        mqttc::Error::from(mqttc::IoErrorKind::TimedOut),
        mqttc::Error::Io(mqttc::IoErrorKind::TimedOut)
    );
    assert_eq!(
        mqttc::Error::from(mqttc::PacketIdentifierError::UnhandledPubrel(PacketIdentifier(2))),
        mqttc::Error::PacketIdentifierError(mqttc::PacketIdentifierError::UnhandledPubrel(
            PacketIdentifier(2)
        ))
    );
}

#[test]
fn the_write_buffer_hands_its_bytes_over() {
    let mut out = MqttWrite::new();
    assert_eq!(out.len(), 0);
    out.write_all(&[1, 2, 3]);
    out.write_packet(&Packet::Pingresp).unwrap();
    assert_eq!(out.len(), 5);
    assert_eq!(out.take_bytes(), vec![1, 2, 3, 0xD0, 0x00]);
    assert_eq!(out.len(), 0);
    out.write_packet(&Packet::Unsuback(PacketIdentifier(0x0102))).unwrap();
    assert_eq!(out.into_bytes(), vec![0xB0, 0x02, 0x01, 0x02]);
}

#[test]
fn bits_of_a_byte() {
    assert_eq!(two_bits(0b1011_0110, 0), 0b10);
    assert_eq!(two_bits(0b1011_0110, 1), 0b11);
    assert_eq!(two_bits(0b1011_0110, 2), 0b01);
    assert_eq!(two_bits(0b1011_0110, 3), 0b10);
    assert_eq!(two_bits(0b1011_0110, 4), 0b11);
    assert_eq!(two_bits(0b1011_0110, 5), 0b01);
    assert_eq!(two_bits(0b1011_0110, 6), 0b10);
    assert_eq!(two_bits(0b1011_0110, 7), 0b01);
    assert_eq!(two_bits(0b1011_0110, 8), 0);
    assert_eq!(two_bits(0xFF, 200), 0);
    assert!(has_bit(0b1011_0110, 0x80));
    assert!(!has_bit(0b1011_0110, 0x40));
    assert!(has_bit(0b1011_0110, 0b0100_0010));
    assert!(!has_bit(0b1011_0110, 0));
    assert_eq!(high_nibble(0xA7), 0xA);
    assert_eq!(low_nibble(0xA7), 0x7);
    assert_eq!(low_seven(0xA7), 0x27);
    assert_eq!(three_bits(0b1011_0110), 0b110);
}
