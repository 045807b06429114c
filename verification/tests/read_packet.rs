use std::sync::Arc;

use mqttc::{
    Connack, Connect, ConnectReturnCode, LastWill, MqttRead, Packet, PacketIdentifier, Protocol,
    Publish, QoS, Suback, Subscribe, SubscribeReturnCodes, SubscribeTopic, Unsubscribe,
};

#[test]
fn read_packet_connect_mqtt_protocol_test() {
    let bytes = vec![
        0x10, 39,
        0x00, 0x04, 'M' as u8, 'Q' as u8, 'T' as u8, 'T' as u8,
        0x04,
        0b11001110, // +username, +password, -will retain, will qos=1, +last_will, +clean_session
        0x00, 0x0a, // 10 sec
        0x00, 0x04, 't' as u8, 'e' as u8, 's' as u8, 't' as u8, // client_id
        0x00, 0x02, '/' as u8, 'a' as u8, // will topic = '/a'
        0x00, 0x07, 'o' as u8, 'f' as u8, 'f' as u8, 'l' as u8, 'i' as u8, 'n' as u8, 'e' as u8, // will msg = 'offline'
        0x00, 0x04, 'r' as u8, 'u' as u8, 's' as u8, 't' as u8, // username = 'rust'
        0x00, 0x02, 'm' as u8, 'q' as u8 // password = 'mq'
    ];
    let mut stream = MqttRead::new(&bytes);

    let packet = stream.read_packet().unwrap();

    assert_eq!(packet, Packet::Connect(Box::new(Connect {
        protocol: Protocol::MQTT(4),
        keep_alive: 10,
        client_id: "test".to_owned(),
        clean_session: true,
        last_will: Some(LastWill {
            topic: "/a".to_owned(),
            message: "offline".to_owned(),
            retain: false,
            qos: QoS::AtLeastOnce
        }),
        username: Some("rust".to_owned()),
        password: Some("mq".to_owned())
    })));
}

#[test]
fn read_packet_connect_mqisdp_protocol_test() {
    let bytes = vec![
        0x10, 18,
        0x00, 0x06, 'M' as u8, 'Q' as u8, 'I' as u8, 's' as u8, 'd' as u8, 'p' as u8,
        0x03,
        0b00000000, // -username, -password, -will retain, will qos=0, -last_will, -clean_session
        0x00, 0x3c, // 60 sec
        0x00, 0x04, 't' as u8, 'e' as u8, 's' as u8, 't' as u8 // client_id
    ];
    let mut stream = MqttRead::new(&bytes);

    let packet = stream.read_packet().unwrap();

    assert_eq!(packet, Packet::Connect(Box::new(Connect {
        protocol: Protocol::MQIsdp(3),
        keep_alive: 60,
        client_id: "test".to_owned(),
        clean_session: false,
        last_will: None,
        username: None,
        password: None
    })));
}

#[test]
fn read_packet_connack_test() {
    let bytes = vec![0b00100000, 0x02, 0x01, 0x00];
    let mut stream = MqttRead::new(&bytes);
    let packet = stream.read_packet().unwrap();

    assert_eq!(packet, Packet::Connack(Connack {
        session_present: true,
        code: ConnectReturnCode::Accepted
    }));
}

#[test]
fn read_packet_publish_qos1_test() {
    let bytes = vec![
        0b00110010, 11,
        0x00, 0x03, 'a' as u8, '/' as u8, 'b' as u8, // topic name = 'a/b'
        0x00, 0x0a, // pid = 10
        0xF1, 0xF2, 0xF3, 0xF4
    ];
    let mut stream = MqttRead::new(&bytes);

    let packet = stream.read_packet().unwrap();

    assert_eq!(packet, Packet::Publish(Box::new(Publish {
        dup: false,
        qos: QoS::AtLeastOnce,
        retain: false,
        topic_name: "a/b".to_owned(),
        pid: Some(PacketIdentifier(10)),
        payload: Arc::new(vec![0xF1, 0xF2, 0xF3, 0xF4])
    })));
}

#[test]
fn read_packet_publish_qos0_test() {
    let bytes = vec![
        0b00110000, 7,
        0x00, 0x03, 'a' as u8, '/' as u8, 'b' as u8, // topic name = 'a/b'
        0x01, 0x02
    ];
    let mut stream = MqttRead::new(&bytes);

    let packet = stream.read_packet().unwrap();

    assert_eq!(packet, Packet::Publish(Box::new(Publish {
        dup: false,
        qos: QoS::AtMostOnce,
        retain: false,
        topic_name: "a/b".to_owned(),
        pid: None,
        payload: Arc::new(vec![0x01, 0x02])
    })));
}

#[test]
fn read_packet_puback_test() {
    let bytes = vec![0b01000000, 0x02, 0x00, 0x0A];
    let mut stream = MqttRead::new(&bytes);
    let packet = stream.read_packet().unwrap();

    assert_eq!(packet, Packet::Puback(PacketIdentifier(10)));
}

#[test]
fn read_packet_subscribe_test() {
    let bytes = vec![
        0b10000010, 20,
        0x01, 0x04, // pid = 260
        0x00, 0x03, 'a' as u8, '/' as u8, '+' as u8, // topic filter = 'a/+'
        0x00, // qos = 0
        0x00, 0x01, '#' as u8, // topic filter = '#'
        0x01, // qos = 1
        0x00, 0x05, 'a' as u8, '/' as u8, 'b' as u8, '/' as u8, 'c' as u8, // topic filter = 'a/b/c'
        0x02 // qos = 2
    ];
    let mut stream = MqttRead::new(&bytes);

    let packet = stream.read_packet().unwrap();

    assert_eq!(packet, Packet::Subscribe(Box::new(Subscribe {
        pid: PacketIdentifier(260),
        topics: vec![
            SubscribeTopic { topic_path: "a/+".to_owned(), qos: QoS::AtMostOnce },
            SubscribeTopic { topic_path: "#".to_owned(), qos: QoS::AtLeastOnce },
            SubscribeTopic { topic_path: "a/b/c".to_owned(), qos: QoS::ExactlyOnce }
        ]
    })));
}

#[test]
fn read_packet_unsubscribe_test() {
    let bytes = vec![
        0b10100010, 17,
        0x00, 0x0F, // pid = 15
        0x00, 0x03, 'a' as u8, '/' as u8, '+' as u8, // topic filter = 'a/+'
        0x00, 0x01, '#' as u8, // topic filter = '#'
        0x00, 0x05, 'a' as u8, '/' as u8, 'b' as u8, '/' as u8, 'c' as u8, // topic filter = 'a/b/c'
    ];
    let mut stream = MqttRead::new(&bytes);

    let packet = stream.read_packet().unwrap();

    assert_eq!(packet, Packet::Unsubscribe(Box::new(Unsubscribe {
        pid: PacketIdentifier(15),
        topics: vec![
            "a/+".to_owned(),
            "#".to_owned(),
            "a/b/c".to_owned()
        ]
    })));
}

#[test]
fn read_packet_suback_test() {
    let bytes = vec![
        0x90, 4,
        0x00, 0x0F, // pid = 15
        0x01, 0x80
    ];
    let mut stream = MqttRead::new(&bytes);

    let packet = stream.read_packet().unwrap();

    assert_eq!(packet, Packet::Suback(Box::new(Suback {
        pid: PacketIdentifier(15),
        return_codes: vec![SubscribeReturnCodes::Success(QoS::AtLeastOnce), SubscribeReturnCodes::Failure]
    })));
}
