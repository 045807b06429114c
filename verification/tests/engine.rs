use std::sync::Arc;
use std::time::Duration;

use mqttc::{
    Action, AfterFlush, Client, ClientOptions, ClientState, Connack, ConnectReturnCode, Error,
    InFlight, IoErrorKind, LastWill, MQError, MemoryStorage, Message, MqttRead, Packet,
    PacketIdentifier, PacketIdentifierError, Poll, Protocol, PubOpt, Publish, QoS,
    ReconnectMethod, StorageError, Store, Suback, SubscribeReturnCodes, SubscribeTopic, Wait,
};

const SECOND: u64 = 1_000_000_000;

fn nothing() -> InFlight {
    InFlight {
        incoming_pub: 0,
        incoming_rec: 0,
        incoming_rel: 0,
        outgoing_ack: 0,
        outgoing_rec: 0,
        outgoing_comp: 0,
        await_suback: 0,
        await_unsuback: 0,
    }
}

fn options() -> ClientOptions {
    let mut opts = ClientOptions::new();
    opts.set_client_id("test".to_owned());
    opts
}

fn with_stores() -> ClientOptions {
    let mut opts = options();
    opts.set_incomming_store(Box::new(MemoryStorage::new()))
        .set_outgoing_store(Box::new(MemoryStorage::new()));
    opts
}

fn accepted() -> Packet {
    Packet::Connack(Connack { session_present: true, code: ConnectReturnCode::Accepted })
}

/// A client after the handshake, with nothing written.
fn connected(opts: ClientOptions) -> Client {
    let (mut client, action) = opts.connect(0).unwrap();
    assert_eq!(action, Action::Flush(AfterFlush::Nothing));
    client.take_output();
    assert_eq!(client._flush(AfterFlush::Nothing, Ok(0)), Ok(None));
    assert_eq!(client.accept(Ok(accepted())), Ok(Action::Done(None)));
    assert_eq!(client.state(), ClientState::Connected);
    client
}

fn packets(bytes: &[u8]) -> Vec<Packet> {
    let mut reader = MqttRead::new(bytes);
    let mut out = Vec::new();
    while reader.remaining() > 0 {
        out.push(reader.read_packet().unwrap());
    }
    out
}

fn publish(qos: QoS, pid: Option<u16>) -> Packet {
    Packet::Publish(Box::new(Publish {
        dup: false,
        qos,
        retain: false,
        topic_name: "a/b".to_owned(),
        pid: pid.map(PacketIdentifier),
        payload: Arc::new(vec![1, 2, 3]),
    }))
}

fn message(qos: QoS, pid: Option<u16>) -> Box<Message> {
    match publish(qos, pid) {
        Packet::Publish(p) => Message::from_pub(p).unwrap(),
        _ => unreachable!(),
    }
}

#[test]
fn connect_writes_the_connect_packet_of_the_settings() {
    let mut opts = ClientOptions::new();
    opts.set_client_id("test".to_owned())
        .set_keep_alive(10)
        .set_clean_session(true)
        .set_username("rust".to_owned())
        .set_password("mq".to_owned());
    opts.set_last_will("/a", "offline".to_owned(), PubOpt::at_least_once()).unwrap();
    let (mut client, action) = opts.connect(5 * SECOND).unwrap();
    assert_eq!(action, Action::Flush(AfterFlush::Nothing));
    assert_eq!(client.state(), ClientState::Handshake);
    assert_eq!(
        client.take_output(),
        vec![
            0x10, 0x27, 0x00, 0x04, b'M', b'Q', b'T', b'T', 0x04, 0xCE, 0x00, 0x0A, 0x00, 0x04,
            b't', b'e', b's', b't', 0x00, 0x02, b'/', b'a', 0x00, 0x07, b'o', b'f', b'f', b'l',
            b'i', b'n', b'e', 0x00, 0x04, b'r', b'u', b's', b't', 0x00, 0x02, b'm', b'q',
        ]
    );
    assert_eq!(client.take_output(), Vec::<u8>::new());
    assert_eq!(client.in_flight(), nothing());
    assert_eq!(client.session_present(), false);
}

#[test]
fn connect_makes_a_client_identifier_if_there_is_none() {
    let (mut client, _) = ClientOptions::new().connect(0).unwrap();
    let written = packets(&client.take_output());
    match &written[0] {
        Packet::Connect(connect) => {
            assert_eq!(connect.protocol, Protocol::MQTT(4));
            assert_eq!(connect.keep_alive, 30);
            assert_eq!(connect.clean_session, true);
            assert_eq!(connect.last_will, None);
            let digits = connect.client_id.strip_prefix("mqttc_").unwrap();
            assert!(!digits.is_empty());
            assert_eq!(digits.parse::<u32>().unwrap().to_string(), digits);
        }
        other => panic!("{:?}", other),
    }
}

#[test]
fn generated_client_identifiers_are_mqttc_and_a_number() {
    let mut opts = ClientOptions::new();
    opts.generate_client_id();
    let id = opts._generate_connect_packet().client_id.clone();
    let digits = id.strip_prefix("mqttc_").unwrap();
    assert_eq!(digits.parse::<u32>().unwrap().to_string(), digits);
}

#[test]
fn settings_make_their_connect_packet() {
    let mut opts = ClientOptions::new();
    opts.set_protocol(Protocol::MQIsdp(3)).set_clean_session(false).set_last_will_opt(Some(
        LastWill {
            topic: "w".to_owned(),
            message: "m".to_owned(),
            qos: QoS::ExactlyOnce,
            retain: true,
        },
    ));
    opts.set_reconnect(ReconnectMethod::ReconnectAfter(Duration::from_secs(1)));
    let connect = opts._generate_connect_packet();
    assert_eq!(connect.protocol, Protocol::MQIsdp(3));
    assert_eq!(connect.keep_alive, 30);
    assert_eq!(connect.client_id, "");
    assert_eq!(connect.clean_session, false);
    assert_eq!(connect.last_will.as_ref().unwrap().topic, "w");
    assert_eq!(connect.username, None);
    assert_eq!(connect.password, None);
    assert_eq!(
        opts.set_last_will("a/#", "m".to_owned(), PubOpt::at_most_once()),
        Err(Error::Mqtt(MQError::TopicNameMustNotContainWildcard))
    );
    assert_eq!(opts._generate_connect_packet().last_will.as_ref().unwrap().topic, "w");
}

#[test]
fn connect_fails_on_settings_that_cannot_be_written() {
    let mut opts = options();
    opts.set_protocol(Protocol::MQTT(5));
    assert_eq!(opts.connect(0).err(), Some(Error::Mqtt(MQError::UnsupportedProtocolVersion)));
    let mut opts = ClientOptions::new();
    opts.set_client_id("x".repeat(65536));
    assert_eq!(opts.connect(0).err(), Some(Error::Mqtt(MQError::PayloadTooLong)));
}

#[test]
fn handshake_accepts_only_a_connack() {
    let (mut client, _) = options().connect(0).unwrap();
    assert_eq!(client.accept(Ok(Packet::Pingresp)), Err(Error::HandshakeFailed));
    assert_eq!(client.state(), ClientState::Handshake);
    let refused =
        Packet::Connack(Connack { session_present: false, code: ConnectReturnCode::NotAuthorized });
    assert_eq!(
        client.accept(Ok(refused)),
        Err(Error::ConnectionRefused(ConnectReturnCode::NotAuthorized))
    );
    assert_eq!(client.state(), ClientState::Handshake);
    assert_eq!(client.accept(Ok(accepted())), Ok(Action::Done(None)));
    assert_eq!(client.state(), ClientState::Connected);
    assert_eq!(client.session_present(), true);
    assert_eq!(client.accept(Ok(accepted())), Err(Error::AlreadyConnected));
}

#[test]
fn publish_at_level_zero_writes_and_awaits_nothing() {
    let mut client = connected(options());
    assert_eq!(
        client.publish("a/b", vec![1, 2, 3], PubOpt::at_most_once()),
        Ok(Action::Flush(AfterFlush::Nothing))
    );
    assert_eq!(client.take_output(), vec![0x30, 0x08, 0x00, 0x03, b'a', b'/', b'b', 1, 2, 3]);
    assert_eq!(client.in_flight(), nothing());
    assert_eq!(client.last_pid(), PacketIdentifier(0));
    assert_eq!(client._flush(AfterFlush::Nothing, Ok(7 * SECOND)), Ok(None));
    assert!(client._normalized());
}

#[test]
fn level_one_sent_grows_and_shrinks_outgoing_ack() {
    let mut client = connected(options());
    assert_eq!(
        client.publish("a/b", vec![9], PubOpt::new(QoS::AtLeastOnce, true)),
        Ok(Action::Flush(AfterFlush::Nothing))
    );
    assert_eq!(client.in_flight(), InFlight { outgoing_ack: 1, ..nothing() });
    assert_eq!(client.take_output(), vec![0x33, 0x08, 0x00, 0x03, b'a', b'/', b'b', 0x00, 0x01, 9]);
    assert!(!client._normalized());
    client.publish("a/b", vec![], PubOpt::at_least_once()).unwrap();
    assert_eq!(client.in_flight(), InFlight { outgoing_ack: 2, ..nothing() });
    assert_eq!(client.last_pid(), PacketIdentifier(2));
    assert_eq!(client.accept(Ok(Packet::Puback(PacketIdentifier(1)))), Ok(Action::Done(None)));
    assert_eq!(client.in_flight(), InFlight { outgoing_ack: 1, ..nothing() });
    // a PUBACK out of order takes the head of the queue with it
    assert_eq!(
        client.accept(Ok(Packet::Puback(PacketIdentifier(5)))),
        Err(Error::PacketIdentifierError(PacketIdentifierError::UnhandledPuback(
            PacketIdentifier(5)
        )))
    );
    assert_eq!(client.in_flight(), nothing());
    assert_eq!(
        client.accept(Ok(Packet::Puback(PacketIdentifier(2)))),
        Err(Error::PacketIdentifierError(PacketIdentifierError::UnhandledPuback(
            PacketIdentifier(2)
        )))
    );
}

#[test]
fn level_two_sent_runs_through_store_and_queues() {
    let mut client = connected(with_stores());
    assert_eq!(
        client.publish("a/b", vec![1, 2, 3], PubOpt::exactly_once()),
        Ok(Action::Flush(AfterFlush::Nothing))
    );
    let pid = PacketIdentifier(1);
    assert_eq!(client.in_flight(), InFlight { outgoing_rec: 1, ..nothing() });
    assert_eq!(client.outgoing_stored(pid).unwrap(), message(QoS::ExactlyOnce, Some(1)));
    assert_eq!(packets(&client.take_output()), vec![publish(QoS::ExactlyOnce, Some(1))]);
    assert_eq!(client._flush(AfterFlush::Nothing, Ok(SECOND)), Ok(None));

    assert_eq!(
        client.accept(Ok(Packet::Pubrec(pid))),
        Ok(Action::Flush(AfterFlush::Release(pid)))
    );
    assert_eq!(client.in_flight(), nothing());
    assert_eq!(client.take_output(), vec![0x62, 0x02, 0x00, 0x01]);
    assert!(client.outgoing_stored(pid).is_ok());
    assert_eq!(client._flush(AfterFlush::Release(pid), Ok(2 * SECOND)), Ok(None));
    assert_eq!(client.in_flight(), InFlight { outgoing_comp: 1, ..nothing() });
    assert_eq!(
        client.outgoing_stored(pid),
        Err(Error::Storage(StorageError::NotFound(pid)))
    );

    assert_eq!(client.accept(Ok(Packet::Pubcomp(pid))), Ok(Action::Done(None)));
    assert_eq!(client.in_flight(), nothing());
    assert!(client._normalized());
    assert_eq!(
        client.accept(Ok(Packet::Pubcomp(pid))),
        Err(Error::PacketIdentifierError(PacketIdentifierError::UnhandledPubcomp(pid)))
    );
}

#[test]
fn level_two_sent_needs_the_outgoing_store() {
    let mut client = connected(options());
    assert_eq!(
        client.publish("a/b", vec![], PubOpt::exactly_once()),
        Err(Error::OutgoingStorageAbsent)
    );
    assert_eq!(client.in_flight(), nothing());
    assert_eq!(client.take_output(), Vec::<u8>::new());
    assert_eq!(client.last_pid(), PacketIdentifier(1));
    assert_eq!(client.outgoing_stored(PacketIdentifier(1)), Err(Error::OutgoingStorageAbsent));
    // the store is missed before the packet is: one that cannot be written
    // gives the same error
    assert_eq!(
        client.publish(&"x".repeat(65536), vec![], PubOpt::exactly_once()),
        Err(Error::OutgoingStorageAbsent)
    );
    assert_eq!(client.last_pid(), PacketIdentifier(2));
    assert_eq!(client.in_flight(), nothing());
    assert_eq!(client.take_output(), Vec::<u8>::new());
    // a topic that is no topic name comes before both
    assert_eq!(
        client.publish("a/#", vec![], PubOpt::exactly_once()),
        Err(Error::Mqtt(MQError::TopicNameMustNotContainWildcard))
    );
    assert_eq!(client.last_pid(), PacketIdentifier(2));
}

#[test]
fn level_two_sent_that_cannot_be_written_is_not_stored() {
    let mut client = connected(with_stores());
    assert_eq!(
        client.publish(&"x".repeat(65536), vec![], PubOpt::exactly_once()),
        Err(Error::Mqtt(MQError::PayloadTooLong))
    );
    assert_eq!(client.last_pid(), PacketIdentifier(0));
    assert_eq!(client.in_flight(), nothing());
    assert_eq!(
        client.outgoing_stored(PacketIdentifier(1)),
        Err(Error::Storage(StorageError::NotFound(PacketIdentifier(1))))
    );
}

#[test]
fn the_wait_goes_on_while_a_pubcomp_is_awaited() {
    let mut client = connected(with_stores());
    let pid = PacketIdentifier(1);
    client.publish("a/b", vec![1], PubOpt::exactly_once()).unwrap();
    client.take_output();
    client._flush(AfterFlush::Nothing, Ok(SECOND)).unwrap();
    client.accept(Ok(Packet::Pubrec(pid))).unwrap();
    client.take_output();
    client._flush(AfterFlush::Release(pid), Ok(SECOND)).unwrap();
    assert_eq!(client.in_flight(), InFlight { outgoing_comp: 1, ..nothing() });
    assert!(!client._normalized());
    assert_eq!(client.await_turn(Ok(None)), Ok(Wait::Again));
    client.accept(Ok(Packet::Pubcomp(pid))).unwrap();
    assert!(client._normalized());
    assert_eq!(client.await_turn(Ok(None)), Ok(Wait::Ready(None)));
}

#[test]
fn a_pubrec_must_name_the_head_of_outgoing_rec() {
    let mut client = connected(with_stores());
    let unhandled = |pid| {
        Err(Error::PacketIdentifierError(PacketIdentifierError::UnhandledPubrec(
            PacketIdentifier(pid),
        )))
    };
    assert_eq!(client.accept(Ok(Packet::Pubrec(PacketIdentifier(1)))), unhandled(1));
    client.publish("a/b", vec![], PubOpt::exactly_once()).unwrap();
    client.take_output();
    assert_eq!(client.accept(Ok(Packet::Pubrec(PacketIdentifier(2)))), unhandled(2));
    assert_eq!(client.in_flight(), nothing());
    assert_eq!(client.take_output(), Vec::<u8>::new());
}

#[test]
fn a_message_at_level_zero_goes_to_the_user() {
    let mut client = connected(options());
    assert_eq!(
        client.accept(Ok(publish(QoS::AtMostOnce, None))),
        Ok(Action::Done(Some(message(QoS::AtMostOnce, None))))
    );
    assert_eq!(client.take_output(), Vec::<u8>::new());
    assert_eq!(client.in_flight(), nothing());
}

#[test]
fn a_message_at_level_one_is_acknowledged_then_goes_to_the_user() {
    let mut client = connected(options());
    let m = message(QoS::AtLeastOnce, Some(10));
    assert_eq!(
        client.accept(Ok(publish(QoS::AtLeastOnce, Some(10)))),
        Ok(Action::Flush(AfterFlush::Deliver(m.clone())))
    );
    assert_eq!(client.in_flight(), InFlight { incoming_pub: 1, ..nothing() });
    assert_eq!(client.take_output(), vec![0x40, 0x02, 0x00, 0x0A]);
    assert_eq!(client._flush(AfterFlush::Deliver(m.clone()), Ok(SECOND)), Ok(Some(m)));
    assert_eq!(client.in_flight(), nothing());
}

#[test]
fn a_failed_flush_keeps_the_message_of_level_one_queued() {
    let mut client = connected(options());
    let m = message(QoS::AtLeastOnce, Some(10));
    client.accept(Ok(publish(QoS::AtLeastOnce, Some(10)))).unwrap();
    assert_eq!(
        client._flush(AfterFlush::Deliver(m), Err(IoErrorKind::Other)),
        Err(Error::Io(IoErrorKind::Other))
    );
    assert_eq!(client.in_flight(), InFlight { incoming_pub: 1, ..nothing() });
    assert_eq!(client.state(), ClientState::Connected);
}

#[test]
fn level_two_received_hands_the_message_over_once() {
    let mut client = connected(with_stores());
    let pid = PacketIdentifier(7);
    let m = message(QoS::ExactlyOnce, Some(7));
    assert_eq!(
        client.accept(Ok(publish(QoS::ExactlyOnce, Some(7)))),
        Ok(Action::Flush(AfterFlush::Nothing))
    );
    assert_eq!(client.in_flight(), InFlight { incoming_rec: 1, ..nothing() });
    assert_eq!(client.incoming_stored(pid), Ok(m.clone()));
    assert_eq!(client.take_output(), vec![0x50, 0x02, 0x00, 0x07]);
    assert_eq!(client._flush(AfterFlush::Nothing, Ok(SECOND)), Ok(None));

    assert_eq!(client.accept(Ok(Packet::Pubrel(pid))), Ok(Action::Done(Some(m))));
    assert_eq!(client.in_flight(), InFlight { incoming_rel: 1, ..nothing() });
    assert_eq!(client.take_output(), Vec::<u8>::new());

    assert_eq!(client.complete(pid), Ok(Action::Flush(AfterFlush::Complete(pid))));
    assert_eq!(client.in_flight(), nothing());
    assert_eq!(client.take_output(), vec![0x70, 0x02, 0x00, 0x07]);
    assert!(client.incoming_stored(pid).is_ok());
    assert_eq!(client._flush(AfterFlush::Complete(pid), Ok(2 * SECOND)), Ok(None));
    assert_eq!(client.incoming_stored(pid), Err(Error::Storage(StorageError::NotFound(pid))));
    assert!(client._normalized());
}

#[test]
fn level_two_received_needs_the_incoming_store() {
    let mut client = connected(options());
    assert_eq!(
        client.accept(Ok(publish(QoS::ExactlyOnce, Some(7)))),
        Err(Error::IncomingStorageAbsent)
    );
    assert_eq!(client.in_flight(), InFlight { incoming_rec: 1, ..nothing() });
    assert_eq!(client.take_output(), Vec::<u8>::new());
    assert_eq!(
        client.accept(Ok(Packet::Pubrel(PacketIdentifier(7)))),
        Err(Error::IncomingStorageAbsent)
    );
    assert_eq!(
        client._flush(AfterFlush::Complete(PacketIdentifier(7)), Ok(0)),
        Err(Error::IncomingStorageAbsent)
    );
    assert_eq!(
        client._flush(AfterFlush::Release(PacketIdentifier(7)), Ok(0)),
        Err(Error::OutgoingStorageAbsent)
    );
}

#[test]
fn a_pubrel_must_name_the_head_of_incoming_rec() {
    let mut client = connected(with_stores());
    let unhandled = |pid| {
        Err(Error::PacketIdentifierError(PacketIdentifierError::UnhandledPubrel(
            PacketIdentifier(pid),
        )))
    };
    assert_eq!(client.accept(Ok(Packet::Pubrel(PacketIdentifier(7)))), unhandled(7));
    client.accept(Ok(publish(QoS::ExactlyOnce, Some(7)))).unwrap();
    assert_eq!(client.accept(Ok(Packet::Pubrel(PacketIdentifier(8)))), unhandled(8));
    assert_eq!(client.in_flight(), nothing());
}

#[test]
fn complete_must_name_the_last_of_incoming_rel() {
    let mut client = connected(with_stores());
    assert_eq!(client.complete(PacketIdentifier(7)), Err(Error::ProtocolViolation));
    client.accept(Ok(publish(QoS::ExactlyOnce, Some(7)))).unwrap();
    client.accept(Ok(Packet::Pubrel(PacketIdentifier(7)))).unwrap();
    client.take_output();
    // a wrong identifier changes nothing: the PUBCOMP of 7 is still owed
    assert_eq!(client.complete(PacketIdentifier(8)), Err(Error::ProtocolViolation));
    assert_eq!(client.in_flight(), InFlight { incoming_rel: 1, ..nothing() });
    assert_eq!(client.take_output(), Vec::<u8>::new());
    assert!(client.incoming_stored(PacketIdentifier(7)).is_ok());
    assert_eq!(
        client.complete(PacketIdentifier(7)),
        Ok(Action::Flush(AfterFlush::Complete(PacketIdentifier(7))))
    );
    assert_eq!(client.in_flight(), nothing());
    assert_eq!(client.take_output(), vec![0x70, 0x02, 0x00, 0x07]);
}

#[test]
fn a_message_above_level_zero_without_identifier_is_refused() {
    let mut client = connected(with_stores());
    assert_eq!(
        client.accept(Ok(publish(QoS::AtLeastOnce, None))),
        Err(Error::Mqtt(MQError::IncorrectPacketFormat))
    );
    assert_eq!(
        client._handle_message(message(QoS::ExactlyOnce, None)),
        Err(Error::Mqtt(MQError::IncorrectPacketFormat))
    );
    assert_eq!(client.in_flight(), nothing());
}

#[test]
fn a_message_for_a_wildcard_topic_is_refused() {
    let mut client = connected(options());
    let wild = Packet::Publish(Box::new(Publish {
        dup: false,
        qos: QoS::AtMostOnce,
        retain: false,
        topic_name: "a/+".to_owned(),
        pid: None,
        payload: Arc::new(vec![]),
    }));
    assert_eq!(
        client.accept(Ok(wild)),
        Err(Error::Mqtt(MQError::TopicNameMustNotContainWildcard))
    );
    assert_eq!(
        client.publish("a/#", vec![], PubOpt::at_most_once()),
        Err(Error::Mqtt(MQError::TopicNameMustNotContainWildcard))
    );
    assert_eq!(
        client.publish("a#", vec![], PubOpt::at_most_once()),
        Err(Error::Mqtt(MQError::InvalidTopicPath))
    );
    assert_eq!(client.take_output(), Vec::<u8>::new());
}

fn filters() -> Vec<SubscribeTopic> {
    vec![
        SubscribeTopic { topic_path: "a/+".to_owned(), qos: QoS::AtMostOnce },
        SubscribeTopic { topic_path: "#".to_owned(), qos: QoS::AtLeastOnce },
        SubscribeTopic { topic_path: "a/b/c".to_owned(), qos: QoS::ExactlyOnce },
    ]
}

fn suback(pid: u16, return_codes: Vec<SubscribeReturnCodes>) -> Packet {
    Packet::Suback(Box::new(Suback { pid: PacketIdentifier(pid), return_codes }))
}

#[test]
fn subscribe_installs_what_the_broker_grants() {
    let mut client = connected(options());
    assert_eq!(client.subscribe(filters()), Ok(Action::Flush(AfterFlush::Nothing)));
    assert_eq!(client.in_flight(), InFlight { await_suback: 1, ..nothing() });
    assert_eq!(
        client.take_output(),
        vec![
            0x82, 0x14, 0x00, 0x01, 0x00, 0x03, b'a', b'/', b'+', 0x00, 0x00, 0x01, b'#', 0x01,
            0x00, 0x05, b'a', b'/', b'b', b'/', b'c', 0x02,
        ]
    );
    let answer = suback(
        1,
        vec![
            SubscribeReturnCodes::Success(QoS::AtLeastOnce),
            SubscribeReturnCodes::Failure,
            SubscribeReturnCodes::Success(QoS::AtMostOnce),
        ],
    );
    assert_eq!(client.accept(Ok(answer)), Ok(Action::Done(None)));
    assert_eq!(client.in_flight(), nothing());
    assert_eq!(
        client.subscriptions(),
        vec![
            SubscribeTopic { topic_path: "a/+".to_owned(), qos: QoS::AtLeastOnce },
            SubscribeTopic { topic_path: "a/b/c".to_owned(), qos: QoS::AtMostOnce },
        ]
    );
    // a filter that is granted again takes the place of the one before
    client
        .subscribe(vec![SubscribeTopic { topic_path: "a/+".to_owned(), qos: QoS::ExactlyOnce }])
        .unwrap();
    client.accept(Ok(suback(2, vec![SubscribeReturnCodes::Success(QoS::ExactlyOnce)]))).unwrap();
    assert_eq!(
        client.subscriptions(),
        vec![
            SubscribeTopic { topic_path: "a/+".to_owned(), qos: QoS::ExactlyOnce },
            SubscribeTopic { topic_path: "a/b/c".to_owned(), qos: QoS::AtMostOnce },
        ]
    );
}

#[test]
fn a_suback_of_another_arity_is_a_protocol_violation() {
    let mut client = connected(options());
    assert_eq!(
        client.accept(Ok(suback(1, vec![SubscribeReturnCodes::Failure]))),
        Err(Error::ProtocolViolation)
    );
    client.subscribe(filters()).unwrap();
    let two = vec![SubscribeReturnCodes::Failure, SubscribeReturnCodes::Failure];
    assert_eq!(client.accept(Ok(suback(1, two))), Err(Error::ProtocolViolation));
    assert_eq!(client.in_flight(), nothing());
    assert_eq!(client.subscriptions(), vec![]);
    client.subscribe(filters()).unwrap();
    let three = vec![SubscribeReturnCodes::Failure; 3];
    assert_eq!(client.accept(Ok(suback(9, three))), Err(Error::ProtocolViolation));
    client.subscribe(filters()).unwrap();
    let four = vec![SubscribeReturnCodes::Success(QoS::AtMostOnce); 4];
    assert_eq!(client.accept(Ok(suback(4, four))), Err(Error::ProtocolViolation));
    assert_eq!(client.subscriptions(), vec![]);
}

#[test]
fn a_granted_filter_that_is_no_topic_path_ends_the_installing() {
    let mut client = connected(options());
    client
        .subscribe(vec![
            SubscribeTopic { topic_path: "ok".to_owned(), qos: QoS::AtMostOnce },
            SubscribeTopic { topic_path: "a#".to_owned(), qos: QoS::AtMostOnce },
            SubscribeTopic { topic_path: "late".to_owned(), qos: QoS::AtMostOnce },
        ])
        .unwrap();
    let granted = vec![SubscribeReturnCodes::Success(QoS::AtMostOnce); 3];
    assert_eq!(client.accept(Ok(suback(1, granted))), Err(Error::Mqtt(MQError::InvalidTopicPath)));
    assert_eq!(
        client.subscriptions(),
        vec![SubscribeTopic { topic_path: "ok".to_owned(), qos: QoS::AtMostOnce }]
    );
}

#[test]
fn unsubscribe_gives_the_filters_up() {
    let mut client = connected(options());
    client.subscribe(filters()).unwrap();
    client.accept(Ok(suback(1, vec![SubscribeReturnCodes::Success(QoS::AtMostOnce); 3]))).unwrap();
    client.take_output();
    assert_eq!(
        client.unsubscribe(vec!["#".to_owned(), "nothing".to_owned(), "a/+".to_owned()]),
        Ok(Action::Flush(AfterFlush::Nothing))
    );
    assert_eq!(client.in_flight(), InFlight { await_unsuback: 1, ..nothing() });
    assert_eq!(
        client.take_output(),
        vec![
            0xA2, 0x13, 0x00, 0x02, 0x00, 0x01, b'#', 0x00, 0x07, b'n', b'o', b't', b'h', b'i',
            b'n', b'g', 0x00, 0x03, b'a', b'/', b'+',
        ]
    );
    assert_eq!(client.accept(Ok(Packet::Unsuback(PacketIdentifier(2)))), Ok(Action::Done(None)));
    assert_eq!(
        client.subscriptions(),
        vec![SubscribeTopic { topic_path: "a/b/c".to_owned(), qos: QoS::AtMostOnce }]
    );
    assert_eq!(
        client.accept(Ok(Packet::Unsuback(PacketIdentifier(2)))),
        Err(Error::ProtocolViolation)
    );
    client.unsubscribe(vec!["a/b/c".to_owned()]).unwrap();
    assert_eq!(
        client.accept(Ok(Packet::Unsuback(PacketIdentifier(9)))),
        Err(Error::ProtocolViolation)
    );
    assert_eq!(client.subscriptions().len(), 1);
    assert_eq!(client.in_flight(), nothing());
}

#[test]
fn a_request_that_cannot_be_written_changes_nothing() {
    let mut client = connected(options());
    assert_eq!(client.subscribe(vec![]), Err(Error::Mqtt(MQError::PayloadRequired)));
    assert_eq!(
        client.unsubscribe(vec!["x".repeat(70000)]),
        Err(Error::Mqtt(MQError::PayloadTooLong))
    );
    assert_eq!(
        client.publish("t", vec![0u8; 268435455], PubOpt::at_least_once()),
        Err(Error::Mqtt(MQError::PayloadTooLong))
    );
    assert_eq!(client.in_flight(), nothing());
    assert_eq!(client.last_pid(), PacketIdentifier(0));
    assert_eq!(client.take_output(), Vec::<u8>::new());
}

#[test]
fn packets_for_a_broker_are_not_recognised() {
    let mut client = connected(options());
    for packet in [
        Packet::Pingreq,
        Packet::Disconnect,
        Packet::Unsubscribe(Box::new(mqttc::Unsubscribe {
            pid: PacketIdentifier(1),
            topics: vec![],
        })),
    ] {
        assert_eq!(client.accept(Ok(packet)), Err(Error::UnrecognizedPacket));
    }
    assert_eq!(client.state(), ClientState::Connected);
}

#[test]
fn keep_alive_pings_once_then_lets_go() {
    let mut opts = options();
    opts.set_keep_alive(10);
    let mut client = connected(opts);
    client._flush(AfterFlush::Nothing, Ok(100 * SECOND)).unwrap();
    assert_eq!(client.poll(100 * SECOND), Ok(Poll::Read(Some(10 * SECOND))));
    assert_eq!(client.poll(104 * SECOND + 1), Ok(Poll::Read(Some(6 * SECOND - 1))));
    assert_eq!(client.poll(99 * SECOND), Ok(Poll::Read(Some(10 * SECOND))));
    assert_eq!(client.poll(110 * SECOND - 1), Ok(Poll::Read(Some(1))));
    assert_eq!(client.poll(110 * SECOND), Err(Error::Timeout));
    assert_eq!(client.poll(u64::MAX), Err(Error::Timeout));

    assert_eq!(client.await_turn(Err(Error::Timeout)), Ok(Wait::Ping));
    assert!(client.awaits_ping());
    assert_eq!(client.take_output(), vec![0xC0, 0x00]);
    assert_eq!(client.state(), ClientState::Connected);
    // the flush of the PINGREQ failed, or the PINGRESP does not come
    assert_eq!(client.await_turn(Err(Error::Timeout)), Ok(Wait::Again));
    assert_eq!(client.state(), ClientState::Disconnected);
    assert!(!client.awaits_ping());
    assert_eq!(client.take_output(), Vec::<u8>::new());
    assert_eq!(client.await_turn(Err(Error::Timeout)), Err(Error::Timeout));
}

#[test]
fn a_pingresp_ends_the_wait_for_it() {
    let mut client = connected(options());
    assert_eq!(client.ping(), Ok(Action::Flush(AfterFlush::Nothing)));
    assert!(client.awaits_ping());
    assert!(!client._normalized());
    assert_eq!(client.take_output(), vec![0xC0, 0x00]);
    assert_eq!(client.await_turn(Ok(None)), Ok(Wait::Again));
    assert_eq!(client.accept(Ok(Packet::Pingresp)), Ok(Action::Done(None)));
    assert!(!client.awaits_ping());
    assert_eq!(client.await_turn(Ok(None)), Ok(Wait::Ready(None)));
}

#[test]
fn await_hands_messages_and_errors_on() {
    let mut client = connected(options());
    let m = message(QoS::AtMostOnce, None);
    assert_eq!(client.await_turn(Ok(Some(m.clone()))), Ok(Wait::Ready(Some(m))));
    assert_eq!(client.await_turn(Err(Error::ProtocolViolation)), Err(Error::ProtocolViolation));
    client.publish("t", vec![], PubOpt::at_least_once()).unwrap();
    assert_eq!(client.await_turn(Ok(None)), Ok(Wait::Again));
    let (mut fresh, _) = options().connect(0).unwrap();
    assert_eq!(fresh.await_turn(Err(Error::Timeout)), Err(Error::Timeout));
    assert_eq!(fresh.await_turn(Ok(None)), Ok(Wait::Again));
}

#[test]
fn without_keep_alive_reads_are_not_bounded() {
    // the settings always hold a keep-alive; a client polls by its state
    let client = connected(options());
    assert_eq!(client.poll(29 * SECOND), Ok(Poll::Read(Some(SECOND))));
    assert_eq!(client.poll(30 * SECOND), Err(Error::Timeout));
    let mut zero = options();
    zero.set_keep_alive(0);
    assert_eq!(connected(zero).poll(0), Err(Error::Timeout));
}

#[test]
fn a_lost_connection_asks_the_reconnect_policy() {
    for lost in [
        MQError::UnexpectedEof,
        MQError::Io(IoErrorKind::UnexpectedEof),
        MQError::Io(IoErrorKind::ConnectionRefused),
        MQError::Io(IoErrorKind::ConnectionReset),
        MQError::Io(IoErrorKind::ConnectionAborted),
    ] {
        let mut client = connected(options());
        client.subscribe(filters()).unwrap();
        client.publish("t", vec![], PubOpt::at_least_once()).unwrap();
        assert_eq!(client.accept(Err(lost)), Err(Error::Disconnected));
        assert_eq!(client.state(), ClientState::Disconnected);
        // the publish queues are kept, the waits for SUBACK are not
        assert_eq!(client.in_flight(), InFlight { outgoing_ack: 1, ..nothing() });
        assert_eq!(client.poll(0), Err(Error::Disconnected));
        assert_eq!(client._try_reconnect(), Err(Error::Disconnected));

        let after = Duration::from_millis(250);
        let mut client = connected(options());
        client.set_reconnect(ReconnectMethod::ReconnectAfter(after));
        assert_eq!(client.accept(Err(lost)), Ok(Action::Reconnect(after)));
        assert_eq!(client.state(), ClientState::Disconnected);
        assert_eq!(client.poll(0), Ok(Poll::Reconnect(after)));
        assert_eq!(client._try_reconnect(), Ok(Action::Reconnect(after)));
    }
}

#[test]
fn other_failures_of_the_transport_are_told_apart() {
    let mut client = connected(options());
    assert_eq!(client.accept(Err(MQError::Io(IoErrorKind::WouldBlock))), Err(Error::Timeout));
    assert_eq!(client.accept(Err(MQError::Io(IoErrorKind::TimedOut))), Err(Error::Timeout));
    assert_eq!(client.state(), ClientState::Connected);
    assert_eq!(
        client.accept(Err(MQError::MalformedRemainingLength)),
        Err(Error::Mqtt(MQError::MalformedRemainingLength))
    );
    assert_eq!(client.state(), ClientState::Connected);
    assert_eq!(
        client.accept(Err(MQError::Io(IoErrorKind::Other))),
        Err(Error::Io(IoErrorKind::Other))
    );
    assert_eq!(client.state(), ClientState::Disconnected);
    // without a connection every packet aborts
    assert_eq!(client.accept(Ok(Packet::Pingresp)), Err(Error::ConnectionAbort));
    assert_eq!(client._parse_packet(Packet::Pingresp), Err(Error::ConnectionAbort));
}

#[test]
fn reconnect_shakes_hands_and_asks_for_the_subscriptions_again() {
    let mut client = connected(options());
    assert_eq!(client.reconnect(), Ok(Action::Done(None)));
    assert_eq!(client.take_output(), Vec::<u8>::new());
    client.subscribe(filters()).unwrap();
    client.accept(Ok(suback(1, vec![SubscribeReturnCodes::Success(QoS::AtLeastOnce); 3]))).unwrap();
    client.take_output();
    client.terminate();
    assert_eq!(client.state(), ClientState::Disconnected);

    assert_eq!(client.reconnect(), Ok(Action::Flush(AfterFlush::Nothing)));
    assert_eq!(client.state(), ClientState::Handshake);
    let written = packets(&client.take_output());
    assert!(matches!(&written[..], [Packet::Connect(c)] if c.client_id == "test"));
    client.accept(Ok(accepted())).unwrap();
    client._resubscribe();
    assert_eq!(client.in_flight(), InFlight { await_suback: 1, ..nothing() });
    assert_eq!(client.subscriptions().len(), 3);
    let again = packets(&client.take_output());
    match &again[..] {
        [Packet::Subscribe(s)] => {
            assert_eq!(s.pid, PacketIdentifier(2));
            assert_eq!(
                s.topics,
                vec![
                    SubscribeTopic { topic_path: "a/+".to_owned(), qos: QoS::AtLeastOnce },
                    SubscribeTopic { topic_path: "#".to_owned(), qos: QoS::AtLeastOnce },
                    SubscribeTopic { topic_path: "a/b/c".to_owned(), qos: QoS::AtLeastOnce },
                ]
            );
        }
        other => panic!("{:?}", other),
    }
}

#[test]
fn resubscribe_without_subscriptions_writes_nothing() {
    let mut client = connected(options());
    client._resubscribe();
    assert_eq!(client.take_output(), Vec::<u8>::new());
    assert_eq!(client.in_flight(), nothing());
    assert_eq!(client.last_pid(), PacketIdentifier(0));
}

#[test]
fn disconnect_and_its_packet() {
    let mut client = connected(options());
    client._disconnect();
    assert_eq!(client.take_output(), vec![0xE0, 0x00]);
    assert_eq!(client._write_packet(&Packet::Pingreq), Ok(()));
    assert_eq!(
        client._write_packet(&publish(QoS::AtLeastOnce, None)),
        Err(Error::Mqtt(MQError::IncorrectPacketFormat))
    );
    assert_eq!(client.take_output(), vec![0xC0, 0x00]);
    assert_eq!(client._connect(), Ok(Action::Flush(AfterFlush::Nothing)));
    assert!(matches!(&packets(&client.take_output())[..], [Packet::Connect(_)]));
    assert_eq!(client._next_pid(), PacketIdentifier(1));
    assert_eq!(client._next_pid(), PacketIdentifier(2));
    client._disconnect();
    assert_eq!(client.disconnect(), vec![0xE0, 0x00]);
}

#[test]
fn the_store_in_memory_keeps_by_packet_identifier() {
    let mut store = MemoryStorage::new();
    let m = message(QoS::ExactlyOnce, Some(3));
    assert_eq!(store.get(PacketIdentifier(3)), Err(StorageError::NotFound(PacketIdentifier(3))));
    assert_eq!(store.put(m.clone()), Ok(()));
    assert_eq!(store.get(PacketIdentifier(3)), Ok(m.clone()));
    assert_eq!(store.get(PacketIdentifier(4)), Err(StorageError::NotFound(PacketIdentifier(4))));
    assert_eq!(store.delete(PacketIdentifier(3)), Ok(()));
    assert_eq!(store.delete(PacketIdentifier(3)), Ok(()));
    assert_eq!(store.get(PacketIdentifier(3)), Err(StorageError::NotFound(PacketIdentifier(3))));
}

#[test]
fn publishing_options_name_level_and_retain() {
    assert_eq!(PubOpt::at_most_once().qos(), QoS::AtMostOnce);
    assert_eq!(PubOpt::at_least_once().qos(), QoS::AtLeastOnce);
    assert_eq!(PubOpt::exactly_once().qos(), QoS::ExactlyOnce);
    assert_eq!(PubOpt::exactly_once().is_retain(), false);
    assert_eq!(PubOpt::new(QoS::AtMostOnce, true).is_retain(), true);
    assert_eq!(
        PacketIdentifierError::UnhandledPubrec(PacketIdentifier(4)).pid(),
        PacketIdentifier(4)
    );
}

#[test]
fn a_message_that_the_store_has_lost_is_a_storage_error() {
    let mut client = connected(with_stores());
    let pid = PacketIdentifier(7);
    // the same packet identifier twice: the store keeps one message
    client.accept(Ok(publish(QoS::ExactlyOnce, Some(7)))).unwrap();
    client.accept(Ok(publish(QoS::ExactlyOnce, Some(7)))).unwrap();
    assert_eq!(client.in_flight(), InFlight { incoming_rec: 2, ..nothing() });
    assert!(matches!(client.accept(Ok(Packet::Pubrel(pid))), Ok(Action::Done(Some(_)))));
    assert_eq!(client.complete(pid), Ok(Action::Flush(AfterFlush::Complete(pid))));
    assert_eq!(client._flush(AfterFlush::Complete(pid), Ok(SECOND)), Ok(None));
    assert_eq!(
        client.accept(Ok(Packet::Pubrel(pid))),
        Err(Error::Storage(StorageError::NotFound(pid)))
    );
    assert_eq!(client.in_flight(), nothing());
}

#[test]
fn a_store_that_fails_on_put_stops_the_exchange() {
    let mut client = connected(with_stores());
    let failed = Err(StorageError::Unavailable);
    assert_eq!(
        client._after_put_incoming(PacketIdentifier(4), failed),
        Err(Error::Storage(StorageError::Unavailable))
    );
    assert_eq!(
        client._after_put_outgoing(message(QoS::ExactlyOnce, Some(4)), vec![1, 2], failed),
        Err(Error::Storage(StorageError::Unavailable))
    );
    assert_eq!(client.in_flight(), nothing());
    assert_eq!(client.take_output(), Vec::<u8>::new());
}

#[test]
fn a_store_that_took_the_message_lets_the_exchange_go_on() {
    let mut client = connected(with_stores());
    assert_eq!(
        client._after_put_incoming(PacketIdentifier(4), Ok(())),
        Ok(Action::Flush(AfterFlush::Nothing))
    );
    assert_eq!(client.take_output(), vec![0x50, 0x02, 0x00, 0x04]);
    assert_eq!(
        client._after_put_outgoing(message(QoS::ExactlyOnce, Some(4)), vec![1, 2], Ok(())),
        Ok(())
    );
    assert_eq!(client.in_flight(), InFlight { outgoing_rec: 1, ..nothing() });
    assert_eq!(client.take_output(), vec![1, 2]);
}

#[test]
fn what_the_store_gives_for_a_pubrel_goes_to_the_user() {
    let mut client = connected(with_stores());
    let pid = PacketIdentifier(4);
    let m = message(QoS::ExactlyOnce, Some(4));
    assert_eq!(client._after_get(pid, Ok(m.clone())), Ok(Action::Done(Some(m))));
    assert_eq!(client.in_flight(), InFlight { incoming_rel: 1, ..nothing() });
    assert_eq!(
        client._after_get(pid, Err(StorageError::NotFound(pid))),
        Err(Error::Storage(StorageError::NotFound(pid)))
    );
    assert_eq!(client.in_flight(), InFlight { incoming_rel: 1, ..nothing() });
}

#[test]
fn a_store_that_fails_on_delete_is_an_error() {
    assert_eq!(Client::_after_delete(Ok(())), Ok(None));
    assert_eq!(
        Client::_after_delete(Err(StorageError::Unavailable)),
        Err(Error::Storage(StorageError::Unavailable))
    );
}
