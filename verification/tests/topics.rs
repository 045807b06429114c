use std::sync::Arc;

use mqttc::{
    client_id_from, decimal_text, to_topic_name, to_topic_path, MQError, Message,
    PacketIdentifier, Publish, QoS, TopicPath,
};

#[test]
fn topic_names_hold_no_wildcard() {
    let topic = to_topic_name("a/b/c").unwrap();
    assert_eq!(topic, TopicPath { path: "a/b/c".to_owned(), wildcards: false });
    assert_eq!(topic.path(), "a/b/c");
    assert_eq!(to_topic_name("a/+/c"), Err(MQError::TopicNameMustNotContainWildcard));
    assert_eq!(to_topic_name("#"), Err(MQError::TopicNameMustNotContainWildcard));
    assert_eq!(to_topic_name("").unwrap().wildcards, false);
}

#[test]
fn topic_filters_may_hold_wildcards() {
    assert_eq!(to_topic_path("a/+/c"), Ok(TopicPath { path: "a/+/c".to_owned(), wildcards: true }));
    assert_eq!(to_topic_path("#").unwrap().wildcards, true);
    assert_eq!(to_topic_path("+").unwrap().wildcards, true);
    assert_eq!(to_topic_path("+/+/#").unwrap().wildcards, true);
    assert_eq!(to_topic_path("/a//b/").unwrap().wildcards, false);
    assert_eq!(TopicPath::from_str("$SYS/x").unwrap().wildcards, false);
}

#[test]
fn misplaced_wildcards_are_no_topic_path() {
    for path in ["a+", "+a", "a/b+/c", "a/#/c", "#/a", "a#", "a/b#", "##", "++"] {
        assert_eq!(to_topic_path(path), Err(MQError::InvalidTopicPath), "{}", path);
        assert_eq!(to_topic_name(path), Err(MQError::InvalidTopicPath), "{}", path);
    }
}

#[test]
fn messages_come_from_and_go_to_publish_packets() {
    let publish = Publish {
        dup: true,
        qos: QoS::AtLeastOnce,
        retain: true,
        topic_name: "a/b".to_owned(),
        pid: Some(PacketIdentifier(9)),
        payload: Arc::new(vec![1, 2, 3]),
    };
    let message = Message::from_pub(Box::new(publish.clone())).unwrap();
    assert_eq!(message.topic.path(), "a/b");
    assert_eq!(message.qos, QoS::AtLeastOnce);
    assert_eq!(message.retain, true);
    assert_eq!(message.pid, Some(PacketIdentifier(9)));
    assert_eq!(*message.payload, vec![1, 2, 3]);
    assert_eq!(*message.to_pub(None, true), publish);
    let lower = message.to_pub(Some(QoS::AtMostOnce), false);
    assert_eq!(lower.qos, QoS::AtMostOnce);
    assert_eq!(lower.dup, false);
    assert_eq!(*message.duplicate(), *message);
    let wild = Publish { topic_name: "a/#".to_owned(), ..publish };
    assert_eq!(
        Message::from_pub(Box::new(wild)),
        Err(MQError::TopicNameMustNotContainWildcard)
    );
}

#[test]
fn numbers_are_written_in_decimal() {
    assert_eq!(decimal_text(0), "0");
    assert_eq!(decimal_text(7), "7");
    assert_eq!(decimal_text(10), "10");
    assert_eq!(decimal_text(1234567890), "1234567890");
    assert_eq!(decimal_text(u32::MAX), "4294967295");
    assert_eq!(client_id_from(42), "mqttc_42");
    assert_eq!(client_id_from(0), "mqttc_0");
}
