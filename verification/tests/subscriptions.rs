use mqttc::{
    to_topic_path, PacketIdentifier, QoS, SubscribeTopic, Subscription, Subscriptions,
};

fn sub(pid: u16, path: &str, qos: QoS) -> Subscription {
    Subscription { pid: PacketIdentifier(pid), topic_path: to_topic_path(path).unwrap(), qos }
}

fn entry(path: &str, qos: QoS) -> SubscribeTopic {
    SubscribeTopic { topic_path: path.to_owned(), qos }
}

#[test]
fn subscriptions_keep_one_entry_for_a_filter() {
    let mut subs = Subscriptions::new();
    assert_eq!(subs.len(), 0);
    assert_eq!(subs.values(), vec![]);
    subs.insert(sub(1, "a/+", QoS::AtMostOnce));
    subs.insert(sub(1, "b", QoS::AtLeastOnce));
    subs.insert(sub(2, "c/#", QoS::ExactlyOnce));
    assert_eq!(subs.len(), 3);
    subs.insert(sub(3, "b", QoS::ExactlyOnce));
    assert_eq!(subs.len(), 3);
    assert_eq!(
        subs.values(),
        vec![
            entry("a/+", QoS::AtMostOnce),
            entry("b", QoS::ExactlyOnce),
            entry("c/#", QoS::ExactlyOnce),
        ]
    );
    assert!(subs.contains(&"b".to_owned()));
    assert!(!subs.contains(&"B".to_owned()));
}

#[test]
fn subscriptions_that_are_given_up_leave() {
    let mut subs = Subscriptions::new();
    subs.insert(sub(1, "a/+", QoS::AtMostOnce));
    subs.insert(sub(1, "b", QoS::AtLeastOnce));
    subs.insert(sub(2, "c/#", QoS::ExactlyOnce));
    subs.remove(&"b".to_owned());
    assert_eq!(subs.values(), vec![entry("a/+", QoS::AtMostOnce), entry("c/#", QoS::ExactlyOnce)]);
    subs.remove(&"b".to_owned());
    assert_eq!(subs.len(), 2);
    subs.remove(&"c/#".to_owned());
    subs.remove(&"a/+".to_owned());
    assert_eq!(subs.len(), 0);
    assert_eq!(sub(4, "x", QoS::AtLeastOnce).to_subscribe_topic(), entry("x", QoS::AtLeastOnce));
}
