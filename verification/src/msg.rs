//! Application messages, apart from the packets that carry them.

use vstd::prelude::*;
use std::sync::Arc;
use crate::mq_error::MQError;
use crate::mqtt::{Publish, PublishView};
use crate::proto::{PacketIdentifier, QoS};
use crate::topic::{to_topic_name, topic_name_of, TopicPath, TopicPathView};

verus! {

/// A message as the application sees it.
#[derive(Debug, Clone, PartialEq, Eq)]
pub struct Message {
    pub topic: TopicPath,
    pub qos: QoS,
    pub retain: bool,
    pub pid: Option<PacketIdentifier>,
    pub payload: Arc<Vec<u8>>,
}

/// What a [`Message`] holds.
pub struct MessageView {
    pub topic: TopicPathView,
    pub qos: QoS,
    pub retain: bool,
    pub pid: Option<PacketIdentifier>,
    pub payload: Seq<u8>,
}

impl MessageView {
    /// The number that a store keeps the message under: that of its packet
    /// identifier.
    pub open spec fn key(self) -> u16 {
        match self.pid {
            Some(pid) => pid.0,
            None => 0,
        }
    }
}

impl View for Message {
    type V = MessageView;

    open spec fn view(&self) -> MessageView {
        MessageView {
            topic: self.topic@,
            qos: self.qos,
            retain: self.retain,
            pid: self.pid,
            payload: self.payload@,
        }
    }
}

/// The message that a PUBLISH packet carries, if its topic is a topic name.
pub open spec fn message_of(publish: PublishView) -> Result<MessageView, MQError> {
    match topic_name_of(publish.topic_name) {
        Err(e) => Err(e),
        Ok(topic) => Ok(
            MessageView {
                topic,
                qos: publish.qos,
                retain: publish.retain,
                pid: publish.pid,
                payload: publish.payload,
            },
        ),
    }
}

/// The PUBLISH packet that carries a message, at the level `qos` if one is
/// given and at the message's own otherwise.
pub open spec fn publish_of(message: MessageView, qos: Option<QoS>, dup: bool) -> PublishView {
    PublishView {
        dup,
        qos: match qos {
            Some(qos) => qos,
            None => message.qos,
        },
        retain: message.retain,
        topic_name: message.topic.path,
        pid: message.pid,
        payload: message.payload,
    }
}

impl Message {
    /// The message that a PUBLISH packet carries.
    pub fn from_pub(publish: Box<Publish>) -> (r: Result<Box<Message>, MQError>)
        ensures
            match message_of(publish@) {
                Ok(message) => r matches Ok(m) && m@ == message,
                Err(e) => r == Err::<Box<Message>, MQError>(e),
            },
    {
        let topic = to_topic_name(publish.topic_name.as_str())?;
        Ok(
            Box::new(
                Message {
                    topic,
                    qos: publish.qos,
                    retain: publish.retain,
                    pid: publish.pid,
                    payload: publish.payload.clone(),
                },
            ),
        )
    }

    /// The PUBLISH packet that carries this message.
    pub fn to_pub(&self, qos: Option<QoS>, dup: bool) -> (r: Box<Publish>)
        ensures
            r@ == publish_of(self@, qos, dup),
    {
        let qos = match qos {
            Some(qos) => qos,
            None => self.qos,
        };
        Box::new(
            Publish {
                dup,
                qos,
                retain: self.retain,
                topic_name: self.topic.path(),
                pid: self.pid,
                payload: self.payload.clone(),
            },
        )
    }

    /// A copy with the same contents, which shares the payload.
    pub fn duplicate(&self) -> (r: Box<Message>)
        ensures
            r@ == self@,
    {
        Box::new(
            Message {
                topic: self.topic.duplicate(),
                qos: self.qos,
                retain: self.retain,
                pid: self.pid,
                payload: self.payload.clone(),
            },
        )
    }
}

} // verus!
