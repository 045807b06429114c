//! The core of a synchronous MQTT 3.1 / 3.1.1 client: the packet codec and
//! the session engine, with their behaviour stated in contracts and proved.
//!
//! The codec turns control packets into bytes and back. [`wire`] states
//! the format as mathematics; [`read`] and [`write`] hold the decoder and the
//! encoder, which are proved to follow it; [`laws`] and [`canonical`] prove
//! that what is written is read back, and when what is read is written back.
//!
//! The session engine keeps the state of a session: the exchanges under way,
//! the subscriptions, the keep-alive clock. It does no input or output.
//! [`session`] states what each operation does to a session; [`client`] holds
//! the operations, which are proved to do so; [`session_laws`] proves what
//! follows for whole exchanges. The owner of the transport reads packets,
//! hands them to the engine and does what the engine answers with.

pub mod bits;
pub mod canonical;
pub mod client;
pub mod error;
pub mod laws;
pub mod mq_error;
pub mod mqtt;
pub mod msg;
mod outside;
pub mod proto;
pub mod read;
pub mod session;
pub mod session_laws;
pub mod store;
pub mod subscription;
pub mod topic;
pub mod wire;
pub mod write;

pub use client::{
    client_id_from, decimal_text, Action, AfterFlush, Client, ClientOptions, InFlight, Poll,
    PubOpt, Wait,
};
pub use session::{ClientState, ClientView, OptionsView, ReconnectMethod};
pub use error::{Error, PacketIdentifierError, StorageError};
pub use mq_error::{IoErrorKind, MQError};
pub use msg::{Message, MessageView};
pub use store::{MemoryStorage, Store};
pub use subscription::{Subscription, SubscriptionView, Subscriptions};
pub use topic::{to_topic_name, to_topic_path, TopicPath, TopicPathView};
pub use mqtt::{
    Connack, Connect, ConnectView, Packet, PacketView, Publish, PublishView, Suback, SubackView,
    Subscribe, SubscribeView, Unsubscribe, UnsubscribeView,
};
pub use read::MqttRead;
pub use write::MqttWrite;
pub use proto::{
    ConnectReturnCode, Header, LastWill, LastWillView, PacketIdentifier, PacketType, Protocol,
    QoS, SubscribeReturnCodes, SubscribeTopic, SubscribeTopicView, MAX_PAYLOAD_SIZE, MULTIPLIER,
};
