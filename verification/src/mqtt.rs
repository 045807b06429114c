//! The control packets, and the mathematical values that stand for them in
//! contracts.

use vstd::prelude::*;
use std::sync::Arc;
use crate::proto::{
    ConnectReturnCode, LastWill, LastWillView, PacketIdentifier, Protocol, QoS,
    SubscribeReturnCodes, SubscribeTopic, SubscribeTopicView,
};

verus! {

/// The client's request to open a session.
#[derive(Debug, Clone, PartialEq, Eq)]
pub struct Connect {
    pub protocol: Protocol,
    pub keep_alive: u16,
    pub client_id: String,
    pub clean_session: bool,
    pub last_will: Option<LastWill>,
    pub username: Option<String>,
    pub password: Option<String>,
}

/// What a [`Connect`] holds.
pub struct ConnectView {
    pub protocol: Protocol,
    pub keep_alive: u16,
    pub client_id: Seq<char>,
    pub clean_session: bool,
    pub last_will: Option<LastWillView>,
    pub username: Option<Seq<char>>,
    pub password: Option<Seq<char>>,
}

/// The contents of an optional string.
pub open spec fn opt_text(s: Option<String>) -> Option<Seq<char>> {
    match s {
        Some(s) => Some(s@),
        None => None,
    }
}

/// The contents of an optional last will.
pub open spec fn opt_will(w: Option<LastWill>) -> Option<LastWillView> {
    match w {
        Some(w) => Some(w@),
        None => None,
    }
}

impl View for Connect {
    type V = ConnectView;

    open spec fn view(&self) -> ConnectView {
        ConnectView {
            protocol: self.protocol,
            keep_alive: self.keep_alive,
            client_id: self.client_id@,
            clean_session: self.clean_session,
            last_will: opt_will(self.last_will),
            username: opt_text(self.username),
            password: opt_text(self.password),
        }
    }
}

/// The broker's answer to a CONNECT packet.
#[derive(Debug, Clone, Copy, PartialEq, Eq, Structural)]
pub struct Connack {
    pub session_present: bool,
    pub code: ConnectReturnCode,
}

/// An application message on the wire.
#[derive(Debug, Clone, PartialEq, Eq)]
pub struct Publish {
    pub dup: bool,
    pub qos: QoS,
    pub retain: bool,
    pub topic_name: String,
    pub pid: Option<PacketIdentifier>,
    pub payload: Arc<Vec<u8>>,
}

/// What a [`Publish`] holds.
pub struct PublishView {
    pub dup: bool,
    pub qos: QoS,
    pub retain: bool,
    pub topic_name: Seq<char>,
    pub pid: Option<PacketIdentifier>,
    pub payload: Seq<u8>,
}

impl View for Publish {
    type V = PublishView;

    open spec fn view(&self) -> PublishView {
        PublishView {
            dup: self.dup,
            qos: self.qos,
            retain: self.retain,
            topic_name: self.topic_name@,
            pid: self.pid,
            payload: self.payload@,
        }
    }
}

/// A request to receive the messages that match some topic filters.
#[derive(Debug, Clone, PartialEq, Eq)]
pub struct Subscribe {
    pub pid: PacketIdentifier,
    pub topics: Vec<SubscribeTopic>,
}

/// What a [`Subscribe`] holds.
pub struct SubscribeView {
    pub pid: PacketIdentifier,
    pub topics: Seq<SubscribeTopicView>,
}

/// The contents of a list of topic filters with their levels.
pub open spec fn filters_view(topics: Seq<SubscribeTopic>) -> Seq<SubscribeTopicView> {
    Seq::new(topics.len(), |i: int| topics[i]@)
}

/// The contents of a list of strings.
pub open spec fn texts_view(texts: Seq<String>) -> Seq<Seq<char>> {
    Seq::new(texts.len(), |i: int| texts[i]@)
}

impl View for Subscribe {
    type V = SubscribeView;

    open spec fn view(&self) -> SubscribeView {
        SubscribeView { pid: self.pid, topics: filters_view(self.topics@) }
    }
}

/// The broker's answer to a SUBSCRIBE packet, one code for each filter.
#[derive(Debug, Clone, PartialEq, Eq)]
pub struct Suback {
    pub pid: PacketIdentifier,
    pub return_codes: Vec<SubscribeReturnCodes>,
}

/// What a [`Suback`] holds.
pub struct SubackView {
    pub pid: PacketIdentifier,
    pub return_codes: Seq<SubscribeReturnCodes>,
}

impl View for Suback {
    type V = SubackView;

    open spec fn view(&self) -> SubackView {
        SubackView { pid: self.pid, return_codes: self.return_codes@ }
    }
}

/// A request to stop receiving the messages that match some topic filters.
#[derive(Debug, Clone, PartialEq, Eq)]
pub struct Unsubscribe {
    pub pid: PacketIdentifier,
    pub topics: Vec<String>,
}

/// What an [`Unsubscribe`] holds.
pub struct UnsubscribeView {
    pub pid: PacketIdentifier,
    pub topics: Seq<Seq<char>>,
}

impl View for Unsubscribe {
    type V = UnsubscribeView;

    open spec fn view(&self) -> UnsubscribeView {
        UnsubscribeView { pid: self.pid, topics: texts_view(self.topics@) }
    }
}

/// A control packet.
#[derive(Debug, Clone, PartialEq, Eq)]
pub enum Packet {
    Connect(Box<Connect>),
    Connack(Connack),
    Publish(Box<Publish>),
    Puback(PacketIdentifier),
    Pubrec(PacketIdentifier),
    Pubrel(PacketIdentifier),
    Pubcomp(PacketIdentifier),
    Subscribe(Box<Subscribe>),
    Suback(Box<Suback>),
    Unsubscribe(Box<Unsubscribe>),
    Unsuback(PacketIdentifier),
    Pingreq,
    Pingresp,
    Disconnect,
}

/// What a [`Packet`] holds.
pub enum PacketView {
    Connect(ConnectView),
    Connack(Connack),
    Publish(PublishView),
    Puback(PacketIdentifier),
    Pubrec(PacketIdentifier),
    Pubrel(PacketIdentifier),
    Pubcomp(PacketIdentifier),
    Subscribe(SubscribeView),
    Suback(SubackView),
    Unsubscribe(UnsubscribeView),
    Unsuback(PacketIdentifier),
    Pingreq,
    Pingresp,
    Disconnect,
}

impl View for Packet {
    type V = PacketView;

    open spec fn view(&self) -> PacketView {
        match self {
            Packet::Connect(c) => PacketView::Connect(c@),
            Packet::Connack(c) => PacketView::Connack(*c),
            Packet::Publish(p) => PacketView::Publish(p@),
            Packet::Puback(pid) => PacketView::Puback(*pid),
            Packet::Pubrec(pid) => PacketView::Pubrec(*pid),
            Packet::Pubrel(pid) => PacketView::Pubrel(*pid),
            Packet::Pubcomp(pid) => PacketView::Pubcomp(*pid),
            Packet::Subscribe(s) => PacketView::Subscribe(s@),
            Packet::Suback(s) => PacketView::Suback(s@),
            Packet::Unsubscribe(u) => PacketView::Unsubscribe(u@),
            Packet::Unsuback(pid) => PacketView::Unsuback(*pid),
            Packet::Pingreq => PacketView::Pingreq,
            Packet::Pingresp => PacketView::Pingresp,
            Packet::Disconnect => PacketView::Disconnect,
        }
    }
}

} // verus!
