//! The session engine as mathematics: the state of a session, and for each
//! operation the state that follows and what the operation answers.
//!
//! The engine does no input or output. It writes packets to a buffer and
//! says, with an [`ActionView`], what the owner of the transport has to do
//! next. A store may fail at any call, so an operation that calls one is
//! described for each outcome of the call.

use vstd::prelude::*;
use std::time::Duration;
use crate::error::{Error, PacketIdentifierError, StorageError};
use crate::mq_error::{IoErrorKind, MQError};
use crate::mqtt::{Connack, ConnectView, PacketView, SubackView, SubscribeView, UnsubscribeView};
use crate::msg::{message_of, publish_of, MessageView};
use crate::proto::{
    ConnectReturnCode, LastWillView, PacketIdentifier, Protocol, QoS, SubscribeReturnCodes,
    SubscribeTopicView,
};
use crate::subscription::{granted, requests, withdrawn, SubscriptionView};
use crate::topic::{topic_name_of, topic_path_of};
use crate::wire::encode;

verus! {

/// Where a session stands.
#[derive(Debug, Clone, Copy, PartialEq, Eq, Structural)]
pub enum ClientState {
    Handshake,
    Connected,
    Disconnected,
}

/// What to do when the connection is lost.
#[derive(Debug, Clone, Copy, PartialEq)]
pub enum ReconnectMethod {
    ForeverDisconnect,
    ReconnectAfter(Duration),
}

/// What the settings of a client hold.
pub struct OptionsView {
    pub protocol: Protocol,
    pub keep_alive: Option<u16>,
    pub clean_session: bool,
    pub client_id: Option<Seq<char>>,
    pub last_will: Option<LastWillView>,
    pub username: Option<Seq<char>>,
    pub password: Option<Seq<char>>,
    pub reconnect: ReconnectMethod,
    pub incoming_store: Option<Map<u16, MessageView>>,
    pub outgoing_store: Option<Map<u16, MessageView>>,
}

/// The state of a session.
pub struct ClientView {
    pub state: ClientState,
    pub opts: OptionsView,
    /// The bytes written and not yet handed to the transport.
    pub written: Seq<u8>,
    pub session_present: bool,
    /// When the transport was last flushed, in nanoseconds of the caller's
    /// clock.
    pub last_flush: u64,
    pub last_pid: PacketIdentifier,
    pub await_ping: bool,
    pub incoming_pub: Seq<MessageView>,
    pub incoming_rec: Seq<MessageView>,
    pub incoming_rel: Seq<PacketIdentifier>,
    pub outgoing_ack: Seq<MessageView>,
    pub outgoing_rec: Seq<MessageView>,
    pub outgoing_comp: Seq<PacketIdentifier>,
    pub await_suback: Seq<SubscribeView>,
    pub await_unsuback: Seq<UnsubscribeView>,
    pub subscriptions: Seq<SubscriptionView>,
}

/// What is left to do once written bytes have been flushed.
pub enum AfterFlushView {
    /// Nothing.
    Nothing,
    /// The message, acknowledged at level 1, goes to the user.
    Deliver(MessageView),
    /// The PUBREL went out: the exchange waits for its PUBCOMP, and the
    /// message leaves the outgoing store.
    Release(PacketIdentifier),
    /// The PUBCOMP went out: the message leaves the incoming store.
    Complete(PacketIdentifier),
}

/// What the owner of the transport has to do next.
pub enum ActionView {
    /// Nothing: the operation has ended, with a message for the user or
    /// without one.
    Done(Option<MessageView>),
    /// Send the written bytes and flush, then report how that went.
    Flush(AfterFlushView),
    /// Wait for the duration and connect anew.
    Reconnect(Duration),
}

/// What `accept` needs before it can go on.
pub enum PollView {
    /// Read one packet, giving up after that many nanoseconds if a number is
    /// given.
    Read(Option<u64>),
    /// Wait for the duration and connect anew.
    Reconnect(Duration),
}

/// How one turn of `await` ends.
pub enum WaitView {
    /// The wait is over, with a message for the user or without one.
    Ready(Option<MessageView>),
    /// Accept again.
    Again,
    /// A PINGREQ was written: send it, whether that works or not, and accept
    /// again.
    Ping,
}

/// The nanoseconds in a second.
pub open spec fn nanos_per_sec() -> nat {
    1_000_000_000
}

// ---------------------------------------------------------------------------
// small steps
// ---------------------------------------------------------------------------

/// The state after a packet that can be written has been written.
pub open spec fn wrote(s: ClientView, p: PacketView) -> ClientView {
    ClientView { written: s.written + encode(p)->Ok_0, ..s }
}

/// The state after the session has let go of its connection: the waits for
/// SUBACK, UNSUBACK and PINGRESP end, the publish queues stay.
pub open spec fn unbound(s: ClientView) -> ClientView {
    ClientView {
        await_unsuback: Seq::empty(),
        await_suback: Seq::empty(),
        await_ping: false,
        state: ClientState::Disconnected,
        ..s
    }
}

/// Whether the session is connected and waits for nothing: no PINGRESP is
/// awaited and every queue is empty.
pub open spec fn normalized(s: ClientView) -> bool {
    &&& s.state == ClientState::Connected
    &&& !s.await_ping
    &&& s.outgoing_ack.len() == 0
    &&& s.outgoing_rec.len() == 0
    &&& s.outgoing_comp.len() == 0
    &&& s.incoming_pub.len() == 0
    &&& s.incoming_rec.len() == 0
    &&& s.incoming_rel.len() == 0
    &&& s.await_suback.len() == 0
    &&& s.await_unsuback.len() == 0
}

/// The CONNECT packet that the settings make. Without a keep-alive the
/// packet asks for none; without a client identifier it holds an empty one.
pub open spec fn connect_packet(o: OptionsView) -> ConnectView {
    ConnectView {
        protocol: o.protocol,
        keep_alive: match o.keep_alive {
            Some(secs) => secs,
            None => 0,
        },
        client_id: match o.client_id {
            Some(id) => id,
            None => Seq::empty(),
        },
        clean_session: o.clean_session,
        last_will: o.last_will,
        username: o.username,
        password: o.password,
    }
}

/// What the reconnect policy says when the connection is lost.
pub open spec fn try_reconnect(s: ClientView) -> Result<ActionView, Error> {
    match s.opts.reconnect {
        ReconnectMethod::ForeverDisconnect => Err(Error::Disconnected),
        ReconnectMethod::ReconnectAfter(dur) => Ok(ActionView::Reconnect(dur)),
    }
}

/// The contents of a store after a call that may put a message into it.
pub open spec fn store_put(
    store: Option<Map<u16, MessageView>>,
    m: MessageView,
    put: Result<(), StorageError>,
) -> Option<Map<u16, MessageView>> {
    match store {
        Some(contents) => if put is Ok {
            Some(contents.insert(m.key(), m))
        } else {
            store
        },
        None => None,
    }
}

/// The contents of a store after a call that may delete from it.
pub open spec fn store_delete(
    store: Option<Map<u16, MessageView>>,
    pid: PacketIdentifier,
    delete: Result<(), StorageError>,
) -> Option<Map<u16, MessageView>> {
    match store {
        Some(contents) => if delete is Ok {
            Some(contents.remove(pid.0))
        } else {
            store
        },
        None => None,
    }
}

// ---------------------------------------------------------------------------
// after a call of a store
// ---------------------------------------------------------------------------

/// What follows the call that put a message of level 2 that is published
/// into the outgoing store: if it failed, its error; if not, the message
/// joins `outgoing_rec` and the bytes of its PUBLISH are written.
pub open spec fn after_put_outgoing(
    s: ClientView,
    m: MessageView,
    bytes: Seq<u8>,
    put: Result<(), StorageError>,
) -> (ClientView, Result<ActionView, Error>) {
    match put {
        Err(e) => (s, Err(Error::Storage(e))),
        Ok(_) => (
            ClientView { outgoing_rec: s.outgoing_rec.push(m), written: s.written + bytes, ..s },
            Ok(ActionView::Flush(AfterFlushView::Nothing)),
        ),
    }
}

/// What follows the call that put a message of level 2 that arrived into
/// the incoming store: if it failed, its error; if not, a PUBREC is written.
pub open spec fn after_put_incoming(
    s: ClientView,
    pid: PacketIdentifier,
    put: Result<(), StorageError>,
) -> (ClientView, Result<ActionView, Error>) {
    match put {
        Err(e) => (s, Err(Error::Storage(e))),
        Ok(_) => (
            wrote(s, PacketView::Pubrec(pid)),
            Ok(ActionView::Flush(AfterFlushView::Nothing)),
        ),
    }
}

/// What follows the call that asked the incoming store for the message of
/// a PUBREL: if it failed, its error; if not, the packet identifier joins
/// `incoming_rel` and the message goes to the user.
pub open spec fn after_get(
    s: ClientView,
    pid: PacketIdentifier,
    got: Result<MessageView, StorageError>,
) -> (ClientView, Result<ActionView, Error>) {
    match got {
        Err(e) => (s, Err(Error::Storage(e))),
        Ok(m) => (
            ClientView { incoming_rel: s.incoming_rel.push(pid), ..s },
            Ok(ActionView::Done(Some(m))),
        ),
    }
}

/// What follows the call that deleted a message from a store: its error if
/// it failed, nothing for the user if not.
pub open spec fn after_delete(delete: Result<(), StorageError>) -> Result<
    Option<MessageView>,
    Error,
> {
    match delete {
        Err(e) => Err(Error::Storage(e)),
        Ok(_) => Ok(None),
    }
}

/// The session with other contents of the outgoing store.
pub open spec fn with_outgoing_store(
    s: ClientView,
    store: Option<Map<u16, MessageView>>,
) -> ClientView {
    ClientView { opts: OptionsView { outgoing_store: store, ..s.opts }, ..s }
}

/// The session with other contents of the incoming store.
pub open spec fn with_incoming_store(
    s: ClientView,
    store: Option<Map<u16, MessageView>>,
) -> ClientView {
    ClientView { opts: OptionsView { incoming_store: store, ..s.opts }, ..s }
}

// ---------------------------------------------------------------------------
// user operations
// ---------------------------------------------------------------------------

/// The message that `publish` makes: without a packet identifier at level 0,
/// with the next one otherwise.
pub open spec fn outgoing_message(
    s: ClientView,
    topic: Seq<char>,
    payload: Seq<u8>,
    qos: QoS,
    retain: bool,
) -> Result<MessageView, MQError> {
    match topic_name_of(topic) {
        Err(e) => Err(e),
        Ok(topic) => Ok(
            MessageView {
                topic,
                qos,
                retain,
                pid: if qos == QoS::AtMostOnce {
                    None
                } else {
                    Some(s.last_pid.successor())
                },
                payload,
            },
        ),
    }
}

/// Publishing a message. The topic must be a topic name; else nothing
/// changes. At level 2 the outgoing store must be there: without one the
/// packet identifier is taken and the store's absence is the error, whatever
/// the packet. Then the packet must be one that can be written; else nothing
/// changes. At level 1 the message joins `outgoing_ack`. At level 2 it is put
/// into the outgoing store and joins `outgoing_rec`. Then the PUBLISH is
/// written. `put` is how the call of the store ended.
pub open spec fn publish(
    s: ClientView,
    topic: Seq<char>,
    payload: Seq<u8>,
    qos: QoS,
    retain: bool,
    put: Result<(), StorageError>,
) -> (ClientView, Result<ActionView, Error>) {
    match outgoing_message(s, topic, payload, qos, retain) {
        Err(e) => (s, Err(Error::Mqtt(e))),
        Ok(m) => {
            let packet = PacketView::Publish(publish_of(m, None, false));
            let s1 = ClientView { last_pid: s.last_pid.successor(), ..s };
            if qos == QoS::ExactlyOnce && s.opts.outgoing_store is None {
                (s1, Err(Error::OutgoingStorageAbsent))
            } else {
                match encode(packet) {
                    Err(e) => (s, Err(Error::Mqtt(e))),
                    Ok(bytes) => match qos {
                        QoS::AtMostOnce => (
                            wrote(s, packet),
                            Ok(ActionView::Flush(AfterFlushView::Nothing)),
                        ),
                        QoS::AtLeastOnce => (
                            wrote(
                                ClientView { outgoing_ack: s.outgoing_ack.push(m), ..s1 },
                                packet,
                            ),
                            Ok(ActionView::Flush(AfterFlushView::Nothing)),
                        ),
                        QoS::ExactlyOnce => after_put_outgoing(
                            with_outgoing_store(s1, store_put(s.opts.outgoing_store, m, put)),
                            m,
                            bytes,
                            put,
                        ),
                    },
                }
            }
        },
    }
}

/// Subscribing: the SUBSCRIBE takes the next packet identifier, joins
/// `await_suback` and is written. A packet that cannot be written changes
/// nothing.
pub open spec fn subscribe(s: ClientView, topics: Seq<SubscribeTopicView>) -> (
    ClientView,
    Result<ActionView, Error>,
) {
    let request = SubscribeView { pid: s.last_pid.successor(), topics };
    match encode(PacketView::Subscribe(request)) {
        Err(e) => (s, Err(Error::Mqtt(e))),
        Ok(_) => (
            wrote(
                ClientView {
                    last_pid: s.last_pid.successor(),
                    await_suback: s.await_suback.push(request),
                    ..s
                },
                PacketView::Subscribe(request),
            ),
            Ok(ActionView::Flush(AfterFlushView::Nothing)),
        ),
    }
}

/// Unsubscribing: the UNSUBSCRIBE takes the next packet identifier, joins
/// `await_unsuback` and is written. A packet that cannot be written changes
/// nothing.
pub open spec fn unsubscribe(s: ClientView, topics: Seq<Seq<char>>) -> (
    ClientView,
    Result<ActionView, Error>,
) {
    let request = UnsubscribeView { pid: s.last_pid.successor(), topics };
    match encode(PacketView::Unsubscribe(request)) {
        Err(e) => (s, Err(Error::Mqtt(e))),
        Ok(_) => (
            wrote(
                ClientView {
                    last_pid: s.last_pid.successor(),
                    await_unsuback: s.await_unsuback.push(request),
                    ..s
                },
                PacketView::Unsubscribe(request),
            ),
            Ok(ActionView::Flush(AfterFlushView::Nothing)),
        ),
    }
}

/// Pinging: the session waits for a PINGRESP, and a PINGREQ is written.
pub open spec fn ping(s: ClientView) -> ClientView {
    wrote(ClientView { await_ping: true, ..s }, PacketView::Pingreq)
}

/// The user confirms a message of level 2. If `pid` is the last entry of
/// `incoming_rel`, it leaves the queue, a PUBCOMP is written, and the message
/// leaves the incoming store once that is flushed. If it is not, or if the
/// queue is empty, that is a protocol violation and nothing changes: an
/// identifier stays in the queue until its PUBCOMP is written.
pub open spec fn complete(s: ClientView, pid: PacketIdentifier) -> (
    ClientView,
    Result<ActionView, Error>,
) {
    if s.incoming_rel.len() > 0 && s.incoming_rel.last() == pid {
        (
            wrote(
                ClientView { incoming_rel: s.incoming_rel.drop_last(), ..s },
                PacketView::Pubcomp(pid),
            ),
            Ok(ActionView::Flush(AfterFlushView::Complete(pid))),
        )
    } else {
        (s, Err(Error::ProtocolViolation))
    }
}

/// The handshake begins: a CONNECT is written, if the settings make one that
/// can be written.
pub open spec fn handshake(s: ClientView) -> (ClientView, Result<ActionView, Error>) {
    let s1 = ClientView { state: ClientState::Handshake, ..s };
    let packet = PacketView::Connect(connect_packet(s.opts));
    match encode(packet) {
        Err(e) => (s1, Err(Error::Mqtt(e))),
        Ok(_) => (wrote(s1, packet), Ok(ActionView::Flush(AfterFlushView::Nothing))),
    }
}

/// Connecting anew, on a transport that has just been opened: nothing if
/// the session is connected, else the handshake.
pub open spec fn reconnect(s: ClientView) -> (ClientView, Result<ActionView, Error>) {
    if s.state == ClientState::Connected {
        (s, Ok(ActionView::Done(None)))
    } else {
        handshake(s)
    }
}

/// Asking again for all the subscriptions of the session, after a
/// reconnect. The subscriptions stay as they are; if there are none, nothing
/// is written.
pub open spec fn resubscribe(s: ClientView) -> ClientView {
    subscribe(s, requests(s.subscriptions)).0
}

// ---------------------------------------------------------------------------
// after a flush
// ---------------------------------------------------------------------------

/// What follows a flush. A flush that failed is an error and changes
/// nothing. One that worked at the time `now` is noted, and what was left to
/// do is done. `delete` is how the call of the store ended, where one is
/// made.
pub open spec fn flushed(
    s: ClientView,
    after: AfterFlushView,
    outcome: Result<u64, IoErrorKind>,
    delete: Result<(), StorageError>,
) -> (ClientView, Result<Option<MessageView>, Error>) {
    match outcome {
        Err(kind) => (s, Err(Error::Io(kind))),
        Ok(now) => {
            let s1 = ClientView { last_flush: now, ..s };
            match after {
                AfterFlushView::Nothing => (s1, Ok(None)),
                AfterFlushView::Deliver(m) => (
                    ClientView {
                        incoming_pub: if s.incoming_pub.len() > 0 {
                            s.incoming_pub.drop_first()
                        } else {
                            s.incoming_pub
                        },
                        ..s1
                    },
                    Ok(Some(m)),
                ),
                AfterFlushView::Release(pid) => {
                    let s2 = ClientView { outgoing_comp: s.outgoing_comp.push(pid), ..s1 };
                    if s.opts.outgoing_store is None {
                        (s2, Err(Error::OutgoingStorageAbsent))
                    } else {
                        (
                            with_outgoing_store(
                                s2,
                                store_delete(s.opts.outgoing_store, pid, delete),
                            ),
                            after_delete(delete),
                        )
                    }
                },
                AfterFlushView::Complete(pid) => {
                    if s.opts.incoming_store is None {
                        (s1, Err(Error::IncomingStorageAbsent))
                    } else {
                        (
                            with_incoming_store(
                                s1,
                                store_delete(s.opts.incoming_store, pid, delete),
                            ),
                            after_delete(delete),
                        )
                    }
                },
            }
        },
    }
}

// ---------------------------------------------------------------------------
// inbound packets
// ---------------------------------------------------------------------------

/// What an operation answers that ends with a flush and nothing after it.
pub open spec fn flush_next(r: Result<(), Error>) -> Result<ActionView, Error> {
    match r {
        Ok(_) => Ok(ActionView::Flush(AfterFlushView::Nothing)),
        Err(e) => Err(e),
    }
}

/// A message arrives. At level 0 it goes to the user. At level 1 it joins
/// `incoming_pub` and a PUBACK is written; it goes to the user once that is
/// flushed. At level 2 it joins `incoming_rec` and is put into the incoming
/// store, which must be there; then a PUBREC is written. `put` is how the
/// call of the store ended. A message above level 0 without a packet
/// identifier is refused.
pub open spec fn handle_message(s: ClientView, m: MessageView, put: Result<(), StorageError>) -> (
    ClientView,
    Result<ActionView, Error>,
) {
    match m.qos {
        QoS::AtMostOnce => (s, Ok(ActionView::Done(Some(m)))),
        _ => match m.pid {
            None => (s, Err(Error::Mqtt(MQError::IncorrectPacketFormat))),
            Some(pid) => if m.qos == QoS::AtLeastOnce {
                (
                    wrote(
                        ClientView { incoming_pub: s.incoming_pub.push(m), ..s },
                        PacketView::Puback(pid),
                    ),
                    Ok(ActionView::Flush(AfterFlushView::Deliver(m))),
                )
            } else {
                let s1 = ClientView { incoming_rec: s.incoming_rec.push(m), ..s };
                if s.opts.incoming_store is None {
                    (s1, Err(Error::IncomingStorageAbsent))
                } else {
                    after_put_incoming(
                        with_incoming_store(s1, store_put(s.opts.incoming_store, m, put)),
                        pid,
                        put,
                    )
                }
            },
        },
    }
}

/// A PUBACK arrives: the head of `outgoing_ack` leaves the queue, and must
/// be the message that the PUBACK names.
pub open spec fn on_puback(s: ClientView, pid: PacketIdentifier) -> (
    ClientView,
    Result<ActionView, Error>,
) {
    let unhandled = Error::PacketIdentifierError(PacketIdentifierError::UnhandledPuback(pid));
    if s.outgoing_ack.len() == 0 {
        (s, Err(unhandled))
    } else {
        (
            ClientView { outgoing_ack: s.outgoing_ack.drop_first(), ..s },
            if s.outgoing_ack[0].pid == Some(pid) {
                Ok(ActionView::Done(None))
            } else {
                Err(unhandled)
            },
        )
    }
}

/// A PUBREC arrives: the head of `outgoing_rec` leaves the queue, and must
/// be the message that the PUBREC names. Then a PUBREL is written; the rest
/// follows its flush.
pub open spec fn on_pubrec(s: ClientView, pid: PacketIdentifier) -> (
    ClientView,
    Result<ActionView, Error>,
) {
    let unhandled = Error::PacketIdentifierError(PacketIdentifierError::UnhandledPubrec(pid));
    if s.outgoing_rec.len() == 0 {
        (s, Err(unhandled))
    } else {
        let s1 = ClientView { outgoing_rec: s.outgoing_rec.drop_first(), ..s };
        if s.outgoing_rec[0].pid == Some(pid) {
            (
                wrote(s1, PacketView::Pubrel(pid)),
                Ok(ActionView::Flush(AfterFlushView::Release(pid))),
            )
        } else {
            (s1, Err(unhandled))
        }
    }
}

/// A PUBREL arrives: the head of `incoming_rec` leaves the queue, and must
/// be the message that the PUBREL names. The message is taken from the
/// incoming store, which must be there, and goes to the user; its packet
/// identifier joins `incoming_rel`. `got` is what the store gave.
pub open spec fn on_pubrel(
    s: ClientView,
    pid: PacketIdentifier,
    got: Result<MessageView, StorageError>,
) -> (ClientView, Result<ActionView, Error>) {
    let unhandled = Error::PacketIdentifierError(PacketIdentifierError::UnhandledPubrel(pid));
    if s.incoming_rec.len() == 0 {
        (s, Err(unhandled))
    } else {
        let s1 = ClientView { incoming_rec: s.incoming_rec.drop_first(), ..s };
        if s.incoming_rec[0].pid != Some(pid) {
            (s1, Err(unhandled))
        } else if s.opts.incoming_store is None {
            (s1, Err(Error::IncomingStorageAbsent))
        } else {
            after_get(s1, pid, got)
        }
    }
}

/// A PUBCOMP arrives: the head of `outgoing_comp` leaves the queue.
pub open spec fn on_pubcomp(s: ClientView, pid: PacketIdentifier) -> (
    ClientView,
    Result<ActionView, Error>,
) {
    if s.outgoing_comp.len() == 0 {
        (s, Err(Error::PacketIdentifierError(PacketIdentifierError::UnhandledPubcomp(pid))))
    } else {
        (
            ClientView { outgoing_comp: s.outgoing_comp.drop_first(), ..s },
            Ok(ActionView::Done(None)),
        )
    }
}

/// The subscriptions after the answers from index `from` on have been
/// noted: each granted filter is installed, each refused one passed over. A
/// filter that is no topic path ends the work with an error; what was
/// installed before stays.
pub open spec fn install(
    subs: Seq<SubscriptionView>,
    request: SubscribeView,
    codes: Seq<SubscribeReturnCodes>,
    from: int,
) -> (Seq<SubscriptionView>, Result<(), MQError>)
    decreases request.topics.len() - from,
{
    if from < 0 || from >= request.topics.len() || from >= codes.len() {
        (subs, Ok(()))
    } else {
        match codes[from] {
            SubscribeReturnCodes::Failure => install(subs, request, codes, from + 1),
            SubscribeReturnCodes::Success(qos) => match topic_path_of(
                request.topics[from].topic_path,
            ) {
                Err(e) => (subs, Err(e)),
                Ok(topic_path) => install(
                    granted(subs, SubscriptionView { pid: request.pid, topic_path, qos }),
                    request,
                    codes,
                    from + 1,
                ),
            },
        }
    }
}

/// A SUBACK arrives: the head of `await_suback` leaves the queue; it must
/// have the SUBACK's packet identifier and as many filters as the SUBACK has
/// return codes. Then the granted subscriptions are installed.
pub open spec fn on_suback(s: ClientView, suback: SubackView) -> (
    ClientView,
    Result<ActionView, Error>,
) {
    if s.await_suback.len() == 0 {
        (s, Err(Error::ProtocolViolation))
    } else {
        let request = s.await_suback[0];
        let s1 = ClientView { await_suback: s.await_suback.drop_first(), ..s };
        if request.pid != suback.pid || request.topics.len() != suback.return_codes.len() {
            (s1, Err(Error::ProtocolViolation))
        } else {
            let (subs, r) = install(s.subscriptions, request, suback.return_codes, 0);
            (
                ClientView { subscriptions: subs, ..s1 },
                match r {
                    Ok(_) => Ok(ActionView::Done(None)),
                    Err(e) => Err(Error::Mqtt(e)),
                },
            )
        }
    }
}

/// The subscriptions after the filters from index `from` on have been given
/// up.
pub open spec fn uninstall(subs: Seq<SubscriptionView>, topics: Seq<Seq<char>>, from: int) -> Seq<
    SubscriptionView,
>
    decreases topics.len() - from,
{
    if from < 0 || from >= topics.len() {
        subs
    } else {
        uninstall(withdrawn(subs, topics[from]), topics, from + 1)
    }
}

/// An UNSUBACK arrives: the head of `await_unsuback` leaves the queue; it
/// must have the UNSUBACK's packet identifier. Then its filters are given up.
pub open spec fn on_unsuback(s: ClientView, pid: PacketIdentifier) -> (
    ClientView,
    Result<ActionView, Error>,
) {
    if s.await_unsuback.len() == 0 {
        (s, Err(Error::ProtocolViolation))
    } else {
        let request = s.await_unsuback[0];
        let s1 = ClientView { await_unsuback: s.await_unsuback.drop_first(), ..s };
        if request.pid != pid {
            (s1, Err(Error::ProtocolViolation))
        } else {
            (
                ClientView { subscriptions: uninstall(s.subscriptions, request.topics, 0), ..s1 },
                Ok(ActionView::Done(None)),
            )
        }
    }
}

/// A CONNACK arrives during the handshake: if it accepts, the session is
/// connected; if not, the connection is refused with the CONNACK's code.
pub open spec fn on_connack(s: ClientView, connack: Connack) -> (
    ClientView,
    Result<ActionView, Error>,
) {
    if connack.code == ConnectReturnCode::Accepted {
        (
            ClientView {
                session_present: connack.session_present,
                state: ClientState::Connected,
                ..s
            },
            Ok(ActionView::Done(None)),
        )
    } else {
        (s, Err(Error::ConnectionRefused(connack.code)))
    }
}

/// How the calls of the stores ended that the handling of one packet makes:
/// at most one of them is made.
pub struct StoreOutcome {
    pub put: Result<(), StorageError>,
    pub got: Result<MessageView, StorageError>,
}

/// Whether the outcome can be that of calls to the stores of the session
/// `s` while `packet` is handled: a message that the incoming store gave for
/// a PUBREL is the one that it held under the PUBREL's packet identifier.
pub open spec fn credible(s: ClientView, packet: PacketView, store: StoreOutcome) -> bool {
    packet matches PacketView::Pubrel(pid) ==> credible_get(s, pid, store.got)
}

/// Whether `got` can be what the incoming store of the session `s` gave
/// when it was asked for the message under `pid`.
pub open spec fn credible_get(
    s: ClientView,
    pid: PacketIdentifier,
    got: Result<MessageView, StorageError>,
) -> bool {
    got matches Ok(m) ==> (s.opts.incoming_store matches Some(kept) && kept.contains_key(pid.0)
        && kept[pid.0] == m)
}

/// A packet arrives. During the handshake only a CONNACK is in order. In a
/// connected session each kind has its own handling, and a kind that only a
/// broker receives is not recognised. Without a connection every packet
/// aborts.
pub open spec fn parse_packet(s: ClientView, packet: PacketView, store: StoreOutcome) -> (
    ClientView,
    Result<ActionView, Error>,
) {
    match s.state {
        ClientState::Handshake => match packet {
            PacketView::Connack(connack) => on_connack(s, connack),
            _ => (s, Err(Error::HandshakeFailed)),
        },
        ClientState::Connected => match packet {
            PacketView::Connack(_) => (s, Err(Error::AlreadyConnected)),
            PacketView::Publish(publish) => match message_of(publish) {
                Err(e) => (s, Err(Error::Mqtt(e))),
                Ok(m) => handle_message(s, m, store.put),
            },
            PacketView::Puback(pid) => on_puback(s, pid),
            PacketView::Pubrec(pid) => on_pubrec(s, pid),
            PacketView::Pubrel(pid) => on_pubrel(s, pid, store.got),
            PacketView::Pubcomp(pid) => on_pubcomp(s, pid),
            PacketView::Suback(suback) => on_suback(s, suback),
            PacketView::Unsuback(pid) => on_unsuback(s, pid),
            PacketView::Pingresp => (ClientView { await_ping: false, ..s }, Ok(ActionView::Done(None))),
            _ => (s, Err(Error::UnrecognizedPacket)),
        },
        ClientState::Disconnected => (s, Err(Error::ConnectionAbort)),
    }
}

// ---------------------------------------------------------------------------
// accept and await
// ---------------------------------------------------------------------------

/// The time since the last flush.
pub open spec fn elapsed(s: ClientView, now: u64) -> nat {
    if now >= s.last_flush {
        (now - s.last_flush) as nat
    } else {
        0
    }
}

/// What `accept` needs before it reads. With a connection: a read, bounded
/// by what is left of the keep-alive interval since the last flush, or a
/// timeout if nothing is left. Without one: what the reconnect policy says.
pub open spec fn poll(s: ClientView, now: u64) -> Result<PollView, Error> {
    match s.state {
        ClientState::Disconnected => match s.opts.reconnect {
            ReconnectMethod::ForeverDisconnect => Err(Error::Disconnected),
            ReconnectMethod::ReconnectAfter(dur) => Ok(PollView::Reconnect(dur)),
        },
        _ => match s.opts.keep_alive {
            None => Ok(PollView::Read(None)),
            Some(secs) => if elapsed(s, now) >= secs * nanos_per_sec() {
                Err(Error::Timeout)
            } else {
                Ok(PollView::Read(Some((secs * nanos_per_sec() - elapsed(s, now)) as u64)))
            },
        },
    }
}

/// Whether a transport failure of this kind means that the connection is
/// lost.
pub open spec fn connection_lost(kind: IoErrorKind) -> bool {
    kind == IoErrorKind::UnexpectedEof || kind == IoErrorKind::ConnectionRefused || kind
        == IoErrorKind::ConnectionReset || kind == IoErrorKind::ConnectionAborted
}

/// What `accept` does with what was read. A packet is handled; if that
/// aborts, the session lets go of its connection. A read that timed out is a
/// timeout. A lost connection makes the session let go of it and ask the
/// reconnect policy. Any other transport failure makes it let go and is
/// handed on, as is any other error of the codec.
pub open spec fn accept(s: ClientView, read: Result<PacketView, MQError>, store: StoreOutcome) -> (
    ClientView,
    Result<ActionView, Error>,
) {
    match read {
        Ok(packet) => {
            let (s1, r) = parse_packet(s, packet, store);
            if r == Err::<ActionView, Error>(Error::ConnectionAbort) {
                (unbound(s1), r)
            } else {
                (s1, r)
            }
        },
        Err(MQError::UnexpectedEof) => (unbound(s), try_reconnect(s)),
        Err(MQError::Io(kind)) => if kind == IoErrorKind::WouldBlock || kind
            == IoErrorKind::TimedOut {
            (s, Err(Error::Timeout))
        } else if connection_lost(kind) {
            (unbound(s), try_reconnect(s))
        } else {
            (unbound(s), Err(Error::Io(kind)))
        },
        Err(e) => (s, Err(Error::Mqtt(e))),
    }
}

/// One turn of `await`, on what `accept` answered. A message ends the wait.
/// A timeout in a connected session writes a PINGREQ if none is awaited, and
/// lets go of the connection if one is; elsewhere it is an error, as any other
/// error is. After that the wait ends without a message if the session is
/// connected and waits for nothing, and goes on if not.
pub open spec fn await_turn(s: ClientView, accepted: Result<Option<MessageView>, Error>) -> (
    ClientView,
    Result<WaitView, Error>,
) {
    match accepted {
        Ok(Some(m)) => (s, Ok(WaitView::Ready(Some(m)))),
        Ok(None) => (
            s,
            Ok(
                if normalized(s) {
                    WaitView::Ready(None)
                } else {
                    WaitView::Again
                },
            ),
        ),
        Err(Error::Timeout) => if s.state == ClientState::Connected {
            if !s.await_ping {
                (ping(s), Ok(WaitView::Ping))
            } else {
                (unbound(s), Ok(WaitView::Again))
            }
        } else {
            (s, Err(Error::Timeout))
        },
        Err(e) => (s, Err(e)),
    }
}

/// The session that a client starts with at the time `now`: disconnected,
/// with nothing under way, nothing written and no subscriptions.
pub open spec fn fresh(opts: OptionsView, now: u64) -> ClientView {
    ClientView {
        state: ClientState::Disconnected,
        opts,
        written: Seq::empty(),
        session_present: false,
        last_flush: now,
        last_pid: PacketIdentifier(0),
        await_ping: false,
        incoming_pub: Seq::empty(),
        incoming_rec: Seq::empty(),
        incoming_rel: Seq::empty(),
        outgoing_ack: Seq::empty(),
        outgoing_rec: Seq::empty(),
        outgoing_comp: Seq::empty(),
        await_suback: Seq::empty(),
        await_unsuback: Seq::empty(),
        subscriptions: Seq::empty(),
    }
}

/// The decimal digits of a number.
pub open spec fn decimal(n: nat) -> Seq<char>
    decreases n,
{
    if n < 10 {
        seq![digit(n)]
    } else {
        decimal(n / 10).push(digit(n % 10))
    }
}

/// The character of a digit.
pub open spec fn digit(d: nat) -> char {
    if d == 0 {
        '0'
    } else if d == 1 {
        '1'
    } else if d == 2 {
        '2'
    } else if d == 3 {
        '3'
    } else if d == 4 {
        '4'
    } else if d == 5 {
        '5'
    } else if d == 6 {
        '6'
    } else if d == 7 {
        '7'
    } else if d == 8 {
        '8'
    } else {
        '9'
    }
}

/// The client identifier that is made from a number: `mqttc_` and the
/// number's decimal digits.
pub open spec fn client_id_of(n: u32) -> Seq<char> {
    seq!['m', 'q', 't', 't', 'c', '_'] + decimal(n as nat)
}

/// What a read of the transport gave, as mathematics.
pub open spec fn read_view(read: Result<crate::mqtt::Packet, MQError>) -> Result<
    PacketView,
    MQError,
> {
    match read {
        Ok(packet) => Ok(packet@),
        Err(e) => Err(e),
    }
}

} // verus!
