//! What holds of the session engine whatever the session and the input.

use vstd::prelude::*;
use crate::error::{Error, PacketIdentifierError, StorageError};
use crate::mqtt::{PacketView, PublishView, SubackView};
use crate::msg::{message_of, MessageView};
use crate::proto::{PacketIdentifier, QoS};
use crate::session::{
    accept, await_turn, complete, elapsed, flushed, nanos_per_sec, parse_packet, poll, publish,
    ActionView, AfterFlushView, ClientState, ClientView, StoreOutcome, WaitView,
};
use crate::wire::encode;

verus! {

/// A PINGREQ on the wire is the two bytes `C0 00`.
pub proof fn lemma_pingreq_bytes()
    ensures
        encode(PacketView::Pingreq) == Ok::<Seq<u8>, crate::mq_error::MQError>(
            seq![0xC0u8, 0x00u8],
        ),
{
    assert(seq![0xC0u8] + crate::wire::ser_len(0) + Seq::<u8>::empty() =~= seq![0xC0u8, 0x00u8]);
}

/// A message that is published at level 1 joins `outgoing_ack`, which grows
/// by one, with the next packet identifier.
pub proof fn lemma_publish_level_one(
    s: ClientView,
    topic: Seq<char>,
    payload: Seq<u8>,
    retain: bool,
    put: Result<(), StorageError>,
)
    requires
        publish(s, topic, payload, QoS::AtLeastOnce, retain, put).1 is Ok,
    ensures
        ({
            let after = publish(s, topic, payload, QoS::AtLeastOnce, retain, put).0;
            &&& after.outgoing_ack.len() == s.outgoing_ack.len() + 1
            &&& after.outgoing_ack.last().pid == Some(s.last_pid.successor())
            &&& after.outgoing_ack.last().payload == payload
        }),
{
}

/// A PUBACK that names the message at the head of `outgoing_ack` is
/// accepted, and the queue shrinks by one. Any other PUBACK, and any PUBACK
/// when nothing awaits one, is refused as unhandled.
pub proof fn lemma_puback(s: ClientView, pid: PacketIdentifier, store: StoreOutcome)
    requires
        s.state == ClientState::Connected,
    ensures
        ({
            let (after, r) = parse_packet(s, PacketView::Puback(pid), store);
            if s.outgoing_ack.len() > 0 && s.outgoing_ack[0].pid == Some(pid) {
                r == Ok::<ActionView, Error>(ActionView::Done(None)) && after.outgoing_ack.len()
                    == s.outgoing_ack.len() - 1
            } else {
                r == Err::<ActionView, Error>(
                    Error::PacketIdentifierError(PacketIdentifierError::UnhandledPuback(pid)),
                )
            }
        }),
{
}

/// The exchange of level 1, sent: a message is published and its PUBLISH
/// flushed, then the PUBACK with its packet identifier arrives. If nothing
/// awaited a PUBACK before, nothing does after.
pub proof fn lemma_level_one_sent(
    s: ClientView,
    topic: Seq<char>,
    payload: Seq<u8>,
    retain: bool,
    now: u64,
    store: StoreOutcome,
)
    requires
        s.state == ClientState::Connected,
        s.outgoing_ack.len() == 0,
        publish(s, topic, payload, QoS::AtLeastOnce, retain, store.put).1 is Ok,
    ensures
        ({
            let s1 = publish(s, topic, payload, QoS::AtLeastOnce, retain, store.put).0;
            let s2 = flushed(s1, AfterFlushView::Nothing, Ok(now), store.put).0;
            let (s3, r) = parse_packet(s2, PacketView::Puback(s.last_pid.successor()), store);
            r == Ok::<ActionView, Error>(ActionView::Done(None)) && s3.outgoing_ack.len() == 0
        }),
{
}

/// The exchange of level 2, sent: a message is published and kept in the
/// outgoing store, its PUBLISH is flushed, the PUBREC arrives, the PUBREL is
/// flushed, the PUBCOMP arrives. If `outgoing_rec` and `outgoing_comp` were
/// empty before, they are empty after, and the store holds nothing under the
/// packet identifier. The store held the message from the publishing on.
pub proof fn lemma_level_two_sent(
    s: ClientView,
    topic: Seq<char>,
    payload: Seq<u8>,
    retain: bool,
    now: u64,
    store: StoreOutcome,
)
    requires
        s.state == ClientState::Connected,
        s.outgoing_rec.len() == 0,
        s.outgoing_comp.len() == 0,
        publish(s, topic, payload, QoS::ExactlyOnce, retain, Ok(())).1 is Ok,
    ensures
        ({
            let pid = s.last_pid.successor();
            let s1 = publish(s, topic, payload, QoS::ExactlyOnce, retain, Ok(())).0;
            let s2 = flushed(s1, AfterFlushView::Nothing, Ok(now), Ok(())).0;
            let (s3, r3) = parse_packet(s2, PacketView::Pubrec(pid), store);
            let (s4, r4) = flushed(s3, AfterFlushView::Release(pid), Ok(now), Ok(()));
            let (s5, r5) = parse_packet(s4, PacketView::Pubcomp(pid), store);
            &&& s1.opts.outgoing_store matches Some(kept) && kept.contains_key(pid.0)
                && kept[pid.0].payload == payload
            &&& r3 == Ok::<ActionView, Error>(ActionView::Flush(AfterFlushView::Release(pid)))
            &&& r4 == Ok::<Option<MessageView>, Error>(None)
            &&& r5 == Ok::<ActionView, Error>(ActionView::Done(None))
            &&& s5.outgoing_rec.len() == 0
            &&& s5.outgoing_comp.len() == 0
            &&& s5.opts.outgoing_store matches Some(kept) && !kept.contains_key(pid.0)
        }),
{
    let pid = s.last_pid.successor();
    let s1 = publish(s, topic, payload, QoS::ExactlyOnce, retain, Ok(())).0;
    let s2 = flushed(s1, AfterFlushView::Nothing, Ok(now), Ok(())).0;
    let (s3, r3) = parse_packet(s2, PacketView::Pubrec(pid), store);
    let (s4, r4) = flushed(s3, AfterFlushView::Release(pid), Ok(now), Ok(()));
}

/// The exchange of level 2, received: a PUBLISH arrives and its message is
/// kept in the incoming store, the PUBREC is flushed, the PUBREL arrives and
/// the store gives the message, the user confirms it, the PUBCOMP is
/// flushed. The user is handed the message once, at the PUBREL. If
/// `incoming_rec` and `incoming_rel` were empty before, they are empty
/// after, and the store holds nothing under the packet identifier.
pub proof fn lemma_level_two_received(
    s: ClientView,
    p: PublishView,
    pid: PacketIdentifier,
    now: u64,
)
    requires
        s.state == ClientState::Connected,
        s.incoming_rec.len() == 0,
        s.incoming_rel.len() == 0,
        s.opts.incoming_store is Some,
        p.qos == QoS::ExactlyOnce,
        p.pid == Some(pid),
        message_of(p) is Ok,
    ensures
        ({
            let m = message_of(p)->Ok_0;
            let idle = StoreOutcome { put: Ok(()), got: Ok(m) };
            let (s1, r1) = parse_packet(s, PacketView::Publish(p), idle);
            let s2 = flushed(s1, AfterFlushView::Nothing, Ok(now), Ok(())).0;
            let kept = s2.opts.incoming_store->0;
            let (s3, r3) = parse_packet(
                s2,
                PacketView::Pubrel(pid),
                StoreOutcome { put: Ok(()), got: Ok(kept[pid.0]) },
            );
            let (s4, r4) = complete(s3, pid);
            let (s5, r5) = flushed(s4, AfterFlushView::Complete(pid), Ok(now), Ok(()));
            &&& r1 == Ok::<ActionView, Error>(ActionView::Flush(AfterFlushView::Nothing))
            &&& kept.contains_key(pid.0) && kept[pid.0] == m
            &&& r3 == Ok::<ActionView, Error>(ActionView::Done(Some(m)))
            &&& r4 == Ok::<ActionView, Error>(ActionView::Flush(AfterFlushView::Complete(pid)))
            &&& r5 == Ok::<Option<MessageView>, Error>(None)
            &&& s5.incoming_rec.len() == 0
            &&& s5.incoming_rel.len() == 0
            &&& s5.opts.incoming_store matches Some(left) && !left.contains_key(pid.0)
        }),
{
    let m = message_of(p)->Ok_0;
    let idle = StoreOutcome { put: Ok(()), got: Ok(m) };
    let (s1, r1) = parse_packet(s, PacketView::Publish(p), idle);
    let s2 = flushed(s1, AfterFlushView::Nothing, Ok(now), Ok(())).0;
    let kept = s2.opts.incoming_store->0;
    let (s3, r3) = parse_packet(
        s2,
        PacketView::Pubrel(pid),
        StoreOutcome { put: Ok(()), got: Ok(kept[pid.0]) },
    );
    let (s4, r4) = complete(s3, pid);
}

/// A SUBACK that has not as many return codes as the SUBSCRIBE at the head
/// of `await_suback` has filters is a protocol violation; so is any SUBACK
/// when no SUBSCRIBE awaits one.
pub proof fn lemma_suback_arity(s: ClientView, suback: SubackView, store: StoreOutcome)
    requires
        s.state == ClientState::Connected,
        s.await_suback.len() == 0 || s.await_suback[0].topics.len() != suback.return_codes.len(),
    ensures
        parse_packet(s, PacketView::Suback(suback), store).1 == Err::<ActionView, Error>(
            Error::ProtocolViolation,
        ),
{
}

/// Keep-alive. In a connected session with a keep-alive interval, once that
/// interval has passed since the last flush, `accept` gives a timeout without
/// reading. If no PINGRESP is awaited, `await` then writes exactly one
/// PINGREQ and awaits its PINGRESP. If one is awaited already, `await` lets
/// go of the connection, and the session is disconnected.
pub proof fn lemma_keep_alive(s: ClientView, now: u64)
    requires
        s.state == ClientState::Connected,
        s.opts.keep_alive matches Some(secs) && elapsed(s, now) >= secs * nanos_per_sec(),
    ensures
        poll(s, now) == Err::<crate::session::PollView, Error>(Error::Timeout),
        !s.await_ping ==> ({
            let (after, r) = await_turn(s, Err(Error::Timeout));
            &&& r == Ok::<WaitView, Error>(WaitView::Ping)
            &&& after.await_ping
            &&& after.state == ClientState::Connected
            &&& after.written == s.written + seq![0xC0u8, 0x00u8]
        }),
        s.await_ping ==> ({
            let (after, r) = await_turn(s, Err(Error::Timeout));
            &&& r == Ok::<WaitView, Error>(WaitView::Again)
            &&& after.state == ClientState::Disconnected
            &&& after.written == s.written
        }),
{
    lemma_pingreq_bytes();
}

/// Letting go of the connection keeps the publish queues and the
/// subscriptions: what was under way can be taken up again.
pub proof fn lemma_unbound_keeps_queues(s: ClientView)
    ensures
        ({
            let after = crate::session::unbound(s);
            &&& after.outgoing_ack == s.outgoing_ack
            &&& after.outgoing_rec == s.outgoing_rec
            &&& after.outgoing_comp == s.outgoing_comp
            &&& after.incoming_pub == s.incoming_pub
            &&& after.incoming_rec == s.incoming_rec
            &&& after.incoming_rel == s.incoming_rel
            &&& after.subscriptions == s.subscriptions
            &&& after.state == ClientState::Disconnected
        }),
{
}

/// Asking again for the subscriptions leaves them as they are.
pub proof fn lemma_resubscribe_keeps_subscriptions(s: ClientView)
    ensures
        crate::session::resubscribe(s).subscriptions == s.subscriptions,
{
}

/// A session becomes connected in one way only: during the handshake, by a
/// CONNACK that accepts.
pub proof fn lemma_connected_by_connack(
    s: ClientView,
    read: Result<PacketView, crate::mq_error::MQError>,
    store: StoreOutcome,
)
    requires
        s.state != ClientState::Connected,
        accept(s, read, store).0.state == ClientState::Connected,
    ensures
        s.state == ClientState::Handshake,
        read matches Ok(PacketView::Connack(connack)) && connack.code
            == crate::proto::ConnectReturnCode::Accepted,
        accept(s, read, store).0.session_present == read->Ok_0->Connack_0.session_present,
{
}

/// What the user does leaves a session that is not connected as it is, or
/// begins a handshake: it never connects the session.
pub proof fn lemma_operations_do_not_connect(
    s: ClientView,
    topic: Seq<char>,
    payload: Seq<u8>,
    qos: QoS,
    retain: bool,
    filters: Seq<crate::proto::SubscribeTopicView>,
    topics: Seq<Seq<char>>,
    pid: PacketIdentifier,
    put: Result<(), StorageError>,
)
    requires
        s.state != ClientState::Connected,
    ensures
        publish(s, topic, payload, qos, retain, put).0.state == s.state,
        crate::session::subscribe(s, filters).0.state == s.state,
        crate::session::unsubscribe(s, topics).0.state == s.state,
        crate::session::ping(s).state == s.state,
        complete(s, pid).0.state == s.state,
        crate::session::resubscribe(s).state == s.state,
        crate::session::unbound(s).state == ClientState::Disconnected,
        crate::session::reconnect(s).0.state == ClientState::Handshake,
        await_turn(s, Err(Error::Timeout)).0.state == s.state,
{
}

/// A message of level 2 is in the outgoing store by the time its PUBLISH is
/// written: publishing at level 2 writes nothing unless the store has taken
/// the message.
pub proof fn lemma_stored_before_publish(
    s: ClientView,
    topic: Seq<char>,
    payload: Seq<u8>,
    retain: bool,
    put: Result<(), StorageError>,
)
    ensures
        ({
            let (after, r) = publish(s, topic, payload, QoS::ExactlyOnce, retain, put);
            if r is Ok {
                after.opts.outgoing_store matches Some(kept) && kept.contains_key(
                    s.last_pid.successor().0,
                ) && kept[s.last_pid.successor().0].payload == payload
            } else {
                after.written == s.written
            }
        }),
{
}

/// A message of level 2 that arrives is in the incoming store by the time
/// its PUBREC is written: nothing is written unless the store has taken the
/// message.
pub proof fn lemma_stored_before_pubrec(s: ClientView, p: PublishView, store: StoreOutcome)
    requires
        s.state == ClientState::Connected,
        p.qos == QoS::ExactlyOnce,
    ensures
        ({
            let (after, r) = parse_packet(s, PacketView::Publish(p), store);
            if r is Ok {
                p.pid matches Some(pid) && after.opts.incoming_store matches Some(kept)
                    && kept.contains_key(pid.0) && Ok::<MessageView, crate::mq_error::MQError>(
                    kept[pid.0],
                ) == message_of(p)
            } else {
                after.written == s.written
            }
        }),
{
}

/// A confirmation that does not name the last entry of `incoming_rel`, or
/// that comes when the queue is empty, is a protocol violation and changes
/// nothing: no PUBCOMP is written, and the entry stays until its own
/// confirmation comes.
pub proof fn lemma_complete_mismatch(s: ClientView, pid: PacketIdentifier)
    requires
        s.incoming_rel.len() == 0 || s.incoming_rel.last() != pid,
    ensures
        complete(s, pid) == (s, Err::<ActionView, Error>(Error::ProtocolViolation)),
{
}

/// The wait ends without a message only in a connected session that awaits
/// no PINGRESP and whose queues are all empty.
pub proof fn lemma_wait_ends_settled(s: ClientView, accepted: Result<Option<MessageView>, Error>)
    requires
        await_turn(s, accepted).1 == Ok::<WaitView, Error>(WaitView::Ready(None)),
    ensures
        ({
            let after = await_turn(s, accepted).0;
            &&& after == s
            &&& after.state == ClientState::Connected
            &&& !after.await_ping
            &&& after.outgoing_ack.len() == 0
            &&& after.outgoing_rec.len() == 0
            &&& after.outgoing_comp.len() == 0
            &&& after.incoming_pub.len() == 0
            &&& after.incoming_rec.len() == 0
            &&& after.incoming_rel.len() == 0
            &&& after.await_suback.len() == 0
            &&& after.await_unsuback.len() == 0
        }),
{
}

/// Publishing at level 2 without an outgoing store fails for want of the
/// store, whatever the payload and however long the topic name: the packet
/// identifier is taken, nothing is queued and nothing is written.
pub proof fn lemma_publish_needs_store(
    s: ClientView,
    topic: Seq<char>,
    payload: Seq<u8>,
    retain: bool,
    put: Result<(), StorageError>,
)
    requires
        s.opts.outgoing_store is None,
        crate::topic::topic_name_of(topic) is Ok,
    ensures
        publish(s, topic, payload, QoS::ExactlyOnce, retain, put) == (
            ClientView { last_pid: s.last_pid.successor(), ..s },
            Err::<ActionView, Error>(Error::OutgoingStorageAbsent),
        ),
{
}

} // verus!
