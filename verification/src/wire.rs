//! The wire format of the control packets, as mathematics: for each part a
//! function that writes it as bytes and one that reads it back.
//!
//! A reading function takes the bytes at hand and gives the value read
//! together with the bytes that follow it.

use vstd::prelude::*;
use vstd::utf8::{decode_utf8, encode_utf8, valid_utf8};
use crate::bits::bit_set;
use crate::mq_error::MQError;
use crate::mqtt::{
    Connack, ConnectView, PacketView, PublishView, SubackView, SubscribeView, UnsubscribeView,
};
use crate::proto::{
    ConnectReturnCode, Header, LastWillView, PacketIdentifier, PacketType, Protocol, QoS,
    SubscribeReturnCodes, SubscribeTopicView,
};

verus! {

/// The largest remaining length, 268 435 455.
pub open spec fn max_remaining() -> nat {
    268435455
}

// ---------------------------------------------------------------------------
// integers and strings
// ---------------------------------------------------------------------------

/// The 16-bit number whose big-endian bytes are `hi` and `lo`.
pub open spec fn be16(hi: u8, lo: u8) -> u16 {
    (hi * 256 + lo) as u16
}

/// The big-endian bytes of a 16-bit number.
pub open spec fn ser_u16(v: u16) -> Seq<u8> {
    seq![(v / 256) as u8, (v % 256) as u8]
}

/// Reads one byte.
pub open spec fn parse_u8(b: Seq<u8>) -> Result<(u8, Seq<u8>), MQError> {
    if b.len() < 1 {
        Err(MQError::UnexpectedEof)
    } else {
        Ok((b[0], b.skip(1)))
    }
}

/// Reads a big-endian 16-bit number.
pub open spec fn parse_u16(b: Seq<u8>) -> Result<(u16, Seq<u8>), MQError> {
    if b.len() < 2 {
        Err(MQError::UnexpectedEof)
    } else {
        Ok((be16(b[0], b[1]), b.skip(2)))
    }
}

/// Reads a 16-bit length and that many bytes.
pub open spec fn parse_block(b: Seq<u8>) -> Result<(Seq<u8>, Seq<u8>), MQError> {
    if b.len() < 2 {
        Err(MQError::UnexpectedEof)
    } else if b.len() < 2 + be16(b[0], b[1]) {
        Err(MQError::UnexpectedEof)
    } else {
        Ok((b.subrange(2, 2 + be16(b[0], b[1])), b.skip(2 + be16(b[0], b[1]))))
    }
}

/// A 16-bit length and the bytes it counts.
pub open spec fn ser_block(raw: Seq<u8>) -> Seq<u8> {
    ser_u16(raw.len() as u16) + raw
}

/// Reads a string: a 16-bit length and that many bytes of UTF-8.
pub open spec fn parse_str(b: Seq<u8>) -> Result<(Seq<char>, Seq<u8>), MQError> {
    match parse_block(b) {
        Err(e) => Err(e),
        Ok((raw, rest)) => if valid_utf8(raw) {
            Ok((decode_utf8(raw), rest))
        } else {
            Err(MQError::TopicNameMustNotContainNonUtf8)
        },
    }
}

/// A string on the wire.
pub open spec fn ser_str(s: Seq<char>) -> Seq<u8> {
    ser_block(encode_utf8(s))
}

/// Whether the UTF-8 form of a string is short enough for a 16-bit length.
pub open spec fn str_fits(s: Seq<char>) -> bool {
    encode_utf8(s).len() <= 0xFFFF
}

// ---------------------------------------------------------------------------
// remaining length
// ---------------------------------------------------------------------------

/// The variable-length form of a remaining length: seven bits to a byte,
/// lowest first, the top bit set on every byte but the last.
pub open spec fn ser_len(n: nat) -> Seq<u8>
    decreases n,
{
    if n < 128 {
        seq![n as u8]
    } else {
        seq![(n % 128 + 128) as u8] + ser_len(n / 128)
    }
}

/// Reads on in a remaining length that starts with `b` and of which `at`
/// bytes have been read: gives the number that the bytes from index `at` on
/// stand for, and how many they are. A fifth byte is refused.
pub open spec fn parse_len_at(b: Seq<u8>, at: nat) -> Result<(nat, nat), MQError>
    decreases 5 - at,
{
    if at >= b.len() {
        Err(MQError::UnexpectedEof)
    } else if at >= 4 {
        Err(MQError::MalformedRemainingLength)
    } else if b[at as int] < 128 {
        Ok((b[at as int] as nat, 1))
    } else {
        match parse_len_at(b, at + 1) {
            Err(e) => Err(e),
            Ok((v, k)) => Ok((((b[at as int] - 128) + 128 * v) as nat, k + 1)),
        }
    }
}

/// `128` to the power `k`, for `k` up to 4.
pub open spec fn pow128(k: nat) -> nat {
    if k == 0 {
        1
    } else if k == 1 {
        128
    } else if k == 2 {
        16384
    } else if k == 3 {
        2097152
    } else {
        268435456
    }
}

/// A remaining length that is read takes one to four of the bytes at hand,
/// and is below `128` to the power of their number.
pub proof fn lemma_parse_len_bounds(b: Seq<u8>, at: nat)
    requires
        at <= 4,
    ensures
        parse_len_at(b, at) matches Ok((v, k)) ==> 1 <= k && at + k <= 4 && at + k <= b.len() && v
            < pow128(k),
    decreases 5 - at,
{
    if at < b.len() && at < 4 && b[at as int] >= 128 {
        lemma_parse_len_bounds(b, at + 1);
    }
}

/// Items read so far, followed by those that the rest of the bytes give.
pub open spec fn prepend<T>(acc: Seq<T>, tail: Result<Seq<T>, MQError>) -> Result<
    Seq<T>,
    MQError,
> {
    match tail {
        Ok(items) => Ok(acc + items),
        Err(e) => Err(e),
    }
}

/// Reads a remaining length from the start of `b`: the value and the number
/// of bytes it took.
pub open spec fn parse_len(b: Seq<u8>) -> Result<(nat, nat), MQError> {
    parse_len_at(b, 0)
}

// ---------------------------------------------------------------------------
// CONNECT
// ---------------------------------------------------------------------------

/// The flags byte of a CONNECT packet.
#[verifier::opaque]
pub open spec fn connect_flags(c: ConnectView) -> u8 {
    ((if c.username is Some { 128int } else { 0 }) + (if c.password is Some { 64int } else { 0 })
        + (match c.last_will {
        Some(w) => (if w.retain { 32int } else { 0 }) + 8 * w.qos.code() + 4,
        None => 0,
    }) + (if c.clean_session { 2int } else { 0 })) as u8
}

/// An optional string on the wire: nothing when it is absent.
pub open spec fn ser_opt_str(s: Option<Seq<char>>) -> Seq<u8> {
    match s {
        Some(s) => ser_str(s),
        None => seq![],
    }
}

/// The last will's two strings on the wire.
pub open spec fn ser_will(w: Option<LastWillView>) -> Seq<u8> {
    match w {
        Some(w) => ser_str(w.topic) + ser_str(w.message),
        None => seq![],
    }
}

/// The body of a CONNECT packet.
pub open spec fn connect_body(c: ConnectView) -> Seq<u8> {
    ser_block(c.protocol.name_bytes()) + seq![c.protocol.spec_level(), connect_flags(c)] + ser_u16(
        c.keep_alive,
    ) + ser_str(c.client_id) + ser_will(c.last_will) + ser_opt_str(c.username) + ser_opt_str(
        c.password,
    )
}

/// Reads the last will that the flags byte announces.
pub open spec fn parse_will(flags: u8, b: Seq<u8>) -> Result<
    (Option<LastWillView>, Seq<u8>),
    MQError,
> {
    if !bit_set(flags, 4) {
        if (flags / 8) % 8 != 0 {
            Err(MQError::IncorrectPacketFormat)
        } else {
            Ok((None, b))
        }
    } else {
        match parse_str(b) {
            Err(e) => Err(e),
            Ok((topic, b1)) => match parse_str(b1) {
                Err(e) => Err(e),
                Ok((message, b2)) => match QoS::of_code((flags / 8) % 4) {
                    Err(e) => Err(e),
                    Ok(qos) => Ok(
                        (
                            Some(LastWillView { topic, message, qos, retain: bit_set(flags, 32) }),
                            b2,
                        ),
                    ),
                },
            },
        }
    }
}

/// Reads a string if `present`.
pub open spec fn parse_opt_str(present: bool, b: Seq<u8>) -> Result<
    (Option<Seq<char>>, Seq<u8>),
    MQError,
> {
    if present {
        match parse_str(b) {
            Err(e) => Err(e),
            Ok((s, rest)) => Ok((Some(s), rest)),
        }
    } else {
        Ok((None, b))
    }
}

/// What follows the flags byte of a CONNECT packet.
#[verifier::opaque]
pub open spec fn parse_connect_tail(protocol: Protocol, flags: u8, b: Seq<u8>) -> Result<
    (ConnectView, Seq<u8>),
    MQError,
> {
    match parse_u16(b) {
        Err(e) => Err(e),
        Ok((keep_alive, b1)) => match parse_str(b1) {
            Err(e) => Err(e),
            Ok((client_id, b2)) => match parse_will(flags, b2) {
                Err(e) => Err(e),
                Ok((last_will, b3)) => match parse_opt_str(bit_set(flags, 128), b3) {
                    Err(e) => Err(e),
                    Ok((username, b4)) => match parse_opt_str(bit_set(flags, 64), b4) {
                        Err(e) => Err(e),
                        Ok((password, b5)) => Ok(
                            (
                                ConnectView {
                                    protocol,
                                    keep_alive,
                                    client_id,
                                    clean_session: bit_set(flags, 2),
                                    last_will,
                                    username,
                                    password,
                                },
                                b5,
                            ),
                        ),
                    },
                },
            },
        }
    }
}

/// Reads the body of a CONNECT packet: the packet, and the bytes that
/// follow its last field.
#[verifier::opaque]
pub open spec fn parse_connect(b: Seq<u8>) -> Result<(ConnectView, Seq<u8>), MQError> {
    match parse_str(b) {
        Err(e) => Err(e),
        Ok((name, b1)) => match parse_u8(b1) {
            Err(e) => Err(e),
            Ok((level, b2)) => match Protocol::select(encode_utf8(name), level) {
                Err(e) => Err(e),
                Ok(protocol) => match parse_u8(b2) {
                    Err(e) => Err(e),
                    Ok((flags, b3)) => parse_connect_tail(protocol, flags, b3),
                },
            },
        },
    }
}

// ---------------------------------------------------------------------------
// CONNACK and the packets that hold a packet identifier only
// ---------------------------------------------------------------------------

/// The body of a CONNACK packet.
pub open spec fn connack_body(c: Connack) -> Seq<u8> {
    seq![if c.session_present { 1u8 } else { 0u8 }, c.code.code()]
}

/// Reads the body of a CONNACK packet, whose remaining length must be 2:
/// the session-present bit of the first byte, and the return code.
pub open spec fn parse_connack(header: Header, b: Seq<u8>) -> Result<Connack, MQError> {
    if header.len != 2 {
        Err(MQError::PayloadSizeIncorrect)
    } else if b.len() < 2 {
        Err(MQError::UnexpectedEof)
    } else {
        match ConnectReturnCode::of_code(b[1]) {
            Err(e) => Err(e),
            Ok(code) => Ok(Connack { session_present: b[0] % 2 == 1, code }),
        }
    }
}

/// Reads a body that is a packet identifier and nothing else.
pub open spec fn parse_pid_only(b: Seq<u8>) -> Result<PacketIdentifier, MQError> {
    if b.len() != 2 {
        Err(MQError::PayloadSizeIncorrect)
    } else {
        Ok(PacketIdentifier(be16(b[0], b[1])))
    }
}

// ---------------------------------------------------------------------------
// PUBLISH
// ---------------------------------------------------------------------------

/// The lower half of a PUBLISH packet's first byte.
pub open spec fn publish_flags(dup: bool, qos: QoS, retain: bool) -> u8 {
    ((if dup { 8int } else { 0 }) + 2 * qos.code() + (if retain { 1int } else { 0 })) as u8
}

/// The packet identifier of a PUBLISH on the wire: absent at level 0.
pub open spec fn ser_opt_pid(pid: Option<PacketIdentifier>) -> Seq<u8> {
    match pid {
        Some(pid) => ser_u16(pid.0),
        None => seq![],
    }
}

/// The body of a PUBLISH packet.
pub open spec fn publish_body(p: PublishView) -> Seq<u8> {
    ser_str(p.topic_name) + ser_opt_pid(p.pid) + p.payload
}

/// Reads the body of a PUBLISH packet whose first byte is `header.hd`. The
/// level is checked first; then the topic's bytes are set apart, the packet
/// identifier is read if the level is above 0, and the topic is checked to
/// be UTF-8. What is left is the payload.
pub open spec fn parse_publish(header: Header, b: Seq<u8>) -> Result<PublishView, MQError> {
    match header.spec_qos() {
        Err(e) => Err(e),
        Ok(qos) => match parse_block(b) {
            Err(e) => Err(e),
            Ok((raw, b1)) => if qos != QoS::AtMostOnce && b1.len() < 2 {
                Err(MQError::UnexpectedEof)
            } else if !valid_utf8(raw) {
                Err(MQError::TopicNameMustNotContainNonUtf8)
            } else {
                Ok(
                    PublishView {
                        dup: header.spec_dup(),
                        qos,
                        retain: header.spec_retain(),
                        topic_name: decode_utf8(raw),
                        pid: if qos != QoS::AtMostOnce {
                            Some(PacketIdentifier(be16(b1[0], b1[1])))
                        } else {
                            None
                        },
                        payload: if qos != QoS::AtMostOnce {
                            b1.skip(2)
                        } else {
                            b1
                        },
                    },
                )
            },
        },
    }
}

// ---------------------------------------------------------------------------
// SUBSCRIBE, SUBACK, UNSUBSCRIBE
// ---------------------------------------------------------------------------

/// Topic filters with their levels, one after the other.
pub open spec fn ser_filters(topics: Seq<SubscribeTopicView>) -> Seq<u8>
    decreases topics.len(),
{
    if topics.len() == 0 {
        seq![]
    } else {
        ser_str(topics[0].topic_path) + seq![topics[0].qos.code()] + ser_filters(
            topics.drop_first(),
        )
    }
}

/// Reads topic filters with their levels until the bytes end.
pub open spec fn parse_filters(b: Seq<u8>) -> Result<Seq<SubscribeTopicView>, MQError>
    decreases b.len(),
{
    if b.len() == 0 {
        Ok(seq![])
    } else {
        match parse_str(b) {
            Err(e) => Err(e),
            Ok((topic_path, b1)) => match parse_u8(b1) {
                Err(e) => Err(e),
                Ok((byte, b2)) => match QoS::of_code(byte) {
                    Err(e) => Err(e),
                    Ok(qos) => match parse_filters(b2) {
                        Err(e) => Err(e),
                        Ok(rest) => Ok(seq![SubscribeTopicView { topic_path, qos }] + rest),
                    },
                },
            },
        }
    }
}

/// The body of a SUBSCRIBE packet.
pub open spec fn subscribe_body(s: SubscribeView) -> Seq<u8> {
    ser_u16(s.pid.0) + ser_filters(s.topics)
}

/// Reads the body of a SUBSCRIBE packet: a packet identifier and at least
/// one topic filter with its level.
pub open spec fn parse_subscribe(b: Seq<u8>) -> Result<SubscribeView, MQError> {
    match parse_u16(b) {
        Err(e) => Err(e),
        Ok((pid, b1)) => if b1.len() == 0 {
            Err(MQError::PayloadRequired)
        } else {
            match parse_filters(b1) {
                Err(e) => Err(e),
                Ok(topics) => Ok(SubscribeView { pid: PacketIdentifier(pid), topics }),
            }
        },
    }
}

/// Return codes, one byte each.
pub open spec fn ser_codes(codes: Seq<SubscribeReturnCodes>) -> Seq<u8> {
    Seq::new(codes.len(), |i: int| codes[i].code())
}

/// Reads return codes until the bytes end.
pub open spec fn parse_codes(b: Seq<u8>) -> Result<Seq<SubscribeReturnCodes>, MQError>
    decreases b.len(),
{
    if b.len() == 0 {
        Ok(seq![])
    } else {
        match SubscribeReturnCodes::of_code(b[0]) {
            Err(e) => Err(e),
            Ok(code) => match parse_codes(b.skip(1)) {
                Err(e) => Err(e),
                Ok(rest) => Ok(seq![code] + rest),
            },
        }
    }
}

/// The body of a SUBACK packet.
pub open spec fn suback_body(s: SubackView) -> Seq<u8> {
    ser_u16(s.pid.0) + ser_codes(s.return_codes)
}

/// Reads the body of a SUBACK packet.
pub open spec fn parse_suback(b: Seq<u8>) -> Result<SubackView, MQError> {
    match parse_u16(b) {
        Err(e) => Err(e),
        Ok((pid, b1)) => match parse_codes(b1) {
            Err(e) => Err(e),
            Ok(return_codes) => Ok(SubackView { pid: PacketIdentifier(pid), return_codes }),
        },
    }
}

/// Strings, one after the other.
pub open spec fn ser_strs(topics: Seq<Seq<char>>) -> Seq<u8>
    decreases topics.len(),
{
    if topics.len() == 0 {
        seq![]
    } else {
        ser_str(topics[0]) + ser_strs(topics.drop_first())
    }
}

/// Reads strings until the bytes end.
pub open spec fn parse_strs(b: Seq<u8>) -> Result<Seq<Seq<char>>, MQError>
    decreases b.len(),
{
    if b.len() == 0 {
        Ok(seq![])
    } else {
        match parse_str(b) {
            Err(e) => Err(e),
            Ok((topic, b1)) => match parse_strs(b1) {
                Err(e) => Err(e),
                Ok(rest) => Ok(seq![topic] + rest),
            },
        }
    }
}

/// The body of an UNSUBSCRIBE packet.
pub open spec fn unsubscribe_body(u: UnsubscribeView) -> Seq<u8> {
    ser_u16(u.pid.0) + ser_strs(u.topics)
}

/// Reads the body of an UNSUBSCRIBE packet.
pub open spec fn parse_unsubscribe(b: Seq<u8>) -> Result<UnsubscribeView, MQError> {
    match parse_u16(b) {
        Err(e) => Err(e),
        Ok((pid, b1)) => match parse_strs(b1) {
            Err(e) => Err(e),
            Ok(topics) => Ok(UnsubscribeView { pid: PacketIdentifier(pid), topics }),
        },
    }
}

// ---------------------------------------------------------------------------
// whole packets
// ---------------------------------------------------------------------------

/// The first byte of a packet: its kind in the upper half, its flags in the
/// lower.
pub open spec fn first_byte(p: PacketView) -> u8 {
    match p {
        PacketView::Connect(_) => 0x10,
        PacketView::Connack(_) => 0x20,
        PacketView::Publish(p) => (0x30 + publish_flags(p.dup, p.qos, p.retain)) as u8,
        PacketView::Puback(_) => 0x40,
        PacketView::Pubrec(_) => 0x50,
        PacketView::Pubrel(_) => 0x62,
        PacketView::Pubcomp(_) => 0x70,
        PacketView::Subscribe(_) => 0x82,
        PacketView::Suback(_) => 0x90,
        PacketView::Unsubscribe(_) => 0xA2,
        PacketView::Unsuback(_) => 0xB0,
        PacketView::Pingreq => 0xC0,
        PacketView::Pingresp => 0xD0,
        PacketView::Disconnect => 0xE0,
    }
}

/// What follows the remaining length.
pub open spec fn body(p: PacketView) -> Seq<u8> {
    match p {
        PacketView::Connect(c) => connect_body(c),
        PacketView::Connack(c) => connack_body(c),
        PacketView::Publish(p) => publish_body(p),
        PacketView::Puback(pid) => ser_u16(pid.0),
        PacketView::Pubrec(pid) => ser_u16(pid.0),
        PacketView::Pubrel(pid) => ser_u16(pid.0),
        PacketView::Pubcomp(pid) => ser_u16(pid.0),
        PacketView::Subscribe(s) => subscribe_body(s),
        PacketView::Suback(s) => suback_body(s),
        PacketView::Unsubscribe(u) => unsubscribe_body(u),
        PacketView::Unsuback(pid) => ser_u16(pid.0),
        PacketView::Pingreq => seq![],
        PacketView::Pingresp => seq![],
        PacketView::Disconnect => seq![],
    }
}

/// Whether an optional string, if present, fits a 16-bit length.
pub open spec fn opt_str_fits(s: Option<Seq<char>>) -> bool {
    match s {
        Some(s) => str_fits(s),
        None => true,
    }
}

/// Whether every topic filter of a list fits a 16-bit length.
pub open spec fn filters_fit(topics: Seq<SubscribeTopicView>) -> bool {
    forall|i: int| 0 <= i < topics.len() ==> str_fits(#[trigger] topics[i].topic_path)
}

/// Whether every string of a list fits a 16-bit length.
pub open spec fn strs_fit(topics: Seq<Seq<char>>) -> bool {
    forall|i: int| 0 <= i < topics.len() ==> str_fits(#[trigger] topics[i])
}

/// Whether every string of a packet fits a 16-bit length.
pub open spec fn strings_fit(p: PacketView) -> bool {
    match p {
        PacketView::Connect(c) => {
            &&& str_fits(c.client_id)
            &&& (c.last_will matches Some(w) ==> str_fits(w.topic) && str_fits(w.message))
            &&& opt_str_fits(c.username)
            &&& opt_str_fits(c.password)
        },
        PacketView::Publish(p) => str_fits(p.topic_name),
        PacketView::Subscribe(s) => filters_fit(s.topics),
        PacketView::Unsubscribe(u) => strs_fit(u.topics),
        _ => true,
    }
}

/// The rules that a packet must meet before it is written: a CONNECT names
/// a protocol with its own level, a PUBLISH holds a packet identifier exactly
/// when its level is above 0, and a SUBSCRIBE holds a topic filter.
pub open spec fn admissible(p: PacketView) -> Result<(), MQError> {
    match p {
        PacketView::Connect(c) => if c.protocol.supported() {
            Ok(())
        } else {
            Err(MQError::UnsupportedProtocolVersion)
        },
        PacketView::Publish(p) => if (p.qos == QoS::AtMostOnce) == (p.pid is None) {
            Ok(())
        } else {
            Err(MQError::IncorrectPacketFormat)
        },
        PacketView::Subscribe(s) => if s.topics.len() > 0 {
            Ok(())
        } else {
            Err(MQError::PayloadRequired)
        },
        _ => Ok(()),
    }
}

/// A packet on the wire: the first byte, the remaining length, the body.
/// A packet that breaks a rule of [`admissible`] gives that rule's error; one
/// with a string of more than 65 535 bytes, or a body of more than
/// 268 435 455, gives `PayloadTooLong`.
pub open spec fn encode(p: PacketView) -> Result<Seq<u8>, MQError> {
    match admissible(p) {
        Err(e) => Err(e),
        Ok(_) => if strings_fit(p) && body(p).len() <= max_remaining() {
            Ok(seq![first_byte(p)] + ser_len(body(p).len()) + body(p))
        } else {
            Err(MQError::PayloadTooLong)
        },
    }
}

/// Reads the body `b` of a packet whose fixed header is `header`.
#[verifier::opaque]
pub open spec fn parse_body(header: Header, b: Seq<u8>) -> Result<PacketView, MQError> {
    match header.typ {
        PacketType::Connect => match parse_connect(b) {
            Err(e) => Err(e),
            Ok((c, _)) => Ok(PacketView::Connect(c)),
        },
        PacketType::Connack => match parse_connack(header, b) {
            Err(e) => Err(e),
            Ok(c) => Ok(PacketView::Connack(c)),
        },
        PacketType::Publish => match parse_publish(header, b) {
            Err(e) => Err(e),
            Ok(p) => Ok(PacketView::Publish(p)),
        },
        PacketType::Puback => match parse_pid_only(b) {
            Err(e) => Err(e),
            Ok(pid) => Ok(PacketView::Puback(pid)),
        },
        PacketType::Pubrec => match parse_pid_only(b) {
            Err(e) => Err(e),
            Ok(pid) => Ok(PacketView::Pubrec(pid)),
        },
        PacketType::Pubrel => match parse_pid_only(b) {
            Err(e) => Err(e),
            Ok(pid) => Ok(PacketView::Pubrel(pid)),
        },
        PacketType::Pubcomp => match parse_pid_only(b) {
            Err(e) => Err(e),
            Ok(pid) => Ok(PacketView::Pubcomp(pid)),
        },
        PacketType::Subscribe => match parse_subscribe(b) {
            Err(e) => Err(e),
            Ok(s) => Ok(PacketView::Subscribe(s)),
        },
        PacketType::Suback => match parse_suback(b) {
            Err(e) => Err(e),
            Ok(s) => Ok(PacketView::Suback(s)),
        },
        PacketType::Unsubscribe => match parse_unsubscribe(b) {
            Err(e) => Err(e),
            Ok(u) => Ok(PacketView::Unsubscribe(u)),
        },
        PacketType::Unsuback => match parse_pid_only(b) {
            Err(e) => Err(e),
            Ok(pid) => Ok(PacketView::Unsuback(pid)),
        },
        PacketType::Pingreq => Err(MQError::IncorrectPacketFormat),
        PacketType::Pingresp => Err(MQError::IncorrectPacketFormat),
        PacketType::Disconnect => Err(MQError::UnsupportedPacketType),
    }
}

/// The packet without a body that a header of remaining length 0 stands for.
pub open spec fn parse_bare(header: Header) -> Result<PacketView, MQError> {
    match header.typ {
        PacketType::Pingreq => Ok(PacketView::Pingreq),
        PacketType::Pingresp => Ok(PacketView::Pingresp),
        PacketType::Disconnect => Ok(PacketView::Disconnect),
        _ => Err(MQError::PayloadRequired),
    }
}

/// Reads one packet from the start of `b`: the packet and the number of
/// bytes it took. The first byte and the remaining length are read, then the
/// header is checked; a body that `b` does not hold in full is
/// `UnexpectedEof`.
pub open spec fn decode(b: Seq<u8>) -> Result<(PacketView, nat), MQError> {
    match parse_u8(b) {
        Err(e) => Err(e),
        Ok((hd, b1)) => match parse_len(b1) {
            Err(e) => Err(e),
            Ok((len, k)) => match Header::parse(hd, len as usize) {
                Err(e) => Err(e),
                Ok(header) => if len == 0 {
                    match parse_bare(header) {
                        Err(e) => Err(e),
                        Ok(p) => Ok((p, 1 + k)),
                    }
                } else if b1.len() < k + len {
                    Err(MQError::UnexpectedEof)
                } else {
                    match parse_body(header, b1.subrange(k as int, (k + len) as int)) {
                        Err(e) => Err(e),
                        Ok(p) => Ok((p, 1 + k + len)),
                    }
                },
            },
        },
    }
}

/// How many bytes have to follow `b` before a first packet can be told from
/// it: one if the first byte or the next byte of the remaining length is
/// missing, else what is missing of the body; 0 if nothing is.
pub open spec fn missing(b: Seq<u8>) -> Result<nat, MQError> {
    if b.len() == 0 {
        Ok(1)
    } else {
        match parse_len(b.skip(1)) {
            Err(MQError::UnexpectedEof) => Ok(1),
            Err(e) => Err(e),
            Ok((len, k)) => Ok(
                if b.len() >= 1 + k + len {
                    0
                } else {
                    (1 + k + len - b.len()) as nat
                },
            ),
        }
    }
}

/// Bytes of which nothing is missing hold a whole packet, as far as the
/// first byte and the remaining length say: the decoder does not run out of
/// bytes before the body ends.
pub proof fn lemma_nothing_missing(b: Seq<u8>)
    requires
        missing(b) == Ok::<nat, MQError>(0),
    ensures
        parse_u8(b) is Ok,
        parse_len(b.skip(1)) matches Ok((len, k)) && b.len() >= 1 + k + len,
        decode(b) matches Ok((_, n)) ==> n <= b.len(),
{
}

/// The decoder takes no more bytes than there are.
pub proof fn lemma_decode_within(b: Seq<u8>)
    requires
        decode(b) is Ok,
    ensures
        1 <= decode(b)->Ok_0.1 <= b.len(),
{
    lemma_parse_len_bounds(b.skip(1), 0);
}

} // verus!
