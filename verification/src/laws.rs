//! What holds of the codec for every input: reading back what was written,
//! and writing back what was read.

use vstd::prelude::*;
use vstd::utf8::{
    decode_utf8_encode_utf8, encode_utf8, encode_utf8_decode_utf8, encode_utf8_valid_utf8,
    is_ascii_chars_encode_utf8, valid_utf8,
};
use crate::bits::bit_set;
use crate::mq_error::MQError;
use crate::mqtt::{ConnectView, PacketView, PublishView};
use crate::proto::{
    mqisdp_name, mqtt_name, Header, LastWillView, PacketIdentifier, PacketType, Protocol, QoS,
    SubscribeReturnCodes, SubscribeTopicView,
};
use crate::wire::{
    admissible, body, connect_body, connect_flags, decode, encode, filters_fit, first_byte,
    max_remaining, opt_str_fits, parse_bare, parse_block, parse_body, parse_codes, parse_connect,
    parse_connect_tail, parse_filters, parse_len, parse_len_at, parse_opt_str, parse_publish,
    parse_str, parse_strs, parse_u16, parse_u8, parse_will, pow128, publish_body, ser_block,
    ser_codes, ser_filters, ser_len, ser_opt_pid, ser_opt_str, ser_str, ser_strs, ser_u16, ser_will,
    str_fits, strings_fit, strs_fit,
};

verus! {

/// A remaining length of up to 268 435 455, written and followed by any
/// bytes, is read back as itself, and the read takes just the bytes written.
pub proof fn lemma_remaining_length_round_trip(n: nat, tail: Seq<u8>)
    requires
        n <= max_remaining(),
    ensures
        parse_len(ser_len(n) + tail) == Ok::<(nat, nat), MQError>((n, ser_len(n).len())),
        1 <= ser_len(n).len() <= 4,
{
    lemma_len_round_trip_from(Seq::empty(), n, tail);
}

/// The same, for a length of which `pre` holds the bytes that came before.
proof fn lemma_len_round_trip_from(pre: Seq<u8>, n: nat, tail: Seq<u8>)
    requires
        pre.len() <= 3,
        n < pow128((4 - pre.len()) as nat),
    ensures
        parse_len_at(pre + ser_len(n) + tail, pre.len()) == Ok::<(nat, nat), MQError>(
            (n, ser_len(n).len()),
        ),
        1 <= ser_len(n).len() <= 4 - pre.len(),
    decreases n,
{
    if n >= 128 {
        let byte = (n % 128 + 128) as u8;
        lemma_len_round_trip_from(pre.push(byte), n / 128, tail);
        assert(pre.push(byte) + ser_len(n / 128) + tail =~= pre + ser_len(n) + tail);
    }
}

/// A remaining length whose first four bytes all announce another byte, and
/// that has a fifth byte, is refused.
pub proof fn lemma_fifth_length_byte_refused(b: Seq<u8>)
    requires
        b.len() >= 5,
        b[0] >= 128,
        b[1] >= 128,
        b[2] >= 128,
        b[3] >= 128,
    ensures
        parse_len(b) == Err::<(nat, nat), MQError>(MQError::MalformedRemainingLength),
{
    reveal_with_fuel(parse_len_at, 5);
}

/// The successor of a packet identifier is never zero.
pub proof fn lemma_successor_not_zero(pid: PacketIdentifier)
    ensures
        pid.successor().0 != 0,
{
}

/// Counting on from 1, the identifiers run through 1 to 65 535 and start
/// again: after `n` steps the identifier is `1 + n % 65535`, which is never
/// zero.
pub proof fn lemma_identifier_cycle(n: nat)
    ensures
        PacketIdentifier(1).advance(n).0 == 1 + n % 65535,
        PacketIdentifier(1).advance(n).0 != 0,
    decreases n,
{
    if n > 0 {
        lemma_identifier_cycle((n - 1) as nat);
    }
}

/// A session counts from zero: its first identifier is 1, and `n` steps
/// from zero are `n - 1` steps from 1.
pub proof fn lemma_identifier_from_zero(n: nat)
    requires
        n >= 1,
    ensures
        PacketIdentifier(0).advance(n) == PacketIdentifier(1).advance((n - 1) as nat),
        PacketIdentifier(0).advance(n).0 != 0,
    decreases n,
{
    reveal_with_fuel(PacketIdentifier::advance, 2);
    if n > 1 {
        lemma_identifier_from_zero((n - 1) as nat);
    }
    lemma_identifier_cycle((n - 1) as nat);
}

/// The identifiers come round: 65 535 steps from 1 lead back to 1, and so do
/// 65 536 steps from zero.
pub proof fn lemma_identifier_comes_round()
    ensures
        PacketIdentifier(1).advance(65535) == PacketIdentifier(1),
        PacketIdentifier(0).advance(65536) == PacketIdentifier(1),
{
    lemma_identifier_cycle(65535);
    lemma_identifier_from_zero(65536);
}

// ---------------------------------------------------------------------------
// written, then read
// ---------------------------------------------------------------------------

/// A 16-bit number that is written and followed by any bytes is read back.
pub proof fn lemma_u16_round_trip(v: u16, tail: Seq<u8>)
    ensures
        parse_u16(ser_u16(v) + tail) == Ok::<(u16, Seq<u8>), MQError>((v, tail)),
{
    let b = ser_u16(v) + tail;
    assert(b.skip(2) =~= tail);
}

/// A block of up to 65 535 bytes that is written and followed by any bytes
/// is read back.
pub proof fn lemma_block_round_trip(raw: Seq<u8>, tail: Seq<u8>)
    requires
        raw.len() <= 0xFFFF,
    ensures
        parse_block(ser_block(raw) + tail) == Ok::<(Seq<u8>, Seq<u8>), MQError>((raw, tail)),
{
    let b = ser_block(raw) + tail;
    let n = raw.len() as u16;
    assert(b.subrange(2, 2 + n) =~= raw);
    assert(b.skip(2 + n) =~= tail);
}

/// A string that fits, written and followed by any bytes, is read back.
pub proof fn lemma_str_round_trip(s: Seq<char>, tail: Seq<u8>)
    requires
        str_fits(s),
    ensures
        parse_str(ser_str(s) + tail) == Ok::<(Seq<char>, Seq<u8>), MQError>((s, tail)),
{
    lemma_block_round_trip(encode_utf8(s), tail);
    encode_utf8_valid_utf8(s);
    encode_utf8_decode_utf8(s);
}

/// The two protocol names are UTF-8.
pub proof fn lemma_protocol_names()
    ensures
        valid_utf8(mqtt_name()),
        valid_utf8(mqisdp_name()),
        mqtt_name() != mqisdp_name(),
{
    reveal_strlit("MQTT");
    reveal_strlit("MQIsdp");
    let a = "MQTT";
    let b = "MQIsdp";
    is_ascii_chars_encode_utf8(a@);
    is_ascii_chars_encode_utf8(b@);
    assert(encode_utf8(a@) =~= mqtt_name());
    assert(encode_utf8(b@) =~= mqisdp_name());
    encode_utf8_valid_utf8(a@);
    encode_utf8_valid_utf8(b@);
    assert(mqtt_name().len() == 4 && mqisdp_name().len() == 6);
}

/// The bits of a CONNECT packet's flags byte say what the packet holds.
proof fn lemma_connect_flags(c: ConnectView)
    ensures
        bit_set(connect_flags(c), 128) == (c.username is Some),
        bit_set(connect_flags(c), 64) == (c.password is Some),
        bit_set(connect_flags(c), 4) == (c.last_will is Some),
        bit_set(connect_flags(c), 2) == c.clean_session,
        c.last_will matches Some(w) ==> bit_set(connect_flags(c), 32) == w.retain && (
        connect_flags(c) / 8) % 4 == w.qos.code(),
        c.last_will is None ==> (connect_flags(c) / 8) % 8 == 0,
{
    reveal(connect_flags);
}

/// The last will that a CONNECT packet holds is read back.
proof fn lemma_will_round_trip(c: ConnectView, tail: Seq<u8>)
    requires
        c.last_will matches Some(w) ==> str_fits(w.topic) && str_fits(w.message),
    ensures
        parse_will(connect_flags(c), ser_will(c.last_will) + tail) == Ok::<
            (Option<LastWillView>, Seq<u8>),
            MQError,
        >((c.last_will, tail)),
{
    lemma_connect_flags(c);
    match c.last_will {
        Some(w) => {
            lemma_str_round_trip(w.topic, ser_str(w.message) + tail);
            lemma_str_round_trip(w.message, tail);
            assert(ser_will(c.last_will) + tail =~= ser_str(w.topic) + (ser_str(w.message)
                + tail));
        },
        None => {
        },
    }
}

/// An optional string is read back, when the reader is told whether it is
/// there.
proof fn lemma_opt_str_round_trip(s: Option<Seq<char>>, tail: Seq<u8>)
    requires
        opt_str_fits(s),
    ensures
        parse_opt_str(s is Some, ser_opt_str(s) + tail) == Ok::<
            (Option<Seq<char>>, Seq<u8>),
            MQError,
        >((s, tail)),
{
    match s {
        Some(text) => {
            lemma_str_round_trip(text, tail);
        },
        None => {
        },
    }
}

/// What follows the flags byte of a CONNECT packet.
pub open spec fn connect_tail(c: ConnectView) -> Seq<u8> {
    ser_u16(c.keep_alive) + (ser_str(c.client_id) + (ser_will(c.last_will) + (ser_opt_str(
        c.username,
    ) + ser_opt_str(c.password))))
}

/// What follows the flags byte of a CONNECT packet is read back.
proof fn lemma_connect_tail_round_trip(c: ConnectView)
    requires
        strings_fit(PacketView::Connect(c)),
    ensures
        parse_connect_tail(c.protocol, connect_flags(c), connect_tail(c)) == Ok::<
            (ConnectView, Seq<u8>),
            MQError,
        >((c, Seq::empty())),
{
    reveal(parse_connect_tail);
    lemma_connect_flags(c);
    let t5 = ser_opt_str(c.password);
    let t4 = ser_opt_str(c.username) + t5;
    let t3 = ser_will(c.last_will) + t4;
    let t2 = ser_str(c.client_id) + t3;
    lemma_u16_round_trip(c.keep_alive, t2);
    lemma_str_round_trip(c.client_id, t3);
    lemma_will_round_trip(c, t4);
    lemma_opt_str_round_trip(c.username, t5);
    lemma_opt_str_round_trip(c.password, Seq::empty());
}

/// The protocol name of a CONNECT packet that can be written is read back,
/// and with the level it selects the packet's protocol.
proof fn lemma_protocol_round_trip(protocol: Protocol, tail: Seq<u8>)
    requires
        protocol.supported(),
    ensures
        parse_str(ser_block(protocol.name_bytes()) + tail) matches Ok((name, rest)) && rest == tail
            && Protocol::select(encode_utf8(name), protocol.spec_level()) == Ok::<
            Protocol,
            MQError,
        >(protocol),
{
    let name = protocol.name_bytes();
    lemma_protocol_names();
    lemma_block_round_trip(name, tail);
    decode_utf8_encode_utf8(name);
}

/// The body of a CONNECT packet that can be written is read back.
pub proof fn lemma_connect_round_trip(c: ConnectView)
    requires
        c.protocol.supported(),
        strings_fit(PacketView::Connect(c)),
    ensures
        parse_connect(connect_body(c)) == Ok::<(ConnectView, Seq<u8>), MQError>(
            (c, Seq::empty()),
        ),
{
    let flags = connect_flags(c);
    let level = c.protocol.spec_level();
    let t1 = connect_tail(c);
    let t0 = seq![level, flags] + t1;
    let b = ser_block(c.protocol.name_bytes()) + t0;
    assert(connect_body(c) =~= b);
    lemma_protocol_round_trip(c.protocol, t0);
    lemma_connect_tail_round_trip(c);
    assert(parse_u8(t0.skip(1)) == Ok::<(u8, Seq<u8>), MQError>((flags, t0.skip(1).skip(1))));
    assert(t0.skip(1).skip(1) =~= t1);
    assert(parse_connect(b) == Ok::<(ConnectView, Seq<u8>), MQError>((c, Seq::empty()))) by {
        reveal(parse_connect);
    }
}

/// The body of a PUBLISH packet that can be written is read back, under a
/// header whose first byte is the packet's.
pub proof fn lemma_publish_round_trip(p: PublishView, len: usize)
    requires
        (p.qos == QoS::AtMostOnce) == (p.pid is None),
        str_fits(p.topic_name),
    ensures
        parse_publish(
            Header { hd: first_byte(PacketView::Publish(p)), typ: PacketType::Publish, len },
            publish_body(p),
        ) == Ok::<PublishView, MQError>(p),
{
    let tail = ser_opt_pid(p.pid) + p.payload;
    assert(publish_body(p) =~= ser_str(p.topic_name) + tail);
    lemma_block_round_trip(encode_utf8(p.topic_name), tail);
    encode_utf8_valid_utf8(p.topic_name);
    encode_utf8_decode_utf8(p.topic_name);
    match p.pid {
        Some(pid) => {
            lemma_u16_round_trip(pid.0, p.payload);
        },
        None => {
        },
    }
}

/// Topic filters that fit, written one after the other, are read back.
pub proof fn lemma_filters_round_trip(topics: Seq<SubscribeTopicView>)
    requires
        filters_fit(topics),
    ensures
        parse_filters(ser_filters(topics)) == Ok::<Seq<SubscribeTopicView>, MQError>(topics),
    decreases topics.len(),
{
    if topics.len() == 0 {
        assert(topics =~= Seq::<SubscribeTopicView>::empty());
    } else {
        let first = topics[0];
        let rest = topics.drop_first();
        let tail = seq![first.qos.code()] + ser_filters(rest);
        assert(filters_fit(rest)) by {
            assert forall|i: int| 0 <= i < rest.len() implies str_fits(
                #[trigger] rest[i].topic_path,
            ) by {
            }
        }
        assert(ser_filters(topics) =~= ser_str(first.topic_path) + tail);
        lemma_str_round_trip(first.topic_path, tail);
        assert(tail.skip(1) =~= ser_filters(rest));
        lemma_filters_round_trip(rest);
        assert(seq![first] + rest =~= topics);
    }
}

/// Return codes, written one after the other, are read back.
pub proof fn lemma_codes_round_trip(codes: Seq<SubscribeReturnCodes>)
    ensures
        parse_codes(ser_codes(codes)) == Ok::<Seq<SubscribeReturnCodes>, MQError>(codes),
    decreases codes.len(),
{
    if codes.len() == 0 {
        assert(codes =~= Seq::<SubscribeReturnCodes>::empty());
    } else {
        let rest = codes.drop_first();
        assert(ser_codes(codes).skip(1) =~= ser_codes(rest));
        lemma_codes_round_trip(rest);
        assert(seq![codes[0]] + rest =~= codes);
    }
}

/// Strings that fit, written one after the other, are read back.
pub proof fn lemma_strs_round_trip(topics: Seq<Seq<char>>)
    requires
        strs_fit(topics),
    ensures
        parse_strs(ser_strs(topics)) == Ok::<Seq<Seq<char>>, MQError>(topics),
    decreases topics.len(),
{
    if topics.len() == 0 {
        assert(topics =~= Seq::<Seq<char>>::empty());
    } else {
        let first = topics[0];
        let rest = topics.drop_first();
        assert(strs_fit(rest)) by {
            assert forall|i: int| 0 <= i < rest.len() implies str_fits(#[trigger] rest[i]) by {
            }
        }
        lemma_str_round_trip(first, ser_strs(rest));
        lemma_strs_round_trip(rest);
        assert(seq![first] + rest =~= topics);
    }
}

/// The header that a packet's first byte and its body's length make.
pub open spec fn header_of(p: PacketView) -> Header {
    Header {
        hd: first_byte(p),
        typ: match p {
            PacketView::Connect(_) => PacketType::Connect,
            PacketView::Connack(_) => PacketType::Connack,
            PacketView::Publish(_) => PacketType::Publish,
            PacketView::Puback(_) => PacketType::Puback,
            PacketView::Pubrec(_) => PacketType::Pubrec,
            PacketView::Pubrel(_) => PacketType::Pubrel,
            PacketView::Pubcomp(_) => PacketType::Pubcomp,
            PacketView::Subscribe(_) => PacketType::Subscribe,
            PacketView::Suback(_) => PacketType::Suback,
            PacketView::Unsubscribe(_) => PacketType::Unsubscribe,
            PacketView::Unsuback(_) => PacketType::Unsuback,
            PacketView::Pingreq => PacketType::Pingreq,
            PacketView::Pingresp => PacketType::Pingresp,
            PacketView::Disconnect => PacketType::Disconnect,
        },
        len: body(p).len() as usize,
    }
}

/// The first byte of a packet names the packet's kind, with flags that the
/// kind admits.
pub proof fn lemma_header_round_trip(p: PacketView)
    ensures
        Header::parse(first_byte(p), body(p).len() as usize) == Ok::<Header, MQError>(
            header_of(p),
        ),
{
    match p {
        PacketView::Publish(publish) => {
        },
        _ => {},
    }
}

proof fn lemma_body_connect(c: ConnectView)
    requires
        c.protocol.supported(),
        strings_fit(PacketView::Connect(c)),
    ensures
        parse_body(header_of(PacketView::Connect(c)), connect_body(c)) == Ok::<
            PacketView,
            MQError,
        >(PacketView::Connect(c)),
{
    reveal(parse_body);
    lemma_connect_round_trip(c);
}

proof fn lemma_body_publish(p: PublishView)
    requires
        (p.qos == QoS::AtMostOnce) == (p.pid is None),
        str_fits(p.topic_name),
    ensures
        parse_body(header_of(PacketView::Publish(p)), publish_body(p)) == Ok::<
            PacketView,
            MQError,
        >(PacketView::Publish(p)),
{
    reveal(parse_body);
    lemma_publish_round_trip(p, publish_body(p).len() as usize);
}

proof fn lemma_body_lists(p: PacketView)
    requires
        p is Subscribe || p is Suback || p is Unsubscribe,
        p matches PacketView::Subscribe(s) ==> s.topics.len() > 0,
        strings_fit(p),
        body(p).len() <= max_remaining(),
    ensures
        parse_body(header_of(p), body(p)) == Ok::<PacketView, MQError>(p),
{
    reveal(parse_body);
    match p {
        PacketView::Subscribe(s) => {
            lemma_u16_round_trip(s.pid.0, ser_filters(s.topics));
            lemma_filters_round_trip(s.topics);
        },
        PacketView::Suback(s) => {
            lemma_u16_round_trip(s.pid.0, ser_codes(s.return_codes));
            lemma_codes_round_trip(s.return_codes);
        },
        PacketView::Unsubscribe(u) => {
            lemma_u16_round_trip(u.pid.0, ser_strs(u.topics));
            lemma_strs_round_trip(u.topics);
        },
        _ => {},
    }
}

proof fn lemma_body_short(p: PacketView)
    requires
        p is Connack || p is Puback || p is Pubrec || p is Pubrel || p is Pubcomp || p is Unsuback,
    ensures
        parse_body(header_of(p), body(p)) == Ok::<PacketView, MQError>(p),
{
    reveal(parse_body);
    match p {
        PacketView::Connack(c) => {
        },
        PacketView::Puback(pid) => {
            lemma_u16_round_trip(pid.0, Seq::empty());
        },
        PacketView::Pubrec(pid) => {
            lemma_u16_round_trip(pid.0, Seq::empty());
        },
        PacketView::Pubrel(pid) => {
            lemma_u16_round_trip(pid.0, Seq::empty());
        },
        PacketView::Pubcomp(pid) => {
            lemma_u16_round_trip(pid.0, Seq::empty());
        },
        PacketView::Unsuback(pid) => {
            lemma_u16_round_trip(pid.0, Seq::empty());
        },
        _ => {},
    }
}

/// The body of a packet that can be written is read back, under the header
/// that the packet's first byte and the body's length make.
pub proof fn lemma_body_round_trip(p: PacketView)
    requires
        admissible(p) is Ok,
        strings_fit(p),
        body(p).len() <= max_remaining(),
    ensures
        body(p).len() > 0 ==> parse_body(header_of(p), body(p)) == Ok::<PacketView, MQError>(p),
        body(p).len() == 0 ==> parse_bare(header_of(p)) == Ok::<PacketView, MQError>(p),
{
    match p {
        PacketView::Connect(c) => {
            lemma_body_connect(c);
        },
        PacketView::Publish(publish) => {
            lemma_body_publish(publish);
        },
        PacketView::Subscribe(_) => {
            lemma_body_lists(p);
        },
        PacketView::Suback(_) => {
            lemma_body_lists(p);
        },
        PacketView::Unsubscribe(_) => {
            lemma_body_lists(p);
        },
        PacketView::Pingreq => {},
        PacketView::Pingresp => {},
        PacketView::Disconnect => {},
        _ => {
            lemma_body_short(p);
        },
    }
}

/// Reading back what was written: a packet that can be written, followed by
/// any bytes, is decoded as itself, and the decoder takes just the bytes that
/// were written.
pub proof fn lemma_decode_encode(p: PacketView, tail: Seq<u8>)
    requires
        encode(p) is Ok,
    ensures
        decode(encode(p)->Ok_0 + tail) == Ok::<(PacketView, nat), MQError>(
            (p, encode(p)->Ok_0.len()),
        ),
{
    let bytes = encode(p)->Ok_0;
    let b = bytes + tail;
    let len = body(p).len();
    let after = ser_len(len) + (body(p) + tail);
    assert(b.skip(1) =~= after);
    lemma_remaining_length_round_trip(len, body(p) + tail);
    let k = ser_len(len).len();
    lemma_header_round_trip(p);
    lemma_body_round_trip(p);
    assert(after.subrange(k as int, (k + len) as int) =~= body(p));
}

/// A PUBLISH that is decoded holds a packet identifier exactly when its
/// level is above 0.
pub proof fn lemma_decoded_publish_identifier(b: Seq<u8>)
    requires
        decode(b) matches Ok((PacketView::Publish(_), _)),
    ensures
        decode(b) matches Ok((PacketView::Publish(p), _)) && (p.qos == QoS::AtMostOnce) == (p.pid
            is None),
{
    reveal(parse_body);
}

} // verus!
