//! Writing back what was read.
//!
//! The decoder passes over some bits and bytes that the encoder never
//! writes. Bytes that hold none of these are canonical: they decode to a
//! packet that is encoded as those very bytes.

use vstd::prelude::*;
use vstd::utf8::{decode_utf8_encode_utf8, encode_utf8};
use crate::bits::bit_set;
use crate::mq_error::MQError;
use crate::mqtt::{ConnectView, PacketView, SubackView};
use crate::proto::{Header, PacketType, Protocol, QoS, SubscribeReturnCodes, SubscribeTopicView};
use crate::wire::{
    admissible, be16, body, connack_body, connect_body, connect_flags, decode, encode, filters_fit,
    first_byte, lemma_parse_len_bounds, max_remaining, opt_str_fits, parse_block, parse_body,
    parse_codes, parse_connack, parse_connect, parse_connect_tail, parse_filters, parse_len,
    parse_len_at, parse_opt_str, parse_publish, parse_str, parse_strs, parse_u16, parse_u8,
    parse_will, pow128, publish_body, ser_block, suback_body, ser_codes, ser_filters, ser_len, ser_opt_pid,
    ser_opt_str, ser_str, ser_strs, ser_u16, ser_will, str_fits, strings_fit, strs_fit,
};

verus! {

/// Whether a return code byte is one that the encoder writes: 0, 1, 2 or
/// `0x80`.
pub open spec fn canonical_code(byte: u8) -> bool {
    byte <= 2 || byte == 0x80
}

/// The flags byte of a CONNECT body: the second byte after the protocol
/// name.
pub open spec fn flags_byte(b: Seq<u8>) -> u8 {
    match parse_block(b) {
        Ok((_, rest)) => rest[1],
        Err(_) => 0,
    }
}

/// Whether the body of a packet holds nothing that the decoder passes over:
/// in a CONNECT no byte after the last field and no reserved flag, in a
/// CONNACK no flag but session-present, in a SUBACK no return code with
/// stray bits.
pub open spec fn canonical_body(header: Header, b: Seq<u8>) -> bool {
    match header.typ {
        PacketType::Connect => match parse_connect(b) {
            Ok((_, rest)) => rest.len() == 0 && flags_byte(b) % 2 == 0,
            Err(_) => true,
        },
        PacketType::Connack => b.len() >= 1 ==> b[0] <= 1,
        PacketType::Suback => forall|i: int| 2 <= i < b.len() ==> canonical_code(#[trigger] b[i]),
        _ => true,
    }
}

/// Whether the bytes of a packet hold nothing that the decoder passes over:
/// the remaining length is in its shortest form, the lower half of the first
/// byte is zero where it says nothing, and the body is canonical.
pub open spec fn canonical(b: Seq<u8>) -> bool {
    match parse_u8(b) {
        Err(_) => true,
        Ok((hd, b1)) => match parse_len(b1) {
            Err(_) => true,
            Ok((len, k)) => match Header::parse(hd, len as usize) {
                Err(_) => true,
                Ok(header) => {
                    &&& k == 1 || len >= pow128((k - 1) as nat)
                    &&& header.typ != PacketType::Publish && !header.typ.fixed_flags() ==> hd % 16
                        == 0
                    &&& len > 0 && b1.len() >= k + len ==> canonical_body(
                        header,
                        b1.subrange(k as int, (k + len) as int),
                    )
                },
            },
        },
    }
}

/// A 16-bit number that was read stood there as it is written.
pub proof fn lemma_u16_read(b: Seq<u8>)
    requires
        parse_u16(b) is Ok,
    ensures
        b == ser_u16(parse_u16(b)->Ok_0.0) + parse_u16(b)->Ok_0.1,
{
    let v = parse_u16(b)->Ok_0.0;
    assert(v / 256 == b[0] && v % 256 == b[1]);
    assert(b =~= ser_u16(v) + b.skip(2));
}

/// A block that was read stood there as it is written, and fits.
pub proof fn lemma_block_read(b: Seq<u8>)
    requires
        parse_block(b) is Ok,
    ensures
        b == ser_block(parse_block(b)->Ok_0.0) + parse_block(b)->Ok_0.1,
        parse_block(b)->Ok_0.0.len() <= 0xFFFF,
{
    let n = be16(b[0], b[1]);
    let raw = parse_block(b)->Ok_0.0;
    assert(raw.len() == n);
    assert(n / 256 == b[0] && n % 256 == b[1]);
    assert(b =~= ser_block(raw) + b.skip(2 + n));
}

/// A string that was read stood there as it is written, and fits.
pub proof fn lemma_str_read(b: Seq<u8>)
    requires
        parse_str(b) is Ok,
    ensures
        b == ser_str(parse_str(b)->Ok_0.0) + parse_str(b)->Ok_0.1,
        str_fits(parse_str(b)->Ok_0.0),
{
    lemma_block_read(b);
    decode_utf8_encode_utf8(parse_block(b)->Ok_0.0);
}

/// A remaining length that was read in its shortest form stood there as it
/// is written.
pub proof fn lemma_len_read(b: Seq<u8>, at: nat)
    requires
        at <= 4,
        parse_len_at(b, at) matches Ok((v, k)) && (k == 1 || v >= pow128((k - 1) as nat)),
    ensures
        b.subrange(at as int, (at + parse_len_at(b, at)->Ok_0.1) as int) == ser_len(
            parse_len_at(b, at)->Ok_0.0,
        ),
    decreases 5 - at,
{
    let (v, k) = parse_len_at(b, at)->Ok_0;
    lemma_parse_len_bounds(b, at);
    if b[at as int] < 128 {
        assert(b.subrange(at as int, (at + k) as int) =~= ser_len(v));
    } else {
        let (v1, k1) = parse_len_at(b, at + 1)->Ok_0;
        lemma_parse_len_bounds(b, at + 1);
        assert(v == (b[at as int] - 128) + 128 * v1);
        assert(v1 >= 1 && (k1 == 1 || v1 >= pow128((k1 - 1) as nat)));
        lemma_len_read(b, at + 1);
        assert(v / 128 == v1 && v % 128 == b[at as int] - 128);
        assert(b.subrange(at as int, (at + k) as int) =~= seq![b[at as int]] + b.subrange(
            (at + 1) as int,
            (at + 1 + k1) as int,
        ));
    }
}

/// Topic filters that were read stood there as they are written, and fit.
pub proof fn lemma_filters_read(b: Seq<u8>)
    requires
        parse_filters(b) is Ok,
    ensures
        b == ser_filters(parse_filters(b)->Ok_0),
        filters_fit(parse_filters(b)->Ok_0),
        b.len() > 0 ==> parse_filters(b)->Ok_0.len() > 0,
    decreases b.len(),
{
    if b.len() > 0 {
        let (path, b1) = parse_str(b)->Ok_0;
        let (byte, b2) = parse_u8(b1)->Ok_0;
        let qos = QoS::of_code(byte)->Ok_0;
        lemma_str_read(b);
        lemma_filters_read(b2);
        let rest = parse_filters(b2)->Ok_0;
        let all = parse_filters(b)->Ok_0;
        let first = SubscribeTopicView { topic_path: path, qos };
        assert(all == seq![first] + rest);
        assert(all[0] == first);
        assert(all.drop_first() =~= rest);
        assert(b1 =~= seq![byte] + b2);
        assert(qos.code() == byte);
        assert(b =~= ser_str(path) + seq![qos.code()] + ser_filters(rest));
        assert forall|i: int| 0 <= i < all.len() implies str_fits(
            #[trigger] all[i].topic_path,
        ) by {
            if i > 0 {
                assert(all[i] == rest[i - 1]);
            }
        }
    } else {
        assert(parse_filters(b)->Ok_0 =~= Seq::empty());
    }
}

/// Strings that were read stood there as they are written, and fit.
pub proof fn lemma_strs_read(b: Seq<u8>)
    requires
        parse_strs(b) is Ok,
    ensures
        b == ser_strs(parse_strs(b)->Ok_0),
        strs_fit(parse_strs(b)->Ok_0),
    decreases b.len(),
{
    if b.len() > 0 {
        let (topic, b1) = parse_str(b)->Ok_0;
        lemma_str_read(b);
        lemma_strs_read(b1);
        let rest = parse_strs(b1)->Ok_0;
        let all = parse_strs(b)->Ok_0;
        assert(all == seq![topic] + rest);
        assert(all[0] == topic);
        assert(all.drop_first() =~= rest);
        assert forall|i: int| 0 <= i < all.len() implies str_fits(#[trigger] all[i]) by {
            if i > 0 {
                assert(all[i] == rest[i - 1]);
            }
        }
    } else {
        assert(parse_strs(b)->Ok_0 =~= Seq::empty());
    }
}

/// Return codes that were read from canonical bytes stood there as they are
/// written.
pub proof fn lemma_codes_read(b: Seq<u8>)
    requires
        parse_codes(b) is Ok,
        forall|i: int| 0 <= i < b.len() ==> canonical_code(#[trigger] b[i]),
    ensures
        b == ser_codes(parse_codes(b)->Ok_0),
    decreases b.len(),
{
    if b.len() > 0 {
        let code = SubscribeReturnCodes::of_code(b[0])->Ok_0;
        let tail = b.skip(1);
        assert forall|i: int| 0 <= i < tail.len() implies canonical_code(#[trigger] tail[i]) by {
            assert(tail[i] == b[i + 1]);
        }
        lemma_codes_read(tail);
        let rest = parse_codes(tail)->Ok_0;
        let all = parse_codes(b)->Ok_0;
        assert(all == seq![code] + rest);
        assert(canonical_code(b[0]));
        assert(code.code() == b[0]);
        assert forall|i: int| 0 <= i < b.len() implies b[i] == ser_codes(all)[i] by {
            if i > 0 {
                assert(all[i] == rest[i - 1]);
                assert(b[i] == tail[i - 1]);
                assert(tail[i - 1] == ser_codes(rest)[i - 1]);
            }
        }
        assert(b =~= ser_codes(all));
    } else {
        assert(parse_codes(b)->Ok_0 =~= Seq::empty());
        assert(b =~= ser_codes(Seq::empty()));
    }
}

/// A byte without its lowest bit is the sum of its other bits.
proof fn lemma_flags_rebuild(flags: u8)
    by (bit_vector)
    requires
        flags % 2 == 0,
    ensures
        flags == (if (flags / 128) % 2 == 1 {
            128u8
        } else {
            0u8
        }) + (if (flags / 64) % 2 == 1 {
            64u8
        } else {
            0u8
        }) + (if (flags / 32) % 2 == 1 {
            32u8
        } else {
            0u8
        }) + 8 * ((flags / 8) % 4) + (if (flags / 4) % 2 == 1 {
            4u8
        } else {
            0u8
        }) + (if (flags / 2) % 2 == 1 {
            2u8
        } else {
            0u8
        }),
        (flags / 8) % 8 == 0 ==> (flags / 32) % 2 == 0 && (flags / 8) % 4 == 0,
{
}

/// The first byte of a PUBLISH is `0011` and its three flags.
proof fn lemma_publish_byte_rebuild(hd: u8)
    by (bit_vector)
    requires
        hd / 16 == 3,
    ensures
        hd == 48 + (if (hd / 8) % 2 == 1 {
            8u8
        } else {
            0u8
        }) + 2 * ((hd / 2) % 4) + (if (hd / 1) % 2 == 1 {
            1u8
        } else {
            0u8
        }),
{
}

/// A last will that was read stood there as it is written, and is what the
/// flags say.
proof fn lemma_will_read(flags: u8, b: Seq<u8>)
    requires
        parse_will(flags, b) is Ok,
    ensures
        ({
            let (w, rest) = parse_will(flags, b)->Ok_0;
            &&& b == ser_will(w) + rest
            &&& (w is Some) == bit_set(flags, 4)
            &&& w matches Some(v) ==> str_fits(v.topic) && str_fits(v.message) && v.qos.code() == (
            flags / 8) % 4 && v.retain == bit_set(flags, 32)
            &&& w is None ==> (flags / 8) % 8 == 0
        }),
{
    let (w, rest) = parse_will(flags, b)->Ok_0;
    if bit_set(flags, 4) {
        let (topic, b1) = parse_str(b)->Ok_0;
        lemma_str_read(b);
        lemma_str_read(b1);
        assert(b =~= ser_will(w) + rest);
    } else {
        assert(b =~= ser_will(w) + rest);
    }
}

/// An optional string that was read stood there as it is written.
proof fn lemma_opt_str_read(present: bool, b: Seq<u8>)
    requires
        parse_opt_str(present, b) is Ok,
    ensures
        ({
            let (s, rest) = parse_opt_str(present, b)->Ok_0;
            &&& b == ser_opt_str(s) + rest
            &&& (s is Some) == present
            &&& opt_str_fits(s)
        }),
{
    let (s, rest) = parse_opt_str(present, b)->Ok_0;
    if present {
        lemma_str_read(b);
    } else {
        assert(b =~= ser_opt_str(s) + rest);
    }
}

/// Whether the fields of a CONNECT packet are what the flags byte says.
spec fn flags_say(c: ConnectView, flags: u8) -> bool {
    &&& (c.username is Some) == bit_set(flags, 128)
    &&& (c.password is Some) == bit_set(flags, 64)
    &&& (c.last_will is Some) == bit_set(flags, 4)
    &&& c.clean_session == bit_set(flags, 2)
    &&& c.last_will matches Some(v) ==> v.qos.code() == (flags / 8) % 4 && v.retain == bit_set(
        flags,
        32,
    )
    &&& c.last_will is None ==> (flags / 8) % 8 == 0
}

/// A flags byte without the reserved bit is the one that is written for
/// the fields that it speaks of.
proof fn lemma_flags_read(c: ConnectView, flags: u8)
    requires
        flags_say(c, flags),
        flags % 2 == 0,
    ensures
        connect_flags(c) == flags,
{
    reveal(connect_flags);
    lemma_flags_rebuild(flags);
}

/// The steps in which what follows the flags byte of a CONNECT packet is
/// read, each on what the one before left.
spec fn tail_steps(protocol: Protocol, flags: u8, b: Seq<u8>) -> bool {
    &&& parse_u16(b) matches Ok((keep_alive, b1))
    &&& parse_str(b1) matches Ok((client_id, b2))
    &&& parse_will(flags, b2) matches Ok((last_will, b3))
    &&& parse_opt_str(bit_set(flags, 128), b3) matches Ok((username, b4))
    &&& parse_opt_str(bit_set(flags, 64), b4) matches Ok((password, b5))
    &&& parse_connect_tail(protocol, flags, b) == Ok::<(ConnectView, Seq<u8>), MQError>(
        (
            ConnectView {
                protocol,
                keep_alive,
                client_id,
                clean_session: bit_set(flags, 2),
                last_will,
                username,
                password,
            },
            b5,
        ),
    )
}

proof fn lemma_tail_steps(protocol: Protocol, flags: u8, b: Seq<u8>)
    requires
        parse_connect_tail(protocol, flags, b) is Ok,
    ensures
        tail_steps(protocol, flags, b),
{
    reveal(parse_connect_tail);
}

/// What follows the flags byte of a CONNECT packet and was read stood there
/// as it is written.
proof fn lemma_connect_tail_read(protocol: Protocol, flags: u8, b: Seq<u8>)
    requires
        parse_connect_tail(protocol, flags, b) is Ok,
    ensures
        ({
            let (c, rest) = parse_connect_tail(protocol, flags, b)->Ok_0;
            &&& b == crate::laws::connect_tail(c) + rest
            &&& c.protocol == protocol
            &&& flags_say(c, flags)
            &&& strings_fit(PacketView::Connect(c))
        }),
{
    lemma_tail_steps(protocol, flags, b);
    let (c, rest) = parse_connect_tail(protocol, flags, b)->Ok_0;
    let (keep_alive, b1) = parse_u16(b)->Ok_0;
    let (client_id, b2) = parse_str(b1)->Ok_0;
    let (last_will, b3) = parse_will(flags, b2)->Ok_0;
    let (username, b4) = parse_opt_str(bit_set(flags, 128), b3)->Ok_0;
    let (password, b5) = parse_opt_str(bit_set(flags, 64), b4)->Ok_0;
    lemma_u16_read(b);
    lemma_str_read(b1);
    lemma_will_read(flags, b2);
    lemma_opt_str_read(bit_set(flags, 128), b3);
    lemma_opt_str_read(bit_set(flags, 64), b4);
    assert(b4 == ser_opt_str(password) + rest);
    assert(b3 == ser_opt_str(username) + b4);
    assert(b2 == ser_will(last_will) + b3);
    assert(b1 == ser_str(client_id) + b2);
    assert(b == ser_u16(keep_alive) + b1);
    lemma_join(
        ser_u16(keep_alive),
        ser_str(client_id),
        ser_will(last_will),
        ser_opt_str(username),
        ser_opt_str(password),
        rest,
    );
}

/// Joining six sequences from the right is joining five of them and then
/// the sixth.
proof fn lemma_join(a: Seq<u8>, b: Seq<u8>, c: Seq<u8>, d: Seq<u8>, e: Seq<u8>, f: Seq<u8>)
    ensures
        a + (b + (c + (d + (e + f)))) == (a + (b + (c + (d + e)))) + f,
{
    assert(a + (b + (c + (d + (e + f)))) =~= (a + (b + (c + (d + e)))) + f);
}

/// The body of a CONNECT packet that was read from canonical bytes stood
/// there as it is written, and the packet can be written.
pub proof fn lemma_connect_read(b: Seq<u8>)
    requires
        parse_connect(b) matches Ok((_, rest)) && rest.len() == 0,
        flags_byte(b) % 2 == 0,
    ensures
        b == connect_body(parse_connect(b)->Ok_0.0),
        parse_connect(b)->Ok_0.0.protocol.supported(),
        strings_fit(PacketView::Connect(parse_connect(b)->Ok_0.0)),
{
    reveal(parse_connect);
    let (c, rest) = parse_connect(b)->Ok_0;
    let (name, b1) = parse_str(b)->Ok_0;
    let (level, b2) = parse_u8(b1)->Ok_0;
    let protocol = Protocol::select(encode_utf8(name), level)->Ok_0;
    let (flags, b3) = parse_u8(b2)->Ok_0;
    lemma_str_read(b);
    assert(b1[1] == flags);
    lemma_connect_tail_read(protocol, flags, b3);
    lemma_flags_read(c, flags);
    assert(protocol.name_bytes() == encode_utf8(name));
    assert(protocol.spec_level() == level);
    assert(b1 =~= seq![level, flags] + b3);
    assert(rest =~= Seq::<u8>::empty());
    assert(b3 =~= crate::laws::connect_tail(c));
    assert(b =~= connect_body(c));
    assert(crate::proto::mqisdp_name().len() == 6 && crate::proto::mqtt_name().len() == 4);
}

/// The body of a PUBLISH packet that was read stood there as it is written,
/// and the packet can be written with the first byte that it was read with.
pub proof fn lemma_publish_read(header: Header, b: Seq<u8>)
    requires
        parse_publish(header, b) is Ok,
        header.hd / 16 == 3,
    ensures
        ({
            let p = parse_publish(header, b)->Ok_0;
            &&& b == publish_body(p)
            &&& (p.qos == QoS::AtMostOnce) == (p.pid is None)
            &&& str_fits(p.topic_name)
            &&& first_byte(PacketView::Publish(p)) == header.hd
        }),
{
    let p = parse_publish(header, b)->Ok_0;
    let (raw, b1) = parse_block(b)->Ok_0;
    lemma_block_read(b);
    decode_utf8_encode_utf8(raw);
    lemma_publish_byte_rebuild(header.hd);
    if p.qos != QoS::AtMostOnce {
        lemma_u16_read(b1);
        assert(b1 =~= ser_opt_pid(p.pid) + p.payload);
    } else {
        assert(b1 =~= ser_opt_pid(p.pid) + p.payload);
    }
    assert(b =~= publish_body(p));
}

/// The body of a packet that was read from canonical bytes stood there as
/// it is written, and the packet can be written with the first byte that it
/// was read with.
pub proof fn lemma_body_read(header: Header, hd: u8, b: Seq<u8>)
    requires
        Header::parse(hd, header.len) == Ok::<Header, MQError>(header),
        b.len() == header.len,
        b.len() > 0,
        b.len() <= max_remaining(),
        parse_body(header, b) is Ok,
        canonical_body(header, b),
        header.typ != PacketType::Publish && !header.typ.fixed_flags() ==> hd % 16 == 0,
    ensures
        ({
            let p = parse_body(header, b)->Ok_0;
            &&& body(p) == b
            &&& first_byte(p) == hd
            &&& admissible(p) is Ok
            &&& strings_fit(p)
        }),
{
    reveal(parse_body);
    match header.typ {
        PacketType::Connect => {
            lemma_connect_read(b);
        },
        PacketType::Connack => {
            assert(b =~= connack_body(parse_connack(header, b)->Ok_0));
        },
        PacketType::Publish => {
            lemma_publish_read(header, b);
        },
        PacketType::Subscribe => {
            lemma_u16_read(b);
            lemma_filters_read(b.skip(2));
        },
        PacketType::Suback => {
            lemma_u16_read(b);
            let tail = b.skip(2);
            assert forall|i: int| 0 <= i < tail.len() implies canonical_code(
                #[trigger] tail[i],
            ) by {
                assert(tail[i] == b[i + 2]);
            }
            lemma_codes_read(tail);
        },
        PacketType::Unsubscribe => {
            lemma_u16_read(b);
            lemma_strs_read(b.skip(2));
        },
        PacketType::Pingreq => {},
        PacketType::Pingresp => {},
        PacketType::Disconnect => {},
        _ => {
            lemma_u16_read(b);
            assert(b.skip(2) =~= Seq::<u8>::empty());
            assert(b =~= ser_u16(be16(b[0], b[1])));
        },
    }
}

/// Writing back what was read: bytes that decode to a packet and are
/// canonical are, as far as the decoder took them, the bytes that the packet
/// is encoded as.
pub proof fn lemma_encode_decode(b: Seq<u8>)
    requires
        decode(b) is Ok,
        canonical(b),
    ensures
        encode(decode(b)->Ok_0.0) == Ok::<Seq<u8>, MQError>(b.take(decode(b)->Ok_0.1 as int)),
{
    let (p, n) = decode(b)->Ok_0;
    let (hd, b1) = parse_u8(b)->Ok_0;
    let (len, k) = parse_len(b1)->Ok_0;
    let header = Header::parse(hd, len as usize)->Ok_0;
    lemma_parse_len_bounds(b1, 0);
    lemma_len_read(b1, 0);
    assert(b1.subrange(0, k as int) == ser_len(len));
    if len == 0 {
        assert(body(p) =~= Seq::<u8>::empty());
        assert(first_byte(p) == hd);
        assert(b.take(n as int) =~= seq![hd] + ser_len(len) + body(p));
    } else {
        let raw = b1.subrange(k as int, (k + len) as int);
        lemma_body_read(header, hd, raw);
        assert(b.take(n as int) =~= seq![hd] + ser_len(len) + raw);
    }
}

/// A remaining length is written in its shortest form.
pub proof fn lemma_ser_len_shortest(n: nat)
    requires
        n <= max_remaining(),
    ensures
        1 <= ser_len(n).len() <= 4,
        ser_len(n).len() == 1 || n >= pow128((ser_len(n).len() - 1) as nat),
        n < pow128(ser_len(n).len()),
    decreases n,
{
    if n >= 128 {
        lemma_ser_len_shortest(n / 128);
    }
}

/// The lowest bit of the flags byte of a CONNECT packet is never set.
proof fn lemma_flags_even(c: ConnectView)
    ensures
        connect_flags(c) % 2 == 0,
{
    reveal(connect_flags);
}

/// The flags byte that is read from the body of a CONNECT packet is the
/// one that was written.
proof fn lemma_written_flags(c: ConnectView)
    ensures
        flags_byte(connect_body(c)) == connect_flags(c),
{
    let name = c.protocol.name_bytes();
    let tail = seq![c.protocol.spec_level(), connect_flags(c)] + crate::laws::connect_tail(c);
    assert(name.len() <= 6);
    crate::laws::lemma_block_round_trip(name, tail);
    assert(connect_body(c) =~= ser_block(name) + tail);
    assert(tail[1] == connect_flags(c));
}

/// The body that is written for a CONNECT packet is canonical.
proof fn lemma_written_connect_canonical(c: ConnectView)
    requires
        c.protocol.supported(),
        strings_fit(PacketView::Connect(c)),
    ensures
        canonical_body(crate::laws::header_of(PacketView::Connect(c)), connect_body(c)),
{
    crate::laws::lemma_connect_round_trip(c);
    lemma_written_flags(c);
    lemma_flags_even(c);
}

/// The return codes that are written for a SUBACK packet are canonical.
proof fn lemma_written_codes_canonical(s: SubackView)
    ensures
        forall|i: int|
            2 <= i < suback_body(s).len() ==> canonical_code(#[trigger] suback_body(s)[i]),
{
    let b = suback_body(s);
    assert forall|i: int| 2 <= i < b.len() implies canonical_code(#[trigger] b[i]) by {
        assert(b[i] == ser_codes(s.return_codes)[i - 2]);
    }
}

/// The body that is written for a packet is canonical.
proof fn lemma_written_body_canonical(p: PacketView)
    requires
        admissible(p) is Ok,
        strings_fit(p),
    ensures
        canonical_body(crate::laws::header_of(p), body(p)),
{
    match p {
        PacketView::Connect(c) => {
            lemma_written_connect_canonical(c);
        },
        PacketView::Suback(s) => {
            lemma_written_codes_canonical(s);
        },
        _ => {},
    }
}

/// What is written for a packet is canonical, whatever follows it.
pub proof fn lemma_written_is_canonical(p: PacketView, tail: Seq<u8>)
    requires
        encode(p) is Ok,
    ensures
        canonical(encode(p)->Ok_0 + tail),
{
    let b = encode(p)->Ok_0 + tail;
    let len = body(p).len();
    let after = ser_len(len) + (body(p) + tail);
    assert(b.skip(1) =~= after);
    crate::laws::lemma_remaining_length_round_trip(len, body(p) + tail);
    lemma_ser_len_shortest(len);
    crate::laws::lemma_header_round_trip(p);
    lemma_written_body_canonical(p);
    let k = ser_len(len).len();
    assert(after.subrange(k as int, (k + len) as int) =~= body(p));
}

/// Among the bytes that decode to a packet, the canonical ones are exactly
/// those that the packet is encoded as.
pub proof fn lemma_canonical_exactly(b: Seq<u8>)
    requires
        decode(b) is Ok,
    ensures
        canonical(b) <==> encode(decode(b)->Ok_0.0) == Ok::<Seq<u8>, MQError>(
            b.take(decode(b)->Ok_0.1 as int),
        ),
{
    let (p, n) = decode(b)->Ok_0;
    if canonical(b) {
        lemma_encode_decode(b);
    }
    if encode(p) == Ok::<Seq<u8>, MQError>(b.take(n as int)) {
        crate::wire::lemma_decode_within(b);
        lemma_written_is_canonical(p, b.skip(n as int));
        assert(b.take(n as int) + b.skip(n as int) =~= b);
    }
}

} // verus!
