//! Decoding control packets from bytes.

use vstd::prelude::*;
use vstd::slice::{slice_subrange, slice_to_vec};
use std::sync::Arc;
use crate::bits::{has_bit, low_seven, three_bits, two_bits};
use crate::mq_error::MQError;
use crate::mqtt::{
    filters_view, texts_view, Connack, Connect, Packet, Publish, Suback, Subscribe, Unsubscribe,
};
use crate::outside::read_be_u16;
use crate::proto::{
    ConnectReturnCode, Header, LastWill, PacketIdentifier, PacketType, Protocol, QoS,
    SubscribeReturnCodes, SubscribeTopic, MULTIPLIER,
};
use crate::wire::{
    decode, lemma_parse_len_bounds, missing, parse_body, parse_codes, parse_connack, parse_connect,
    parse_connect_tail, parse_filters, parse_len, parse_len_at, parse_publish, parse_str,
    parse_strs, parse_suback, parse_subscribe, parse_u16, parse_u8, parse_unsubscribe, pow128,
    prepend,
};

verus! {

/// A reader over bytes in memory. Its view is what has not been read yet.
///
/// A read that fails leaves the reader where it was.
pub struct MqttRead<'a> {
    rest: &'a [u8],
}

impl<'a> View for MqttRead<'a> {
    type V = Seq<u8>;

    closed spec fn view(&self) -> Seq<u8> {
        self.rest@
    }
}

impl<'a> MqttRead<'a> {
    /// A reader at the start of `buf`.
    pub fn new(buf: &'a [u8]) -> (r: MqttRead<'a>)
        ensures
            r@ == buf@,
    {
        MqttRead { rest: buf }
    }

    /// The number of bytes that have not been read yet.
    pub fn remaining(&self) -> (r: usize)
        ensures
            r == self@.len(),
    {
        self.rest.len()
    }

    /// How many bytes have to follow the unread ones before a packet can be
    /// read from them.
    pub fn needed(&self) -> (r: Result<usize, MQError>)
        ensures
            match missing(self@) {
                Ok(n) => r == Ok::<usize, MQError>(n as usize) && n <= 268435460,
                Err(e) => r == Err::<usize, MQError>(e),
            },
    {
        let mut rd = MqttRead { rest: self.rest };
        if rd.read_u8().is_err() {
            return Ok(1);
        }
        proof {
            lemma_parse_len_bounds(rd@, 0);
        }
        match rd.read_remaining_length() {
            Err(MQError::UnexpectedEof) => Ok(1),
            Err(e) => Err(e),
            Ok(len) => {
                let at_hand = rd.remaining();
                if at_hand >= len {
                    Ok(0)
                } else {
                    Ok(len - at_hand)
                }
            },
        }
    }

    /// Splits off a reader over the next `len` bytes and moves past them.
    pub fn take(&mut self, len: usize) -> (r: Result<MqttRead<'a>, MQError>)
        ensures
            old(self)@.len() >= len ==> (r matches Ok(part) && part@ == old(self)@.take(len as int))
                && final(self)@ == old(self)@.skip(len as int),
            old(self)@.len() < len ==> r == Err::<MqttRead<'a>, MQError>(MQError::UnexpectedEof)
                && final(self)@ == old(self)@,
    {
        let n = self.rest.len();
        if n < len {
            return Err(MQError::UnexpectedEof);
        }
        let part = slice_subrange(self.rest, 0, len);
        self.rest = slice_subrange(self.rest, len, n);
        Ok(MqttRead { rest: part })
    }

    /// Reads one byte.
    pub fn read_u8(&mut self) -> (r: Result<u8, MQError>)
        ensures
            match parse_u8(old(self)@) {
                Ok((v, rest)) => r == Ok::<u8, MQError>(v) && final(self)@ == rest,
                Err(e) => r == Err::<u8, MQError>(e) && final(self)@ == old(self)@,
            },
    {
        let n = self.rest.len();
        if n < 1 {
            return Err(MQError::UnexpectedEof);
        }
        let v = self.rest[0];
        self.rest = slice_subrange(self.rest, 1, n);
        Ok(v)
    }

    /// Reads a big-endian 16-bit number.
    pub fn read_u16(&mut self) -> (r: Result<u16, MQError>)
        ensures
            match parse_u16(old(self)@) {
                Ok((v, rest)) => r == Ok::<u16, MQError>(v) && final(self)@ == rest,
                Err(e) => r == Err::<u16, MQError>(e) && final(self)@ == old(self)@,
            },
    {
        let n = self.rest.len();
        if n < 2 {
            return Err(MQError::UnexpectedEof);
        }
        let v = read_be_u16(self.rest);
        self.rest = slice_subrange(self.rest, 2, n);
        Ok(v)
    }

    /// Reads up to `len` bytes: fewer if the reader ends before.
    pub fn read_payload(&mut self, len: usize) -> (r: Result<Box<Vec<u8>>, MQError>)
        ensures
            r matches Ok(payload) && payload@ == old(self)@.take(
                if len <= old(self)@.len() {
                    len as int
                } else {
                    old(self)@.len() as int
                },
            ),
            final(self)@ == old(self)@.skip(
                if len <= old(self)@.len() {
                    len as int
                } else {
                    old(self)@.len() as int
                },
            ),
    {
        let n = self.rest.len();
        let k = if len <= n {
            len
        } else {
            n
        };
        let payload = slice_to_vec(slice_subrange(self.rest, 0, k));
        self.rest = slice_subrange(self.rest, k, n);
        Ok(Box::new(payload))
    }

    /// Reads a string: a 16-bit length and that many bytes of UTF-8.
    pub fn read_mqtt_string(&mut self) -> (r: Result<String, MQError>)
        ensures
            match parse_str(old(self)@) {
                Ok((s, rest)) => (r matches Ok(text) && text@ == s) && final(self)@ == rest,
                Err(e) => r == Err::<String, MQError>(e) && final(self)@ == old(self)@,
            },
    {
        let mut rd = MqttRead { rest: self.rest };
        let len = rd.read_u16()? as usize;
        let raw = rd.take(len)?;
        assert(raw@ == old(self)@.subrange(2, 2 + len));
        match String::from_utf8(slice_to_vec(raw.rest)) {
            Ok(text) => {
                self.rest = rd.rest;
                Ok(text)
            },
            Err(_) => Err(MQError::TopicNameMustNotContainNonUtf8),
        }
    }

    /// Reads a remaining length: up to four bytes of seven bits each, lowest
    /// first, the top bit of a byte saying that another follows.
    pub fn read_remaining_length(&mut self) -> (r: Result<usize, MQError>)
        ensures
            match parse_len(old(self)@) {
                Ok((v, k)) => r == Ok::<usize, MQError>(v as usize) && final(self)@ == old(
                    self,
                )@.skip(k as int),
                Err(e) => r == Err::<usize, MQError>(e) && final(self)@ == old(self)@,
            },
    {
        let mut rd = MqttRead { rest: self.rest };
        let mut mult: usize = 1;
        let mut len: usize = 0;
        let mut done = false;
        let mut count: usize = 0;
        let ghost all = self.rest@;
        while !done
            invariant
                all == old(self)@,
                self.rest@ == all,
                count <= 4,
                count <= all.len(),
                rd@ == all.skip(count as int),
                mult == pow128(count as nat),
                len < mult,
                !done ==> parse_len(all) == resume(
                    len as nat,
                    mult as nat,
                    count as nat,
                    parse_len_at(all, count as nat),
                ),
                done ==> parse_len(all) == Ok::<(nat, nat), MQError>((len as nat, count as nat)),
            decreases 5 - count,
        {
            let byte = match rd.read_u8() {
                Ok(byte) => byte,
                Err(e) => {
                    return Err(e);
                },
            };
            if mult >= MULTIPLIER {
                return Err(MQError::MalformedRemainingLength);
            }
            let low = low_seven(byte);
            proof {
                let m = mult as int;
                assert(low * m <= 127 * m) by (nonlinear_arith)
                    requires
                        low <= 127,
                        m >= 0,
                ;
                if byte >= 128 {
                    match parse_len_at(all, (count + 1) as nat) {
                        Ok((v, k)) => {
                            assert(len + m * (low + 128 * v) == (len + low * m) + (m * 128) * v)
                                by (nonlinear_arith);
                        },
                        Err(_) => {},
                    }
                } else {
                    assert(m * low == low * m) by (nonlinear_arith);
                }
            }
            len += (low as usize) * mult;
            mult *= 0x80;
            done = !has_bit(byte, 0x80);
            count += 1;
        }
        self.rest = rd.rest;
        Ok(len)
    }

    /// Moves to the end of the bytes.
    fn finish(&mut self)
        ensures
            final(self)@ == Seq::<u8>::empty(),
    {
        let n = self.rest.len();
        self.rest = slice_subrange(self.rest, n, n);
    }

    /// Reads the body of a CONNECT packet, and moves to the end of the bytes:
    /// what follows the packet's last field is passed over.
    pub fn read_connect(&mut self, _header: Header) -> (r: Result<Box<Connect>, MQError>)
        ensures
            match parse_connect(old(self)@) {
                Ok((c, _)) => (r matches Ok(connect) && connect@ == c) && final(self)@ == Seq::<
                    u8,
                >::empty(),
                Err(e) => r == Err::<Box<Connect>, MQError>(e) && final(self)@ == old(self)@,
            },
    {
        reveal(parse_connect);
        reveal(parse_connect_tail);
        let mut rd = MqttRead { rest: self.rest };
        let protocol_name = rd.read_mqtt_string()?;
        let protocol_level = rd.read_u8()?;
        let protocol = Protocol::new(protocol_name.as_str(), protocol_level)?;

        let connect_flags = rd.read_u8()?;
        let keep_alive = rd.read_u16()?;
        let client_id = rd.read_mqtt_string()?;

        let last_will = if !has_bit(connect_flags, 0b100) {
            if three_bits(connect_flags) != 0 {
                return Err(MQError::IncorrectPacketFormat);
            }
            None
        } else {
            let will_topic = rd.read_mqtt_string()?;
            let will_message = rd.read_mqtt_string()?;
            let will_qos = QoS::from_u8(two_bits(connect_flags, 3))?;
            Some(
                LastWill {
                    topic: will_topic,
                    message: will_message,
                    qos: will_qos,
                    retain: has_bit(connect_flags, 0b0010_0000),
                },
            )
        };

        let username = if has_bit(connect_flags, 0b1000_0000) {
            Some(rd.read_mqtt_string()?)
        } else {
            None
        };

        let password = if has_bit(connect_flags, 0b0100_0000) {
            Some(rd.read_mqtt_string()?)
        } else {
            None
        };

        self.finish();
        Ok(
            Box::new(
                Connect {
                    protocol,
                    keep_alive,
                    client_id,
                    clean_session: has_bit(connect_flags, 0b10),
                    last_will,
                    username,
                    password,
                },
            ),
        )
    }

    /// Reads the body of a CONNACK packet: two bytes.
    pub fn read_connack(&mut self, header: Header) -> (r: Result<Connack, MQError>)
        ensures
            match parse_connack(header, old(self)@) {
                Ok(c) => r == Ok::<Connack, MQError>(c) && final(self)@ == old(self)@.skip(2),
                Err(e) => r == Err::<Connack, MQError>(e) && final(self)@ == old(self)@,
            },
    {
        if header.len != 2 {
            return Err(MQError::PayloadSizeIncorrect);
        }
        let mut rd = MqttRead { rest: self.rest };
        let flags = rd.read_u8()?;
        let return_code = rd.read_u8()?;
        let code = ConnectReturnCode::from_u8(return_code)?;
        self.rest = rd.rest;
        Ok(Connack { session_present: has_bit(flags, 0x01), code })
    }

    /// Reads the body of a PUBLISH packet, to its end.
    pub fn read_publish(&mut self, header: Header) -> (r: Result<Box<Publish>, MQError>)
        ensures
            match parse_publish(header, old(self)@) {
                Ok(p) => (r matches Ok(publish) && publish@ == p) && final(self)@ == Seq::<
                    u8,
                >::empty(),
                Err(e) => r == Err::<Box<Publish>, MQError>(e) && final(self)@ == old(self)@,
            },
    {
        let qos = header.qos()?;
        let mut rd = MqttRead { rest: self.rest };
        let len = rd.read_u16()? as usize;
        let raw = rd.take(len)?;
        assert(raw@ == old(self)@.subrange(2, 2 + len));
        // Packet identifier exists where QoS > 0
        let pid = if qos != QoS::AtMostOnce {
            Some(PacketIdentifier(rd.read_u16()?))
        } else {
            None
        };
        let topic_name = match String::from_utf8(slice_to_vec(raw.rest)) {
            Ok(text) => text,
            Err(_) => {
                return Err(MQError::TopicNameMustNotContainNonUtf8);
            },
        };
        let payload = slice_to_vec(rd.rest);
        proof {
            let b1 = old(self)@.skip(2 + len);
            assert(qos != QoS::AtMostOnce ==> rd@ == b1.skip(2));
            assert(qos == QoS::AtMostOnce ==> rd@ == b1);
        }
        self.finish();
        Ok(
            Box::new(
                Publish {
                    dup: header.dup(),
                    qos,
                    retain: header.retain(),
                    topic_name,
                    pid,
                    payload: Arc::new(payload),
                },
            ),
        )
    }

    /// Reads the body of a SUBSCRIBE packet, to its end.
    pub fn read_subscribe(&mut self, _header: Header) -> (r: Result<Box<Subscribe>, MQError>)
        ensures
            match parse_subscribe(old(self)@) {
                Ok(s) => (r matches Ok(subscribe) && subscribe@ == s) && final(self)@ == Seq::<
                    u8,
                >::empty(),
                Err(e) => r == Err::<Box<Subscribe>, MQError>(e) && final(self)@ == old(self)@,
            },
    {
        let mut rd = MqttRead { rest: self.rest };
        let pid = rd.read_u16()?;
        if rd.remaining() == 0 {
            return Err(MQError::PayloadRequired);
        }
        let ghost list = rd@;
        let mut topics: Vec<SubscribeTopic> = Vec::new();
        while rd.remaining() > 0
            invariant
                self.rest@ == old(self)@,
                parse_u16(old(self)@) == Ok::<(u16, Seq<u8>), MQError>((pid, list)),
                list.len() > 0,
                parse_filters(list) == prepend(filters_view(topics@), parse_filters(rd@)),
            decreases rd@.len(),
        {
            let ghost before = filters_view(topics@);
            let topic_filter = rd.read_mqtt_string()?;
            let requested_qos = rd.read_u8()?;
            let qos = QoS::from_u8(requested_qos)?;
            let topic = SubscribeTopic { topic_path: topic_filter, qos };
            topics.push(topic);
            proof {
                assert(filters_view(topics@) =~= before.push(topic@));
                match parse_filters(rd@) {
                    Ok(items) => {
                        assert(before.push(topic@) + items =~= before + (seq![topic@] + items));
                    },
                    Err(_) => {},
                }
            }
        }
        self.finish();
        Ok(Box::new(Subscribe { pid: PacketIdentifier(pid), topics }))
    }

    /// Reads the body of a SUBACK packet, to its end.
    pub fn read_suback(&mut self, _header: Header) -> (r: Result<Box<Suback>, MQError>)
        ensures
            match parse_suback(old(self)@) {
                Ok(s) => (r matches Ok(suback) && suback@ == s) && final(self)@ == Seq::<
                    u8,
                >::empty(),
                Err(e) => r == Err::<Box<Suback>, MQError>(e) && final(self)@ == old(self)@,
            },
    {
        let mut rd = MqttRead { rest: self.rest };
        let pid = rd.read_u16()?;
        let ghost list = rd@;
        let mut return_codes: Vec<SubscribeReturnCodes> = Vec::new();
        while rd.remaining() > 0
            invariant
                self.rest@ == old(self)@,
                parse_u16(old(self)@) == Ok::<(u16, Seq<u8>), MQError>((pid, list)),
                parse_codes(list) == prepend(return_codes@, parse_codes(rd@)),
            decreases rd@.len(),
        {
            let ghost before = return_codes@;
            let return_code = rd.read_u8()?;
            let code = SubscribeReturnCodes::from_u8(return_code)?;
            return_codes.push(code);
            proof {
                match parse_codes(rd@) {
                    Ok(items) => {
                        assert(before.push(code) + items =~= before + (seq![code] + items));
                    },
                    Err(_) => {},
                }
            }
        }
        self.finish();
        Ok(Box::new(Suback { pid: PacketIdentifier(pid), return_codes }))
    }

    /// Reads the body of an UNSUBSCRIBE packet, to its end.
    pub fn read_unsubscribe(&mut self, _header: Header) -> (r: Result<Box<Unsubscribe>, MQError>)
        ensures
            match parse_unsubscribe(old(self)@) {
                Ok(u) => (r matches Ok(unsubscribe) && unsubscribe@ == u) && final(self)@
                    == Seq::<u8>::empty(),
                Err(e) => r == Err::<Box<Unsubscribe>, MQError>(e) && final(self)@ == old(
                    self,
                )@,
            },
    {
        let mut rd = MqttRead { rest: self.rest };
        let pid = rd.read_u16()?;
        let ghost list = rd@;
        let mut topics: Vec<String> = Vec::new();
        while rd.remaining() > 0
            invariant
                self.rest@ == old(self)@,
                parse_u16(old(self)@) == Ok::<(u16, Seq<u8>), MQError>((pid, list)),
                parse_strs(list) == prepend(texts_view(topics@), parse_strs(rd@)),
            decreases rd@.len(),
        {
            let ghost before = texts_view(topics@);
            let topic_filter = rd.read_mqtt_string()?;
            let ghost text = topic_filter@;
            topics.push(topic_filter);
            proof {
                assert(texts_view(topics@) =~= before.push(text));
                match parse_strs(rd@) {
                    Ok(items) => {
                        assert(before.push(text) + items =~= before + (seq![text] + items));
                    },
                    Err(_) => {},
                }
            }
        }
        self.finish();
        Ok(Box::new(Unsubscribe { pid: PacketIdentifier(pid), topics }))
    }

    /// Reads a body that is a packet identifier and nothing else.
    fn read_pid_only(&mut self, len: usize) -> (r: Result<PacketIdentifier, MQError>)
        requires
            old(self)@.len() == len,
        ensures
            r == crate::wire::parse_pid_only(old(self)@),
    {
        if len != 2 {
            return Err(MQError::PayloadSizeIncorrect);
        }
        let pid = self.read_u16()?;
        Ok(PacketIdentifier(pid))
    }

    /// Reads the body of a packet whose fixed header is `header`.
    fn read_body(&mut self, header: Header) -> (r: Result<Packet, MQError>)
        requires
            old(self)@.len() == header.len,
        ensures
            match parse_body(header, old(self)@) {
                Ok(p) => r matches Ok(packet) && packet@ == p,
                Err(e) => r == Err::<Packet, MQError>(e),
            },
    {
        reveal(parse_body);
        let len = header.len;
        match header.typ {
            PacketType::Connect => Ok(Packet::Connect(self.read_connect(header)?)),
            PacketType::Connack => Ok(Packet::Connack(self.read_connack(header)?)),
            PacketType::Publish => Ok(Packet::Publish(self.read_publish(header)?)),
            PacketType::Puback => Ok(Packet::Puback(self.read_pid_only(len)?)),
            PacketType::Pubrec => Ok(Packet::Pubrec(self.read_pid_only(len)?)),
            PacketType::Pubrel => Ok(Packet::Pubrel(self.read_pid_only(len)?)),
            PacketType::Pubcomp => Ok(Packet::Pubcomp(self.read_pid_only(len)?)),
            PacketType::Subscribe => Ok(Packet::Subscribe(self.read_subscribe(header)?)),
            PacketType::Suback => Ok(Packet::Suback(self.read_suback(header)?)),
            PacketType::Unsubscribe => Ok(Packet::Unsubscribe(self.read_unsubscribe(header)?)),
            PacketType::Unsuback => Ok(Packet::Unsuback(self.read_pid_only(len)?)),
            PacketType::Pingreq => Err(MQError::IncorrectPacketFormat),
            PacketType::Pingresp => Err(MQError::IncorrectPacketFormat),
            PacketType::Disconnect => Err(MQError::UnsupportedPacketType),
        }
    }

    /// Reads one control packet: the first byte, the remaining length, and a
    /// body of that length.
    pub fn read_packet(&mut self) -> (r: Result<Packet, MQError>)
        ensures
            match decode(old(self)@) {
                Ok((p, n)) => (r matches Ok(packet) && packet@ == p) && final(self)@ == old(
                    self,
                )@.skip(n as int),
                Err(e) => r == Err::<Packet, MQError>(e) && final(self)@ == old(self)@,
            },
    {
        let mut rd = MqttRead { rest: self.rest };
        let hd = rd.read_u8()?;
        let ghost after_hd = rd@;
        let len = rd.read_remaining_length()?;
        proof {
            lemma_parse_len_bounds(after_hd, 0);
        }
        let ghost k = parse_len(after_hd)->Ok_0.1;
        let header = Header::new(hd, len)?;
        if len == 0 {
            // no payload packets
            let packet = match header.typ {
                PacketType::Pingreq => Packet::Pingreq,
                PacketType::Pingresp => Packet::Pingresp,
                PacketType::Disconnect => Packet::Disconnect,
                _ => {
                    return Err(MQError::PayloadRequired);
                },
            };
            self.rest = rd.rest;
            return Ok(packet);
        }
        let mut raw_packet = rd.take(len)?;
        proof {
            assert(raw_packet@ =~= after_hd.subrange(k as int, (k + len) as int));
        }
        let packet = raw_packet.read_body(header)?;
        self.rest = rd.rest;
        Ok(packet)
    }
}

/// The remaining length whose first `count` bytes gave `acc`, and whose
/// later bytes give `tail`: each later byte weighs `mult` times its weight in
/// `tail`.
pub open spec fn resume(acc: nat, mult: nat, count: nat, tail: Result<(nat, nat), MQError>) -> Result<
    (nat, nat),
    MQError,
> {
    match tail {
        Ok((v, k)) => Ok((acc + mult * v, count + k)),
        Err(e) => Err(e),
    }
}

} // verus!
