//! Encoding control packets as bytes.

use vstd::prelude::*;
use crate::mq_error::MQError;
use crate::mqtt::{filters_view, texts_view, Connect, Packet, PacketView, Publish};
use crate::outside::write_be_u16;
use crate::proto::{
    Protocol, QoS, SubscribeReturnCodes, SubscribeTopic, SubscribeTopicView, MAX_PAYLOAD_SIZE,
};
use crate::wire::{
    body, connect_body, connect_flags, encode, filters_fit, first_byte, max_remaining, publish_body,
    ser_block, ser_codes, ser_filters, ser_len, ser_opt_str, ser_str, ser_strs, ser_u16, ser_will,
    str_fits, strings_fit, strs_fit,
};

verus! {

/// Topic filters written one after the other: adding one at the end adds
/// its bytes at the end.
pub proof fn lemma_ser_filters_push(topics: Seq<SubscribeTopicView>, last: SubscribeTopicView)
    ensures
        ser_filters(topics.push(last)) == ser_filters(topics) + (ser_str(last.topic_path)
            + seq![last.qos.code()]),
    decreases topics.len(),
{
    let all = topics.push(last);
    assert(ser_filters(Seq::<SubscribeTopicView>::empty()) =~= Seq::<u8>::empty());
    if topics.len() == 0 {
        assert(all.drop_first() =~= Seq::<SubscribeTopicView>::empty());
    } else {
        assert(all.drop_first() =~= topics.drop_first().push(last));
        lemma_ser_filters_push(topics.drop_first(), last);
    }
}

/// Strings written one after the other: adding one at the end adds its
/// bytes at the end.
pub proof fn lemma_ser_strs_push(topics: Seq<Seq<char>>, last: Seq<char>)
    ensures
        ser_strs(topics.push(last)) == ser_strs(topics) + ser_str(last),
    decreases topics.len(),
{
    let all = topics.push(last);
    assert(ser_strs(Seq::<Seq<char>>::empty()) =~= Seq::<u8>::empty());
    if topics.len() == 0 {
        assert(all.drop_first() =~= Seq::<Seq<char>>::empty());
    } else {
        assert(all.drop_first() =~= topics.drop_first().push(last));
        lemma_ser_strs_push(topics.drop_first(), last);
    }
}

/// The length of a string on the wire, if the string fits.
fn string_len(s: &str) -> (r: Result<usize, MQError>)
    ensures
        str_fits(s@) ==> r == Ok::<usize, MQError>(ser_str(s@).len() as usize) && ser_str(s@).len()
            <= 0x10001,
        !str_fits(s@) ==> r == Err::<usize, MQError>(MQError::PayloadTooLong),
{
    let n = s.as_bytes().len();
    if n > 0xFFFF {
        Err(MQError::PayloadTooLong)
    } else {
        Ok(n + 2)
    }
}

/// The length of an optional string on the wire, if the string fits.
fn opt_string_len(s: &Option<String>) -> (r: Result<usize, MQError>)
    ensures
        crate::wire::opt_str_fits(crate::mqtt::opt_text(*s)) ==> r == Ok::<usize, MQError>(
            ser_opt_str(crate::mqtt::opt_text(*s)).len() as usize,
        ) && ser_opt_str(crate::mqtt::opt_text(*s)).len() <= 0x10001,
        !crate::wire::opt_str_fits(crate::mqtt::opt_text(*s)) ==> r == Err::<usize, MQError>(
            MQError::PayloadTooLong,
        ),
{
    match s {
        Some(s) => string_len(s.as_str()),
        None => Ok(0),
    }
}

/// A buffer that control packets are written to. Its view is the bytes
/// written so far.
///
/// A write that fails leaves the buffer as it was.
pub struct MqttWrite {
    buf: Vec<u8>,
}

impl View for MqttWrite {
    type V = Seq<u8>;

    closed spec fn view(&self) -> Seq<u8> {
        self.buf@
    }
}

impl MqttWrite {
    /// An empty buffer.
    pub fn new() -> (r: MqttWrite)
        ensures
            r@ == Seq::<u8>::empty(),
    {
        MqttWrite { buf: Vec::new() }
    }

    /// The number of bytes written so far.
    pub fn len(&self) -> (r: usize)
        ensures
            r == self@.len(),
    {
        self.buf.len()
    }

    /// The bytes written so far.
    pub fn into_bytes(self) -> (r: Vec<u8>)
        ensures
            r@ == self@,
    {
        self.buf
    }

    /// Hands the bytes written so far over, and starts afresh.
    pub fn take_bytes(&mut self) -> (r: Vec<u8>)
        ensures
            r@ == old(self)@,
            final(self)@ == Seq::<u8>::empty(),
    {
        let mut out: Vec<u8> = Vec::new();
        std::mem::swap(&mut out, &mut self.buf);
        out
    }

    fn write_u8(&mut self, v: u8)
        ensures
            final(self)@ == old(self)@.push(v),
    {
        self.buf.push(v);
    }

    fn write_u16(&mut self, v: u16)
        ensures
            final(self)@ == old(self)@ + ser_u16(v),
    {
        let bytes = write_be_u16(v);
        self.buf.push(bytes[0]);
        self.buf.push(bytes[1]);
    }

    /// Writes bytes as they are.
    pub fn write_all(&mut self, bytes: &[u8])
        ensures
            final(self)@ == old(self)@ + bytes@,
    {
        self.buf.extend_from_slice(bytes);
    }

    /// A string whose length is known to fit.
    fn write_short_string(&mut self, s: &str)
        requires
            str_fits(s@),
        ensures
            final(self)@ == old(self)@ + ser_str(s@),
    {
        let n = s.as_bytes().len();
        self.write_u16(n as u16);
        self.write_all(s.as_bytes());
    }

    /// Writes a string: a 16-bit length and the string's UTF-8 bytes.
    pub fn write_mqtt_string(&mut self, s: &str) -> (r: Result<(), MQError>)
        ensures
            str_fits(s@) ==> r is Ok && final(self)@ == old(self)@ + ser_str(s@),
            !str_fits(s@) ==> r == Err::<(), MQError>(MQError::PayloadTooLong) && final(self)@
                == old(self)@,
    {
        if s.as_bytes().len() > 0xFFFF {
            return Err(MQError::PayloadTooLong);
        }
        self.write_short_string(s);
        Ok(())
    }

    /// Writes a remaining length: seven bits to a byte, lowest first, the top
    /// bit set on every byte but the last.
    pub fn write_remaining_length(&mut self, len: usize) -> (r: Result<(), MQError>)
        ensures
            len <= max_remaining() ==> r is Ok && final(self)@ == old(self)@ + ser_len(len as nat),
            len > max_remaining() ==> r == Err::<(), MQError>(MQError::PayloadTooLong) && final(self)@ == old(self)@,
    {
        if len > MAX_PAYLOAD_SIZE {
            return Err(MQError::PayloadTooLong);
        }
        let mut done = false;
        let mut x: usize = len;
        while !done
            invariant
                !done ==> old(self)@ + ser_len(len as nat) == self@ + ser_len(x as nat),
                done ==> self@ == old(self)@ + ser_len(len as nat),
            decreases x + (if done { 0int } else { 1int }),
        {
            let mut byte: u8 = (x % 128) as u8;
            x = x / 128;
            if x > 0 {
                byte = byte + 128;
            }
            self.write_u8(byte);
            done = x == 0;
        }
        Ok(())
    }

    /// Writes the topic filters of a SUBSCRIBE packet.
    fn write_filters(&mut self, topics: &Vec<SubscribeTopic>)
        requires
            filters_fit(filters_view(topics@)),
        ensures
            final(self)@ == old(self)@ + ser_filters(filters_view(topics@)),
    {
        let ghost all = filters_view(topics@);
        let mut i: usize = 0;
        while i < topics.len()
            invariant
                i <= topics@.len(),
                all == filters_view(topics@),
                filters_fit(all),
                self@ == old(self)@ + ser_filters(all.take(i as int)),
            decreases topics@.len() - i,
        {
            let topic = &topics[i];
            assert(str_fits(all[i as int].topic_path));
            self.write_short_string(topic.topic_path.as_str());
            self.write_u8(topic.qos.to_u8());
            proof {
                lemma_ser_filters_push(all.take(i as int), all[i as int]);
                assert(all.take(i + 1) =~= all.take(i as int).push(all[i as int]));
            }
            i += 1;
        }
        assert(all.take(i as int) =~= all);
    }

    /// Writes the topic filters of an UNSUBSCRIBE packet.
    fn write_strings(&mut self, topics: &Vec<String>)
        requires
            strs_fit(texts_view(topics@)),
        ensures
            final(self)@ == old(self)@ + ser_strs(texts_view(topics@)),
    {
        let ghost all = texts_view(topics@);
        let mut i: usize = 0;
        while i < topics.len()
            invariant
                i <= topics@.len(),
                all == texts_view(topics@),
                strs_fit(all),
                self@ == old(self)@ + ser_strs(all.take(i as int)),
            decreases topics@.len() - i,
        {
            let topic = &topics[i];
            assert(topic@ == all[i as int]);
            self.write_short_string(topic.as_str());
            proof {
                lemma_ser_strs_push(all.take(i as int), all[i as int]);
                assert(all.take(i + 1) =~= all.take(i as int).push(all[i as int]));
            }
            i += 1;
        }
        assert(all.take(i as int) =~= all);
    }

    /// Writes the return codes of a SUBACK packet.
    fn write_codes(&mut self, codes: &Vec<SubscribeReturnCodes>)
        ensures
            final(self)@ == old(self)@ + ser_codes(codes@),
    {
        let mut i: usize = 0;
        while i < codes.len()
            invariant
                i <= codes@.len(),
                self@ == old(self)@ + ser_codes(codes@).take(i as int),
            decreases codes@.len() - i,
        {
            self.write_u8(codes[i].to_u8());
            i += 1;
        }
    }

    /// Writes the body of a CONNECT packet.
    fn write_connect(&mut self, connect: &Connect)
        requires
            strings_fit(PacketView::Connect(connect@)),
        ensures
            final(self)@ == old(self)@ + connect_body(connect@),
    {
        let name = connect.protocol.name();
        self.write_short_string(name);
        self.write_u8(connect.protocol.level());
        self.write_u8(connect_flags_of(connect));
        self.write_u16(connect.keep_alive);
        self.write_short_string(connect.client_id.as_str());
        let ghost mid = self@;
        assert(mid =~= old(self)@ + (ser_block(connect@.protocol.name_bytes())
            + seq![connect@.protocol.spec_level(), connect_flags(connect@)] + ser_u16(
            connect@.keep_alive,
        ) + ser_str(connect@.client_id)));
        self.write_tail(connect);
    }

    /// Writes the last will, the user name and the password of a CONNECT
    /// packet, as far as they are there.
    fn write_tail(&mut self, connect: &Connect)
        requires
            strings_fit(PacketView::Connect(connect@)),
        ensures
            final(self)@ == old(self)@ + (ser_will(connect@.last_will) + ser_opt_str(
                connect@.username,
            ) + ser_opt_str(connect@.password)),
    {
        match &connect.last_will {
            Some(will) => {
                self.write_short_string(will.topic.as_str());
                self.write_short_string(will.message.as_str());
            },
            None => {},
        }
        match &connect.username {
            Some(username) => {
                self.write_short_string(username.as_str());
            },
            None => {},
        }
        match &connect.password {
            Some(password) => {
                self.write_short_string(password.as_str());
            },
            None => {},
        }
    }

    /// Writes the body of a PUBLISH packet.
    fn write_publish(&mut self, publish: &Publish)
        requires
            str_fits(publish@.topic_name),
        ensures
            final(self)@ == old(self)@ + publish_body(publish@),
    {
        self.write_short_string(publish.topic_name.as_str());
        match publish.pid {
            Some(pid) => {
                self.write_u16(pid.0);
            },
            None => {},
        }
        self.write_all(publish.payload.as_slice());
    }

    /// Writes what follows the remaining length.
    fn write_body(&mut self, packet: &Packet)
        requires
            strings_fit(packet@),
        ensures
            final(self)@ == old(self)@ + body(packet@),
    {
        match packet {
            Packet::Connect(connect) => {
                self.write_connect(connect);
            },
            Packet::Connack(connack) => {
                self.write_u8(
                    if connack.session_present {
                        1
                    } else {
                        0
                    },
                );
                self.write_u8(connack.code.to_u8());
            },
            Packet::Publish(publish) => {
                self.write_publish(publish);
            },
            Packet::Puback(pid) => {
                self.write_u16(pid.0);
            },
            Packet::Pubrec(pid) => {
                self.write_u16(pid.0);
            },
            Packet::Pubrel(pid) => {
                self.write_u16(pid.0);
            },
            Packet::Pubcomp(pid) => {
                self.write_u16(pid.0);
            },
            Packet::Subscribe(subscribe) => {
                self.write_u16(subscribe.pid.0);
                self.write_filters(&subscribe.topics);
            },
            Packet::Suback(suback) => {
                self.write_u16(suback.pid.0);
                self.write_codes(&suback.return_codes);
            },
            Packet::Unsubscribe(unsubscribe) => {
                self.write_u16(unsubscribe.pid.0);
                self.write_strings(&unsubscribe.topics);
            },
            Packet::Unsuback(pid) => {
                self.write_u16(pid.0);
            },
            Packet::Pingreq => {
            },
            Packet::Pingresp => {
            },
            Packet::Disconnect => {
            },
        }
    }

    /// Writes one control packet: the first byte, the remaining length, the
    /// body.
    pub fn write_packet(&mut self, packet: &Packet) -> (r: Result<(), MQError>)
        ensures
            match encode(packet@) {
                Ok(bytes) => r is Ok && final(self)@ == old(self)@ + bytes,
                Err(e) => r == Err::<(), MQError>(e) && final(self)@ == old(self)@,
            },
    {
        let len = packet_len(packet)?;
        self.write_u8(first_byte_of(packet));
        let _ = self.write_remaining_length(len);
        self.write_body(packet);
        Ok(())
    }
}

/// The flags byte of a CONNECT packet.
fn connect_flags_of(connect: &Connect) -> (r: u8)
    ensures
        r == connect_flags(connect@),
{
    reveal(connect_flags);
    let mut flags: u8 = 0;
    if connect.username.is_some() {
        flags += 0b1000_0000;
    }
    if connect.password.is_some() {
        flags += 0b0100_0000;
    }
    match &connect.last_will {
        Some(will) => {
            if will.retain {
                flags += 0b0010_0000;
            }
            flags += 8 * will.qos.to_u8() + 0b100;
        },
        None => {},
    }
    if connect.clean_session {
        flags += 0b10;
    }
    flags
}

/// The first byte of a packet.
fn first_byte_of(packet: &Packet) -> (r: u8)
    ensures
        r == first_byte(packet@),
{
    match packet {
        Packet::Connect(_) => 0x10,
        Packet::Connack(_) => 0x20,
        Packet::Publish(publish) => {
            let mut hd: u8 = 0x30 + 2 * publish.qos.to_u8();
            if publish.dup {
                hd += 0b1000;
            }
            if publish.retain {
                hd += 1;
            }
            hd
        },
        Packet::Puback(_) => 0x40,
        Packet::Pubrec(_) => 0x50,
        Packet::Pubrel(_) => 0x62,
        Packet::Pubcomp(_) => 0x70,
        Packet::Subscribe(_) => 0x82,
        Packet::Suback(_) => 0x90,
        Packet::Unsubscribe(_) => 0xA2,
        Packet::Unsuback(_) => 0xB0,
        Packet::Pingreq => 0xC0,
        Packet::Pingresp => 0xD0,
        Packet::Disconnect => 0xE0,
    }
}

/// Topic filters written one after the other take at least as many bytes
/// as the first `i` of them.
pub proof fn lemma_ser_filters_prefix(topics: Seq<SubscribeTopicView>, i: int)
    requires
        0 <= i <= topics.len(),
    ensures
        ser_filters(topics.take(i)).len() <= ser_filters(topics).len(),
    decreases topics.len() - i,
{
    if i == topics.len() {
        assert(topics.take(i) =~= topics);
    } else {
        lemma_ser_filters_prefix(topics, i + 1);
        assert(topics.take(i + 1) =~= topics.take(i).push(topics[i]));
        lemma_ser_filters_push(topics.take(i), topics[i]);
    }
}

/// Strings written one after the other take at least as many bytes as the
/// first `i` of them.
pub proof fn lemma_ser_strs_prefix(topics: Seq<Seq<char>>, i: int)
    requires
        0 <= i <= topics.len(),
    ensures
        ser_strs(topics.take(i)).len() <= ser_strs(topics).len(),
    decreases topics.len() - i,
{
    if i == topics.len() {
        assert(topics.take(i) =~= topics);
    } else {
        lemma_ser_strs_prefix(topics, i + 1);
        assert(topics.take(i + 1) =~= topics.take(i).push(topics[i]));
        lemma_ser_strs_push(topics.take(i), topics[i]);
    }
}

/// The length of the topic filters of a SUBSCRIBE packet on the wire, if
/// each fits and the whole is not beyond the largest remaining length.
fn filters_len(topics: &Vec<SubscribeTopic>) -> (r: Result<usize, MQError>)
    ensures
        match r {
            Ok(n) => n == ser_filters(filters_view(topics@)).len() && n <= max_remaining()
                && filters_fit(filters_view(topics@)),
            Err(e) => e == MQError::PayloadTooLong && !(filters_fit(filters_view(topics@))
                && ser_filters(filters_view(topics@)).len() <= max_remaining()),
        },
{
    let ghost all = filters_view(topics@);
    let mut total: usize = 0;
    let mut i: usize = 0;
    while i < topics.len()
        invariant
            i <= topics@.len(),
            all == filters_view(topics@),
            total == ser_filters(all.take(i as int)).len(),
            total <= max_remaining(),
            forall|j: int| 0 <= j < i ==> str_fits(#[trigger] all[j].topic_path),
        decreases topics@.len() - i,
    {
        let topic = &topics[i];
        proof {
            lemma_ser_filters_push(all.take(i as int), all[i as int]);
            assert(all.take(i + 1) =~= all.take(i as int).push(all[i as int]));
            lemma_ser_filters_prefix(all, i + 1);
        }
        let n = match string_len(topic.topic_path.as_str()) {
            Ok(n) => n,
            Err(e) => {
                return Err(e);
            },
        };
        total = total + n + 1;
        if total > MAX_PAYLOAD_SIZE {
            return Err(MQError::PayloadTooLong);
        }
        i += 1;
    }
    assert(all.take(i as int) =~= all);
    Ok(total)
}

/// The length of the topic filters of an UNSUBSCRIBE packet on the wire, if
/// each fits and the whole is not beyond the largest remaining length.
fn strings_len(topics: &Vec<String>) -> (r: Result<usize, MQError>)
    ensures
        match r {
            Ok(n) => n == ser_strs(texts_view(topics@)).len() && n <= max_remaining() && strs_fit(
                texts_view(topics@),
            ),
            Err(e) => e == MQError::PayloadTooLong && !(strs_fit(texts_view(topics@)) && ser_strs(
                texts_view(topics@),
            ).len() <= max_remaining()),
        },
{
    let ghost all = texts_view(topics@);
    let mut total: usize = 0;
    let mut i: usize = 0;
    while i < topics.len()
        invariant
            i <= topics@.len(),
            all == texts_view(topics@),
            total == ser_strs(all.take(i as int)).len(),
            total <= max_remaining(),
            forall|j: int| 0 <= j < i ==> str_fits(#[trigger] all[j]),
        decreases topics@.len() - i,
    {
        let topic = &topics[i];
        proof {
            lemma_ser_strs_push(all.take(i as int), all[i as int]);
            assert(all.take(i + 1) =~= all.take(i as int).push(all[i as int]));
            lemma_ser_strs_prefix(all, i + 1);
        }
        let n = match string_len(topic.as_str()) {
            Ok(n) => n,
            Err(e) => {
                return Err(e);
            },
        };
        total = total + n;
        if total > MAX_PAYLOAD_SIZE {
            return Err(MQError::PayloadTooLong);
        }
        i += 1;
    }
    assert(all.take(i as int) =~= all);
    Ok(total)
}

/// The body length of a CONNECT packet that can be written.
fn connect_len(connect: &Connect) -> (r: Result<usize, MQError>)
    ensures
        match encode(PacketView::Connect(connect@)) {
            Ok(_) => r == Ok::<usize, MQError>(connect_body(connect@).len() as usize),
            Err(e) => r == Err::<usize, MQError>(e),
        },
{
    let supported = match connect.protocol {
        Protocol::MQIsdp(level) => level == 3,
        Protocol::MQTT(level) => level == 4,
    };
    if !supported {
        return Err(MQError::UnsupportedProtocolVersion);
    }
    let name = connect.protocol.name().as_bytes().len() + 2;
    let client_id = string_len(connect.client_id.as_str())?;
    let will = match &connect.last_will {
        Some(will) => {
            let topic = string_len(will.topic.as_str())?;
            let message = string_len(will.message.as_str())?;
            topic + message
        },
        None => 0,
    };
    let username = opt_string_len(&connect.username)?;
    let password = opt_string_len(&connect.password)?;
    Ok(name + 4 + client_id + will + username + password)
}

/// The body length of a PUBLISH packet that can be written.
fn publish_len(publish: &Publish) -> (r: Result<usize, MQError>)
    ensures
        match encode(PacketView::Publish(publish@)) {
            Ok(_) => r == Ok::<usize, MQError>(publish_body(publish@).len() as usize),
            Err(e) => r == Err::<usize, MQError>(e),
        },
{
    let level_zero = match publish.qos {
        QoS::AtMostOnce => true,
        _ => false,
    };
    if level_zero != publish.pid.is_none() {
        return Err(MQError::IncorrectPacketFormat);
    }
    let topic = string_len(publish.topic_name.as_str())?;
    let payload = publish.payload.len();
    if payload > MAX_PAYLOAD_SIZE {
        return Err(MQError::PayloadTooLong);
    }
    let total = topic + (if level_zero {
        0
    } else {
        2
    }) + payload;
    if total > MAX_PAYLOAD_SIZE {
        return Err(MQError::PayloadTooLong);
    }
    Ok(total)
}

/// The body length of a packet that can be written, or the error that
/// refuses it.
fn packet_len(packet: &Packet) -> (r: Result<usize, MQError>)
    ensures
        match encode(packet@) {
            Ok(_) => r == Ok::<usize, MQError>(body(packet@).len() as usize) && body(
                packet@,
            ).len() <= max_remaining() && strings_fit(packet@),
            Err(e) => r == Err::<usize, MQError>(e),
        },
{
    match packet {
        Packet::Connect(connect) => connect_len(connect),
        Packet::Connack(_) => Ok(2),
        Packet::Publish(publish) => publish_len(publish),
        Packet::Puback(_) => Ok(2),
        Packet::Pubrec(_) => Ok(2),
        Packet::Pubrel(_) => Ok(2),
        Packet::Pubcomp(_) => Ok(2),
        Packet::Subscribe(subscribe) => {
            if subscribe.topics.len() == 0 {
                return Err(MQError::PayloadRequired);
            }
            let n = filters_len(&subscribe.topics)?;
            if n + 2 > MAX_PAYLOAD_SIZE {
                return Err(MQError::PayloadTooLong);
            }
            Ok(n + 2)
        },
        Packet::Suback(suback) => {
            let n = suback.return_codes.len();
            if n > MAX_PAYLOAD_SIZE - 2 {
                return Err(MQError::PayloadTooLong);
            }
            Ok(n + 2)
        },
        Packet::Unsubscribe(unsubscribe) => {
            let n = strings_len(&unsubscribe.topics)?;
            if n + 2 > MAX_PAYLOAD_SIZE {
                return Err(MQError::PayloadTooLong);
            }
            Ok(n + 2)
        },
        Packet::Unsuback(_) => Ok(2),
        Packet::Pingreq => Ok(0),
        Packet::Pingresp => Ok(0),
        Packet::Disconnect => Ok(0),
    }
}

} // verus!
