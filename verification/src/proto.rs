//! The small value types of the protocol: quality of service, protocol
//! revision, return codes, packet identifiers and the fixed header.

use vstd::prelude::*;
use vstd::string::is_ascii_spec_bytes;
use vstd::utf8::encode_utf8;
use crate::bits::{bit_set, has_bit, high_nibble, low_nibble, two_bits};
use crate::mq_error::MQError;

verus! {

/// One more than the largest remaining length: `128^4`.
pub const MULTIPLIER: usize = 0x80 * 0x80 * 0x80 * 0x80;

/// The largest remaining length that the variable-length field can carry.
pub const MAX_PAYLOAD_SIZE: usize = 268435455;

/// Delivery guarantee of an application message.
#[derive(Debug, Clone, Copy, PartialEq, Eq, Structural, Hash)]
pub enum QoS {
    AtMostOnce,
    AtLeastOnce,
    ExactlyOnce,
}

impl QoS {
    /// The number that stands for this level on the wire.
    pub open spec fn code(self) -> u8 {
        match self {
            QoS::AtMostOnce => 0,
            QoS::AtLeastOnce => 1,
            QoS::ExactlyOnce => 2,
        }
    }

    /// The level that `byte` stands for, if it is one of 0, 1 and 2.
    pub open spec fn of_code(byte: u8) -> Result<QoS, MQError> {
        if byte == 0 {
            Ok(QoS::AtMostOnce)
        } else if byte == 1 {
            Ok(QoS::AtLeastOnce)
        } else if byte == 2 {
            Ok(QoS::ExactlyOnce)
        } else {
            Err(MQError::UnsupportedQualityOfService)
        }
    }

    pub fn to_u8(&self) -> (r: u8)
        ensures
            r == self.code(),
    {
        match self {
            QoS::AtMostOnce => 0,
            QoS::AtLeastOnce => 1,
            QoS::ExactlyOnce => 2,
        }
    }

    pub fn from_u8(byte: u8) -> (r: Result<QoS, MQError>)
        ensures
            r == QoS::of_code(byte),
    {
        match byte {
            0 => Ok(QoS::AtMostOnce),
            1 => Ok(QoS::AtLeastOnce),
            2 => Ok(QoS::ExactlyOnce),
            _ => Err(MQError::UnsupportedQualityOfService),
        }
    }
}

/// The bytes of the protocol name "MQIsdp" (MQTT 3.1).
pub open spec fn mqisdp_name() -> Seq<u8> {
    seq![0x4Du8, 0x51u8, 0x49u8, 0x73u8, 0x64u8, 0x70u8]
}

/// The bytes of the protocol name "MQTT" (MQTT 3.1.1).
pub open spec fn mqtt_name() -> Seq<u8> {
    seq![0x4Du8, 0x51u8, 0x54u8, 0x54u8]
}

/// Protocol revision, with the level byte that a CONNECT packet carries.
#[derive(Debug, Clone, Copy, PartialEq, Eq, Structural)]
pub enum Protocol {
    MQIsdp(u8),
    MQTT(u8),
}

impl Protocol {
    /// The protocol that a name (as UTF-8 bytes) and a level byte select.
    pub open spec fn select(name: Seq<u8>, level: u8) -> Result<Protocol, MQError> {
        if name == mqisdp_name() {
            if level == 3 {
                Ok(Protocol::MQIsdp(3))
            } else {
                Err(MQError::UnsupportedProtocolVersion)
            }
        } else if name == mqtt_name() {
            if level == 4 {
                Ok(Protocol::MQTT(4))
            } else {
                Err(MQError::UnsupportedProtocolVersion)
            }
        } else {
            Err(MQError::UnsupportedProtocolName)
        }
    }

    /// The UTF-8 bytes of the protocol's name.
    pub open spec fn name_bytes(self) -> Seq<u8> {
        match self {
            Protocol::MQIsdp(_) => mqisdp_name(),
            Protocol::MQTT(_) => mqtt_name(),
        }
    }

    /// The level byte.
    pub open spec fn spec_level(self) -> u8 {
        match self {
            Protocol::MQIsdp(level) => level,
            Protocol::MQTT(level) => level,
        }
    }

    /// Whether the level is the one that the name stands for.
    pub open spec fn supported(self) -> bool {
        Protocol::select(self.name_bytes(), self.spec_level()) == Ok::<Protocol, MQError>(self)
    }

    /// Selects the protocol by name and level.
    pub fn new(name: &str, level: u8) -> (r: Result<Protocol, MQError>)
        ensures
            r == Protocol::select(encode_utf8(name@), level),
    {
        let bytes = name.as_bytes();
        if bytes_are_mqisdp(bytes) {
            if level == 3 {
                Ok(Protocol::MQIsdp(3))
            } else {
                Err(MQError::UnsupportedProtocolVersion)
            }
        } else if bytes_are_mqtt(bytes) {
            if level == 4 {
                Ok(Protocol::MQTT(4))
            } else {
                Err(MQError::UnsupportedProtocolVersion)
            }
        } else {
            Err(MQError::UnsupportedProtocolName)
        }
    }

    pub fn name(&self) -> (r: &'static str)
        ensures
            encode_utf8(r@) == self.name_bytes(),
    {
        match self {
            Protocol::MQIsdp(_) => {
                let s = "MQIsdp";
                proof {
                    reveal_strlit("MQIsdp");
                    is_ascii_spec_bytes(s);
                }
                s
            },
            Protocol::MQTT(_) => {
                let s = "MQTT";
                proof {
                    reveal_strlit("MQTT");
                    is_ascii_spec_bytes(s);
                }
                s
            },
        }
    }

    pub fn level(&self) -> (r: u8)
        ensures
            r == self.spec_level(),
    {
        match self {
            Protocol::MQIsdp(level) => *level,
            Protocol::MQTT(level) => *level,
        }
    }
}

fn bytes_are_mqisdp(bytes: &[u8]) -> (r: bool)
    ensures
        r == (bytes@ == mqisdp_name()),
{
    let r = bytes.len() == 6 && bytes[0] == 0x4D && bytes[1] == 0x51 && bytes[2] == 0x49
        && bytes[3] == 0x73 && bytes[4] == 0x64 && bytes[5] == 0x70;
    proof {
        if r {
            assert(bytes@ =~= mqisdp_name());
        }
    }
    r
}

fn bytes_are_mqtt(bytes: &[u8]) -> (r: bool)
    ensures
        r == (bytes@ == mqtt_name()),
{
    let r = bytes.len() == 4 && bytes[0] == 0x4D && bytes[1] == 0x51 && bytes[2] == 0x54
        && bytes[3] == 0x54;
    proof {
        if r {
            assert(bytes@ =~= mqtt_name());
        }
    }
    r
}

/// The broker's answer to a CONNECT packet.
#[derive(Debug, Clone, Copy, PartialEq, Eq, Structural)]
pub enum ConnectReturnCode {
    Accepted,
    UnacceptableProtocolVersion,
    IdentifierRejected,
    ServerUnavailable,
    BadUsernamePassword,
    NotAuthorized,
}

impl ConnectReturnCode {
    /// The byte that stands for this code on the wire.
    pub open spec fn code(self) -> u8 {
        match self {
            ConnectReturnCode::Accepted => 0,
            ConnectReturnCode::UnacceptableProtocolVersion => 1,
            ConnectReturnCode::IdentifierRejected => 2,
            ConnectReturnCode::ServerUnavailable => 3,
            ConnectReturnCode::BadUsernamePassword => 4,
            ConnectReturnCode::NotAuthorized => 5,
        }
    }

    /// The code that `byte` stands for, if it is one of 0 to 5.
    pub open spec fn of_code(byte: u8) -> Result<ConnectReturnCode, MQError> {
        if byte == 0 {
            Ok(ConnectReturnCode::Accepted)
        } else if byte == 1 {
            Ok(ConnectReturnCode::UnacceptableProtocolVersion)
        } else if byte == 2 {
            Ok(ConnectReturnCode::IdentifierRejected)
        } else if byte == 3 {
            Ok(ConnectReturnCode::ServerUnavailable)
        } else if byte == 4 {
            Ok(ConnectReturnCode::BadUsernamePassword)
        } else if byte == 5 {
            Ok(ConnectReturnCode::NotAuthorized)
        } else {
            Err(MQError::UnsupportedConnectReturnCode)
        }
    }

    pub fn to_u8(&self) -> (r: u8)
        ensures
            r == self.code(),
    {
        match self {
            ConnectReturnCode::Accepted => 0,
            ConnectReturnCode::UnacceptableProtocolVersion => 1,
            ConnectReturnCode::IdentifierRejected => 2,
            ConnectReturnCode::ServerUnavailable => 3,
            ConnectReturnCode::BadUsernamePassword => 4,
            ConnectReturnCode::NotAuthorized => 5,
        }
    }

    pub fn from_u8(byte: u8) -> (r: Result<ConnectReturnCode, MQError>)
        ensures
            r == ConnectReturnCode::of_code(byte),
    {
        match byte {
            0 => Ok(ConnectReturnCode::Accepted),
            1 => Ok(ConnectReturnCode::UnacceptableProtocolVersion),
            2 => Ok(ConnectReturnCode::IdentifierRejected),
            3 => Ok(ConnectReturnCode::ServerUnavailable),
            4 => Ok(ConnectReturnCode::BadUsernamePassword),
            5 => Ok(ConnectReturnCode::NotAuthorized),
            _ => Err(MQError::UnsupportedConnectReturnCode),
        }
    }
}

/// The broker's answer to one topic filter of a SUBSCRIBE packet.
#[derive(Debug, Clone, Copy, PartialEq, Eq, Structural)]
pub enum SubscribeReturnCodes {
    Success(QoS),
    Failure,
}

impl SubscribeReturnCodes {
    /// The byte that stands for this answer on the wire.
    pub open spec fn code(self) -> u8 {
        match self {
            SubscribeReturnCodes::Success(qos) => qos.code(),
            SubscribeReturnCodes::Failure => 0x80,
        }
    }

    /// The answer that `byte` stands for: a failure when the top bit is set,
    /// else the granted level in the low two bits.
    pub open spec fn of_code(byte: u8) -> Result<SubscribeReturnCodes, MQError> {
        if byte >= 128 {
            Ok(SubscribeReturnCodes::Failure)
        } else {
            match QoS::of_code(byte % 4) {
                Ok(qos) => Ok(SubscribeReturnCodes::Success(qos)),
                Err(e) => Err(e),
            }
        }
    }

    pub fn to_u8(&self) -> (r: u8)
        ensures
            r == self.code(),
    {
        match self {
            SubscribeReturnCodes::Success(qos) => qos.to_u8(),
            SubscribeReturnCodes::Failure => 0x80,
        }
    }

    pub fn from_u8(byte: u8) -> (r: Result<SubscribeReturnCodes, MQError>)
        ensures
            r == SubscribeReturnCodes::of_code(byte),
    {
        if has_bit(byte, 0x80) {
            Ok(SubscribeReturnCodes::Failure)
        } else {
            match QoS::from_u8(two_bits(byte, 0)) {
                Ok(qos) => Ok(SubscribeReturnCodes::Success(qos)),
                Err(e) => Err(e),
            }
        }
    }
}

/// Correlates the packets of one delivery exchange. Zero is never handed out.
#[derive(Debug, Clone, Copy, PartialEq, Eq, Structural, Hash)]
pub struct PacketIdentifier(pub u16);

impl PacketIdentifier {
    /// The identifier after this one: counts up, and goes from `0xFFFF` to 1.
    pub open spec fn successor(self) -> PacketIdentifier {
        if self.0 == 0xFFFF {
            PacketIdentifier(1)
        } else {
            PacketIdentifier((self.0 + 1) as u16)
        }
    }

    /// The identifier reached from this one in `n` steps.
    pub open spec fn advance(self, n: nat) -> PacketIdentifier
        decreases n,
    {
        if n == 0 {
            self
        } else {
            self.advance((n - 1) as nat).successor()
        }
    }

    /// The value before the first identifier of a session.
    pub fn zero() -> (r: PacketIdentifier)
        ensures
            r == PacketIdentifier(0),
    {
        PacketIdentifier(0)
    }

    pub fn next(&self) -> (r: PacketIdentifier)
        ensures
            r == self.successor(),
            r.0 != 0,
    {
        if self.0 == 0xFFFF {
            PacketIdentifier(1)
        } else {
            PacketIdentifier(self.0 + 1)
        }
    }
}

/// The kind of a control packet, as the upper half of its first byte names it.
#[derive(Debug, Clone, Copy, PartialEq, Eq, Structural)]
pub enum PacketType {
    Connect,
    Connack,
    Publish,
    Puback,
    Pubrec,
    Pubrel,
    Pubcomp,
    Subscribe,
    Suback,
    Unsubscribe,
    Unsuback,
    Pingreq,
    Pingresp,
    Disconnect,
}

impl PacketType {
    /// The number of this kind, 1 to 14.
    pub open spec fn code(self) -> u8 {
        match self {
            PacketType::Connect => 1,
            PacketType::Connack => 2,
            PacketType::Publish => 3,
            PacketType::Puback => 4,
            PacketType::Pubrec => 5,
            PacketType::Pubrel => 6,
            PacketType::Pubcomp => 7,
            PacketType::Subscribe => 8,
            PacketType::Suback => 9,
            PacketType::Unsubscribe => 10,
            PacketType::Unsuback => 11,
            PacketType::Pingreq => 12,
            PacketType::Pingresp => 13,
            PacketType::Disconnect => 14,
        }
    }

    /// The kind that `nibble` names; 0 and 15 name none.
    pub open spec fn of_code(nibble: u8) -> Result<PacketType, MQError> {
        if nibble == 1 {
            Ok(PacketType::Connect)
        } else if nibble == 2 {
            Ok(PacketType::Connack)
        } else if nibble == 3 {
            Ok(PacketType::Publish)
        } else if nibble == 4 {
            Ok(PacketType::Puback)
        } else if nibble == 5 {
            Ok(PacketType::Pubrec)
        } else if nibble == 6 {
            Ok(PacketType::Pubrel)
        } else if nibble == 7 {
            Ok(PacketType::Pubcomp)
        } else if nibble == 8 {
            Ok(PacketType::Subscribe)
        } else if nibble == 9 {
            Ok(PacketType::Suback)
        } else if nibble == 10 {
            Ok(PacketType::Unsubscribe)
        } else if nibble == 11 {
            Ok(PacketType::Unsuback)
        } else if nibble == 12 {
            Ok(PacketType::Pingreq)
        } else if nibble == 13 {
            Ok(PacketType::Pingresp)
        } else if nibble == 14 {
            Ok(PacketType::Disconnect)
        } else {
            Err(MQError::UnsupportedPacketType)
        }
    }

    /// Whether the lower half of the first byte must be `0010` for this kind.
    pub open spec fn fixed_flags(self) -> bool {
        self == PacketType::Pubrel || self == PacketType::Subscribe || self
            == PacketType::Unsubscribe
    }

    pub fn to_u8(&self) -> (r: u8)
        ensures
            r == self.code(),
    {
        match self {
            PacketType::Connect => 1,
            PacketType::Connack => 2,
            PacketType::Publish => 3,
            PacketType::Puback => 4,
            PacketType::Pubrec => 5,
            PacketType::Pubrel => 6,
            PacketType::Pubcomp => 7,
            PacketType::Subscribe => 8,
            PacketType::Suback => 9,
            PacketType::Unsubscribe => 10,
            PacketType::Unsuback => 11,
            PacketType::Pingreq => 12,
            PacketType::Pingresp => 13,
            PacketType::Disconnect => 14,
        }
    }

    pub fn from_u8(nibble: u8) -> (r: Result<PacketType, MQError>)
        ensures
            r == PacketType::of_code(nibble),
    {
        match nibble {
            1 => Ok(PacketType::Connect),
            2 => Ok(PacketType::Connack),
            3 => Ok(PacketType::Publish),
            4 => Ok(PacketType::Puback),
            5 => Ok(PacketType::Pubrec),
            6 => Ok(PacketType::Pubrel),
            7 => Ok(PacketType::Pubcomp),
            8 => Ok(PacketType::Subscribe),
            9 => Ok(PacketType::Suback),
            10 => Ok(PacketType::Unsubscribe),
            11 => Ok(PacketType::Unsuback),
            12 => Ok(PacketType::Pingreq),
            13 => Ok(PacketType::Pingresp),
            14 => Ok(PacketType::Disconnect),
            _ => Err(MQError::UnsupportedPacketType),
        }
    }
}

/// The decoded fixed header: the first byte, the kind it names, and the
/// remaining length.
#[derive(Debug, Clone, Copy, PartialEq, Eq, Structural)]
pub struct Header {
    pub hd: u8,
    pub typ: PacketType,
    pub len: usize,
}

impl Header {
    /// The header that a first byte and a remaining length make: the upper
    /// half of the byte must name a kind, and for PUBREL, SUBSCRIBE and
    /// UNSUBSCRIBE the lower half must be `0010`.
    pub open spec fn parse(hd: u8, len: usize) -> Result<Header, MQError> {
        match PacketType::of_code(hd / 16) {
            Err(e) => Err(e),
            Ok(typ) => if typ.fixed_flags() && hd % 16 != 2 {
                Err(MQError::IncorrectPacketFormat)
            } else {
                Ok(Header { hd, typ, len })
            },
        }
    }

    /// The duplicate-delivery flag of a PUBLISH header.
    pub open spec fn spec_dup(self) -> bool {
        bit_set(self.hd, 8)
    }

    /// The quality of service of a PUBLISH header.
    pub open spec fn spec_qos(self) -> Result<QoS, MQError> {
        QoS::of_code((self.hd / 2) % 4)
    }

    /// The retain flag of a PUBLISH header.
    pub open spec fn spec_retain(self) -> bool {
        bit_set(self.hd, 1)
    }

    pub fn new(hd: u8, len: usize) -> (r: Result<Header, MQError>)
        ensures
            r == Header::parse(hd, len),
    {
        match PacketType::from_u8(high_nibble(hd)) {
            Err(e) => Err(e),
            Ok(typ) => {
                let fixed = match typ {
                    PacketType::Pubrel | PacketType::Subscribe | PacketType::Unsubscribe => true,
                    _ => false,
                };
                if fixed && low_nibble(hd) != 2 {
                    Err(MQError::IncorrectPacketFormat)
                } else {
                    Ok(Header { hd, typ, len })
                }
            },
        }
    }

    pub fn dup(&self) -> (r: bool)
        ensures
            r == self.spec_dup(),
    {
        has_bit(self.hd, 8)
    }

    pub fn qos(&self) -> (r: Result<QoS, MQError>)
        ensures
            r == self.spec_qos(),
    {
        QoS::from_u8(two_bits(self.hd, 1))
    }

    pub fn retain(&self) -> (r: bool)
        ensures
            r == self.spec_retain(),
    {
        has_bit(self.hd, 1)
    }
}

/// The message that the broker publishes for a client that vanished.
#[derive(Debug, Clone, PartialEq, Eq)]
pub struct LastWill {
    pub topic: String,
    pub message: String,
    pub qos: QoS,
    pub retain: bool,
}

/// What a [`LastWill`] holds.
pub struct LastWillView {
    pub topic: Seq<char>,
    pub message: Seq<char>,
    pub qos: QoS,
    pub retain: bool,
}

impl View for LastWill {
    type V = LastWillView;

    open spec fn view(&self) -> LastWillView {
        LastWillView {
            topic: self.topic@,
            message: self.message@,
            qos: self.qos,
            retain: self.retain,
        }
    }
}

impl LastWill {
    /// A copy with the same contents.
    pub fn duplicate(&self) -> (r: LastWill)
        ensures
            r@ == self@,
    {
        LastWill {
            topic: self.topic.clone(),
            message: self.message.clone(),
            qos: self.qos,
            retain: self.retain,
        }
    }
}

/// One topic filter of a SUBSCRIBE packet, with the level asked for.
#[derive(Debug, Clone, PartialEq, Eq)]
pub struct SubscribeTopic {
    pub topic_path: String,
    pub qos: QoS,
}

/// What a [`SubscribeTopic`] holds.
pub struct SubscribeTopicView {
    pub topic_path: Seq<char>,
    pub qos: QoS,
}

impl View for SubscribeTopic {
    type V = SubscribeTopicView;

    open spec fn view(&self) -> SubscribeTopicView {
        SubscribeTopicView { topic_path: self.topic_path@, qos: self.qos }
    }
}

} // verus!
