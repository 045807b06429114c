//! Errors of the packet codec.

use vstd::prelude::*;

verus! {

/// The kinds of transport failure that the session engine tells apart.
#[derive(Debug, Clone, Copy, PartialEq, Eq, Structural)]
pub enum IoErrorKind {
    WouldBlock,
    TimedOut,
    UnexpectedEof,
    ConnectionRefused,
    ConnectionReset,
    ConnectionAborted,
    Other,
}

/// What can go wrong while a control packet is encoded or decoded.
#[derive(Debug, Clone, Copy, PartialEq, Eq, Structural)]
pub enum MQError {
    IncorrectPacketFormat,
    InvalidTopicPath,
    UnsupportedProtocolName,
    UnsupportedProtocolVersion,
    UnsupportedQualityOfService,
    UnsupportedPacketType,
    UnsupportedConnectReturnCode,
    PayloadSizeIncorrect,
    PayloadTooLong,
    PayloadRequired,
    TopicNameMustNotContainNonUtf8,
    TopicNameMustNotContainWildcard,
    MalformedRemainingLength,
    UnexpectedEof,
    Io(IoErrorKind),
}

impl MQError {
    /// The error in words.
    pub open spec fn text(self) -> Seq<char> {
        match self {
            MQError::IncorrectPacketFormat => "Incorrect Packet Format"@,
            MQError::InvalidTopicPath => "Invalid Topic Path"@,
            MQError::UnsupportedProtocolName => "Unsupported Protocol Name"@,
            MQError::UnsupportedProtocolVersion => "Unsupported Protocol Version"@,
            MQError::UnsupportedQualityOfService => "Unsupported Quality Of Service"@,
            MQError::UnsupportedPacketType => "Unsupported Packet Type"@,
            MQError::UnsupportedConnectReturnCode => "Unsupported Connect Return Code"@,
            MQError::PayloadSizeIncorrect => "Payload Size Incorrect"@,
            MQError::PayloadTooLong => "Payload Too Long"@,
            MQError::PayloadRequired => "Payload Required"@,
            MQError::TopicNameMustNotContainNonUtf8 => "Topic Name Must Not Contain Utf8"@,
            MQError::TopicNameMustNotContainWildcard => "Topic Name Must Not Contain Wildcard"@,
            MQError::MalformedRemainingLength => "Malformed Remaining Length"@,
            MQError::UnexpectedEof => "Unexpected EOF"@,
            MQError::Io(_) => "uh oh"@,
        }
    }

    /// The error in words.
    pub fn description(&self) -> (r: &'static str)
        ensures
            r@ == self.text(),
    {
        match self {
            MQError::IncorrectPacketFormat => "Incorrect Packet Format",
            MQError::InvalidTopicPath => "Invalid Topic Path",
            MQError::UnsupportedProtocolName => "Unsupported Protocol Name",
            MQError::UnsupportedProtocolVersion => "Unsupported Protocol Version",
            MQError::UnsupportedQualityOfService => "Unsupported Quality Of Service",
            MQError::UnsupportedPacketType => "Unsupported Packet Type",
            MQError::UnsupportedConnectReturnCode => "Unsupported Connect Return Code",
            MQError::PayloadSizeIncorrect => "Payload Size Incorrect",
            MQError::PayloadTooLong => "Payload Too Long",
            MQError::PayloadRequired => "Payload Required",
            MQError::TopicNameMustNotContainNonUtf8 => "Topic Name Must Not Contain Utf8",
            MQError::TopicNameMustNotContainWildcard => "Topic Name Must Not Contain Wildcard",
            MQError::MalformedRemainingLength => "Malformed Remaining Length",
            MQError::UnexpectedEof => "Unexpected EOF",
            MQError::Io(_) => "uh oh",
        }
    }
}

} // verus!
