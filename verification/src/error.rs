//! Errors of the session engine.

use vstd::prelude::*;
use crate::client::decimal_text;
use crate::mq_error::{IoErrorKind, MQError};
use crate::proto::{ConnectReturnCode, PacketIdentifier};

verus! {

/// An acknowledgement that matches no exchange in flight.
#[derive(Debug, Clone, Copy, PartialEq, Eq, Structural)]
pub enum PacketIdentifierError {
    UnhandledPuback(PacketIdentifier),
    UnhandledPubrec(PacketIdentifier),
    UnhandledPubrel(PacketIdentifier),
    UnhandledPubcomp(PacketIdentifier),
}

impl PacketIdentifierError {
    /// The error in words: the packet identifier, in decimal.
    pub fn message(&self) -> (r: String)
        ensures
            r@ == crate::session::decimal(self.spec_pid().0 as nat),
    {
        match *self {
            PacketIdentifierError::UnhandledPuback(PacketIdentifier(pi)) => decimal_text(pi as u32),
            PacketIdentifierError::UnhandledPubrec(PacketIdentifier(pi)) => decimal_text(pi as u32),
            PacketIdentifierError::UnhandledPubrel(PacketIdentifier(pi)) => decimal_text(pi as u32),
            PacketIdentifierError::UnhandledPubcomp(PacketIdentifier(pi)) => decimal_text(
                pi as u32,
            ),
        }
    }

    /// The packet identifier that the acknowledgement held.
    pub open spec fn spec_pid(self) -> PacketIdentifier {
        match self {
            PacketIdentifierError::UnhandledPuback(pid) => pid,
            PacketIdentifierError::UnhandledPubrec(pid) => pid,
            PacketIdentifierError::UnhandledPubrel(pid) => pid,
            PacketIdentifierError::UnhandledPubcomp(pid) => pid,
        }
    }

    /// The packet identifier that the acknowledgement held.
    pub fn pid(&self) -> (r: PacketIdentifier)
        ensures
            r == self.spec_pid(),
    {
        match *self {
            PacketIdentifierError::UnhandledPuback(pid) => pid,
            PacketIdentifierError::UnhandledPubrec(pid) => pid,
            PacketIdentifierError::UnhandledPubrel(pid) => pid,
            PacketIdentifierError::UnhandledPubcomp(pid) => pid,
        }
    }
}

/// What a message store can fail with.
#[derive(Debug, Clone, Copy, PartialEq, Eq, Structural)]
pub enum StorageError {
    NotFound(PacketIdentifier),
    Unavailable,
}

/// What can go wrong in a session.
#[derive(Debug, Clone, Copy, PartialEq, Eq, Structural)]
pub enum Error {
    AlreadyConnected,
    UnsupportedFeature,
    UnrecognizedPacket,
    ConnectionAbort,
    IncomingStorageAbsent,
    OutgoingStorageAbsent,
    HandshakeFailed,
    ProtocolViolation,
    Disconnected,
    Timeout,
    PacketIdentifierError(PacketIdentifierError),
    ConnectionRefused(ConnectReturnCode),
    Storage(StorageError),
    Mqtt(MQError),
    Io(IoErrorKind),
}

impl From<PacketIdentifierError> for Error {
    fn from(err: PacketIdentifierError) -> (r: Error) {
        Error::PacketIdentifierError(err)
    }
}

impl vstd::std_specs::convert::FromSpecImpl<PacketIdentifierError> for Error {
    open spec fn obeys_from_spec() -> bool {
        true
    }

    open spec fn from_spec(err: PacketIdentifierError) -> Error {
        Error::PacketIdentifierError(err)
    }
}

impl From<ConnectReturnCode> for Error {
    fn from(err: ConnectReturnCode) -> (r: Error) {
        Error::ConnectionRefused(err)
    }
}

impl vstd::std_specs::convert::FromSpecImpl<ConnectReturnCode> for Error {
    open spec fn obeys_from_spec() -> bool {
        true
    }

    open spec fn from_spec(err: ConnectReturnCode) -> Error {
        Error::ConnectionRefused(err)
    }
}

impl From<StorageError> for Error {
    fn from(err: StorageError) -> (r: Error) {
        Error::Storage(err)
    }
}

impl vstd::std_specs::convert::FromSpecImpl<StorageError> for Error {
    open spec fn obeys_from_spec() -> bool {
        true
    }

    open spec fn from_spec(err: StorageError) -> Error {
        Error::Storage(err)
    }
}

impl From<MQError> for Error {
    fn from(err: MQError) -> (r: Error) {
        Error::Mqtt(err)
    }
}

impl vstd::std_specs::convert::FromSpecImpl<MQError> for Error {
    open spec fn obeys_from_spec() -> bool {
        true
    }

    open spec fn from_spec(err: MQError) -> Error {
        Error::Mqtt(err)
    }
}

impl From<IoErrorKind> for Error {
    fn from(err: IoErrorKind) -> (r: Error) {
        Error::Io(err)
    }
}

impl vstd::std_specs::convert::FromSpecImpl<IoErrorKind> for Error {
    open spec fn obeys_from_spec() -> bool {
        true
    }

    open spec fn from_spec(err: IoErrorKind) -> Error {
        Error::Io(err)
    }
}

} // verus!
