//! The errors of a session, one type for each side.
//!
//! Each error of a lower layer becomes exactly one variant, which owns it:
//! to decide what to do, a caller looks at the variant; the cause stays
//! whole inside it.

use super::chunk::errors::UnpackError;
use super::layers::{
    Amf0WriteError, ControlMessagesError, EventMessagesError, NetConnectionError, NetStreamError,
};
use super::messages::MessageError;
use crate::netio::errors::IOWriteError;
use tokio::time::Elapsed;
use vstd::prelude::*;
use vstd::std_specs::convert::FromSpecImpl;

verus! {

/// An error on the server side of a session.
#[derive(Debug)]
pub struct ServerError {
    pub value: ServerErrorValue,
}

#[derive(Debug)]
pub enum ServerErrorValue {
    /// A command value could not be serialized.
    Amf0WriteError(Amf0WriteError),
    /// Bytes could not be written to the transport.
    IOWriteError(IOWriteError),
    /// The transport did not deliver within the time allowed.
    TimeoutError(Elapsed),
    /// A chunk could not be taken apart.
    UnPackError(UnpackError),
    /// A message is not one that the wire can carry.
    MessageError(MessageError),
    /// A protocol control message could not be sent.
    ControlMessagesError(ControlMessagesError),
    /// A command on the connection failed.
    NetConnectionError(NetConnectionError),
    /// A command on a stream failed.
    NetStreamError(NetStreamError),
    /// A user control message could not be sent.
    EventMessagesError(EventMessagesError),
    /// A command came with another number of values than it takes.
    Amf0ValueCountNotCorrect,
    /// A command came with a value of another type than it takes.
    Amf0ValueTypeNotCorrect,
}

impl From<Amf0WriteError> for ServerError {
    fn from(error: Amf0WriteError) -> (r: Self) {
        ServerError { value: ServerErrorValue::Amf0WriteError(error) }
    }
}

impl FromSpecImpl<Amf0WriteError> for ServerError {
    open spec fn obeys_from_spec() -> bool {
        true
    }

    open spec fn from_spec(error: Amf0WriteError) -> Self {
        ServerError { value: ServerErrorValue::Amf0WriteError(error) }
    }
}

impl From<IOWriteError> for ServerError {
    fn from(error: IOWriteError) -> (r: Self) {
        ServerError { value: ServerErrorValue::IOWriteError(error) }
    }
}

impl FromSpecImpl<IOWriteError> for ServerError {
    open spec fn obeys_from_spec() -> bool {
        true
    }

    open spec fn from_spec(error: IOWriteError) -> Self {
        ServerError { value: ServerErrorValue::IOWriteError(error) }
    }
}

impl From<Elapsed> for ServerError {
    fn from(error: Elapsed) -> (r: Self) {
        ServerError { value: ServerErrorValue::TimeoutError(error) }
    }
}

impl FromSpecImpl<Elapsed> for ServerError {
    open spec fn obeys_from_spec() -> bool {
        true
    }

    open spec fn from_spec(error: Elapsed) -> Self {
        ServerError { value: ServerErrorValue::TimeoutError(error) }
    }
}

impl From<UnpackError> for ServerError {
    fn from(error: UnpackError) -> (r: Self) {
        ServerError { value: ServerErrorValue::UnPackError(error) }
    }
}

impl FromSpecImpl<UnpackError> for ServerError {
    open spec fn obeys_from_spec() -> bool {
        true
    }

    open spec fn from_spec(error: UnpackError) -> Self {
        ServerError { value: ServerErrorValue::UnPackError(error) }
    }
}

impl From<MessageError> for ServerError {
    fn from(error: MessageError) -> (r: Self) {
        ServerError { value: ServerErrorValue::MessageError(error) }
    }
}

impl FromSpecImpl<MessageError> for ServerError {
    open spec fn obeys_from_spec() -> bool {
        true
    }

    open spec fn from_spec(error: MessageError) -> Self {
        ServerError { value: ServerErrorValue::MessageError(error) }
    }
}

impl From<ControlMessagesError> for ServerError {
    fn from(error: ControlMessagesError) -> (r: Self) {
        ServerError { value: ServerErrorValue::ControlMessagesError(error) }
    }
}

impl FromSpecImpl<ControlMessagesError> for ServerError {
    open spec fn obeys_from_spec() -> bool {
        true
    }

    open spec fn from_spec(error: ControlMessagesError) -> Self {
        ServerError { value: ServerErrorValue::ControlMessagesError(error) }
    }
}

impl From<NetConnectionError> for ServerError {
    fn from(error: NetConnectionError) -> (r: Self) {
        ServerError { value: ServerErrorValue::NetConnectionError(error) }
    }
}

impl FromSpecImpl<NetConnectionError> for ServerError {
    open spec fn obeys_from_spec() -> bool {
        true
    }

    open spec fn from_spec(error: NetConnectionError) -> Self {
        ServerError { value: ServerErrorValue::NetConnectionError(error) }
    }
}

impl From<NetStreamError> for ServerError {
    fn from(error: NetStreamError) -> (r: Self) {
        ServerError { value: ServerErrorValue::NetStreamError(error) }
    }
}

impl FromSpecImpl<NetStreamError> for ServerError {
    open spec fn obeys_from_spec() -> bool {
        true
    }

    open spec fn from_spec(error: NetStreamError) -> Self {
        ServerError { value: ServerErrorValue::NetStreamError(error) }
    }
}

impl From<EventMessagesError> for ServerError {
    fn from(error: EventMessagesError) -> (r: Self) {
        ServerError { value: ServerErrorValue::EventMessagesError(error) }
    }
}

impl FromSpecImpl<EventMessagesError> for ServerError {
    open spec fn obeys_from_spec() -> bool {
        true
    }

    open spec fn from_spec(error: EventMessagesError) -> Self {
        ServerError { value: ServerErrorValue::EventMessagesError(error) }
    }
}

/// An error on the client side of a session.
#[derive(Debug)]
pub struct ClientError {
    pub value: ClientErrorValue,
}

#[derive(Debug)]
pub enum ClientErrorValue {
    /// A command value could not be serialized.
    Amf0WriteError(Amf0WriteError),
    /// Bytes could not be written to the transport.
    IOWriteError(IOWriteError),
    /// The transport did not deliver within the time allowed.
    TimeoutError(Elapsed),
    /// A chunk could not be taken apart.
    UnPackError(UnpackError),
    /// A message is not one that the wire can carry.
    MessageError(MessageError),
    /// A protocol control message could not be sent.
    ControlMessagesError(ControlMessagesError),
    /// A command on the connection failed.
    NetConnectionError(NetConnectionError),
    /// A command on a stream failed.
    NetStreamError(NetStreamError),
    /// A user control message could not be sent.
    EventMessagesError(EventMessagesError),
    /// A command came with another number of values than it takes.
    Amf0ValueCountNotCorrect,
    /// A command came with a value of another type than it takes.
    Amf0ValueTypeNotCorrect,
}

impl From<Amf0WriteError> for ClientError {
    fn from(error: Amf0WriteError) -> (r: Self) {
        ClientError { value: ClientErrorValue::Amf0WriteError(error) }
    }
}

impl FromSpecImpl<Amf0WriteError> for ClientError {
    open spec fn obeys_from_spec() -> bool {
        true
    }

    open spec fn from_spec(error: Amf0WriteError) -> Self {
        ClientError { value: ClientErrorValue::Amf0WriteError(error) }
    }
}

impl From<IOWriteError> for ClientError {
    fn from(error: IOWriteError) -> (r: Self) {
        ClientError { value: ClientErrorValue::IOWriteError(error) }
    }
}

impl FromSpecImpl<IOWriteError> for ClientError {
    open spec fn obeys_from_spec() -> bool {
        true
    }

    open spec fn from_spec(error: IOWriteError) -> Self {
        ClientError { value: ClientErrorValue::IOWriteError(error) }
    }
}

impl From<Elapsed> for ClientError {
    fn from(error: Elapsed) -> (r: Self) {
        ClientError { value: ClientErrorValue::TimeoutError(error) }
    }
}

impl FromSpecImpl<Elapsed> for ClientError {
    open spec fn obeys_from_spec() -> bool {
        true
    }

    open spec fn from_spec(error: Elapsed) -> Self {
        ClientError { value: ClientErrorValue::TimeoutError(error) }
    }
}

impl From<UnpackError> for ClientError {
    fn from(error: UnpackError) -> (r: Self) {
        ClientError { value: ClientErrorValue::UnPackError(error) }
    }
}

impl FromSpecImpl<UnpackError> for ClientError {
    open spec fn obeys_from_spec() -> bool {
        true
    }

    open spec fn from_spec(error: UnpackError) -> Self {
        ClientError { value: ClientErrorValue::UnPackError(error) }
    }
}

impl From<MessageError> for ClientError {
    fn from(error: MessageError) -> (r: Self) {
        ClientError { value: ClientErrorValue::MessageError(error) }
    }
}

impl FromSpecImpl<MessageError> for ClientError {
    open spec fn obeys_from_spec() -> bool {
        true
    }

    open spec fn from_spec(error: MessageError) -> Self {
        ClientError { value: ClientErrorValue::MessageError(error) }
    }
}

impl From<ControlMessagesError> for ClientError {
    fn from(error: ControlMessagesError) -> (r: Self) {
        ClientError { value: ClientErrorValue::ControlMessagesError(error) }
    }
}

impl FromSpecImpl<ControlMessagesError> for ClientError {
    open spec fn obeys_from_spec() -> bool {
        true
    }

    open spec fn from_spec(error: ControlMessagesError) -> Self {
        ClientError { value: ClientErrorValue::ControlMessagesError(error) }
    }
}

impl From<NetConnectionError> for ClientError {
    fn from(error: NetConnectionError) -> (r: Self) {
        ClientError { value: ClientErrorValue::NetConnectionError(error) }
    }
}

impl FromSpecImpl<NetConnectionError> for ClientError {
    open spec fn obeys_from_spec() -> bool {
        true
    }

    open spec fn from_spec(error: NetConnectionError) -> Self {
        ClientError { value: ClientErrorValue::NetConnectionError(error) }
    }
}

impl From<NetStreamError> for ClientError {
    fn from(error: NetStreamError) -> (r: Self) {
        ClientError { value: ClientErrorValue::NetStreamError(error) }
    }
}

impl FromSpecImpl<NetStreamError> for ClientError {
    open spec fn obeys_from_spec() -> bool {
        true
    }

    open spec fn from_spec(error: NetStreamError) -> Self {
        ClientError { value: ClientErrorValue::NetStreamError(error) }
    }
}

impl From<EventMessagesError> for ClientError {
    fn from(error: EventMessagesError) -> (r: Self) {
        ClientError { value: ClientErrorValue::EventMessagesError(error) }
    }
}

impl FromSpecImpl<EventMessagesError> for ClientError {
    open spec fn obeys_from_spec() -> bool {
        true
    }

    open spec fn from_spec(error: EventMessagesError) -> Self {
        ClientError { value: ClientErrorValue::EventMessagesError(error) }
    }
}

} // verus!
