//! Errors of the layers that ride on the chunk layer: the serialization of
//! command values, the control and user control messages, and the
//! connection and stream of a session. The layers themselves are not part
//! of this crate; their errors pass through it unchanged.

use crate::netio::errors::IOWriteError;
use vstd::prelude::*;

verus! {

#[derive(Debug)]
pub enum Amf0WriteErrorValue {
    /// A string is too long for the short string form.
    NormalStringTooLong,
    /// The bytes of a value could not be written.
    BufferWriteError(IOWriteError),
}

/// A command value could not be serialized.
#[derive(Debug)]
pub struct Amf0WriteError {
    pub value: Amf0WriteErrorValue,
}

#[derive(Debug)]
pub enum ControlMessagesErrorValue {
    /// The bytes of the message could not be written.
    BytesWriteError(IOWriteError),
}

/// A protocol control message could not be sent.
#[derive(Debug)]
pub struct ControlMessagesError {
    pub value: ControlMessagesErrorValue,
}

#[derive(Debug)]
pub enum EventMessagesErrorValue {
    /// The bytes of the message could not be written.
    BytesWriteError(IOWriteError),
}

/// A user control message could not be sent.
#[derive(Debug)]
pub struct EventMessagesError {
    pub value: EventMessagesErrorValue,
}

#[derive(Debug)]
pub enum NetConnectionErrorValue {
    /// A command of the connection could not be serialized.
    Amf0WriteError(Amf0WriteError),
}

/// A command on the connection of a session failed.
#[derive(Debug)]
pub struct NetConnectionError {
    pub value: NetConnectionErrorValue,
}

#[derive(Debug)]
pub enum NetStreamErrorValue {
    /// A command of the stream could not be serialized.
    Amf0WriteError(Amf0WriteError),
}

/// A command on a stream of a session failed.
#[derive(Debug)]
pub struct NetStreamError {
    pub value: NetStreamErrorValue,
}

} // verus!
