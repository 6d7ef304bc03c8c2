//! Messages: the units that the chunk layer carries.

use vstd::prelude::*;

verus! {

/// The smallest chunk stream id that a message can travel on; 0 and 1 mark
/// the longer forms of a chunk's first byte.
pub const CSID_MIN: u32 = 2;

/// The largest chunk stream id that a chunk header can name.
pub const CSID_MAX: u32 = 65599;

/// The largest payload that a message header can declare: 24 bits.
pub const MSG_LENGTH_MAX: u32 = 0xFF_FFFF;

/// The header fields of a message. A chunk stream remembers the last one it
/// has seen, and later chunks on the stream leave out what did not change.
#[derive(Clone, Copy, Debug, PartialEq, Eq, Structural)]
pub struct MessageHeader {
    pub timestamp: u32,
    pub msg_length: u32,
    pub msg_type_id: u8,
    pub msg_stream_id: u32,
}

/// One whole message, with the chunk stream it travels on.
#[derive(Debug)]
pub struct Message {
    pub chunk_stream_id: u32,
    pub header: MessageHeader,
    pub payload: Vec<u8>,
}

/// A message as a mathematical value.
pub struct MessageView {
    pub chunk_stream_id: u32,
    pub header: MessageHeader,
    pub payload: Seq<u8>,
}

impl View for Message {
    type V = MessageView;

    open spec fn view(&self) -> MessageView {
        MessageView {
            chunk_stream_id: self.chunk_stream_id,
            header: self.header,
            payload: self.payload@,
        }
    }
}

#[derive(Clone, Copy, Debug, PartialEq, Eq, Structural)]
pub enum MessageErrorValue {
    /// The chunk stream id is below `CSID_MIN` or above `CSID_MAX`.
    InvalidChunkStreamId,
    /// The payload is longer than `MSG_LENGTH_MAX` bytes.
    PayloadTooLong,
    /// The header declares another length than the payload has.
    LengthMismatch,
    /// The chunk size to split the message by is 0.
    InvalidChunkSize,
}

#[derive(Clone, Copy, Debug, PartialEq, Eq, Structural)]
pub struct MessageError {
    pub value: MessageErrorValue,
}

/// Whether a chunk stream id can be written into a chunk header.
pub open spec fn valid_csid(csid: u32) -> bool {
    CSID_MIN <= csid <= CSID_MAX
}

/// What is wrong with a message, if anything: the first of the listed
/// defects that it has.
pub open spec fn message_defect(msg: MessageView) -> Option<MessageErrorValue> {
    if !valid_csid(msg.chunk_stream_id) {
        Some(MessageErrorValue::InvalidChunkStreamId)
    } else if msg.payload.len() > MSG_LENGTH_MAX {
        Some(MessageErrorValue::PayloadTooLong)
    } else if msg.header.msg_length != msg.payload.len() {
        Some(MessageErrorValue::LengthMismatch)
    } else {
        None
    }
}

/// Whether a message can be put on the wire: its chunk stream id fits a
/// chunk header, and the length that its header declares is that of its
/// payload and fits 24 bits.
pub open spec fn valid_message(msg: MessageView) -> bool {
    message_defect(msg) is None
}

impl Message {
    /// The message with the given fields, its declared length taken from the
    /// payload. Fails when the chunk stream id or the payload's length
    /// cannot be written into a chunk header.
    pub fn new(
        chunk_stream_id: u32,
        timestamp: u32,
        msg_type_id: u8,
        msg_stream_id: u32,
        payload: Vec<u8>,
    ) -> (r: Result<Message, MessageError>)
        ensures
            !valid_csid(chunk_stream_id) ==> r == Err::<Message, MessageError>(
                MessageError { value: MessageErrorValue::InvalidChunkStreamId },
            ),
            valid_csid(chunk_stream_id) && payload@.len() > MSG_LENGTH_MAX ==> r == Err::<
                Message,
                MessageError,
            >(MessageError { value: MessageErrorValue::PayloadTooLong }),
            valid_csid(chunk_stream_id) && payload@.len() <= MSG_LENGTH_MAX ==> r is Ok
                && r->Ok_0@ == (MessageView {
                chunk_stream_id,
                header: MessageHeader {
                    timestamp,
                    msg_length: payload@.len() as u32,
                    msg_type_id,
                    msg_stream_id,
                },
                payload: payload@,
            }) && valid_message(r->Ok_0@),
    {
        if chunk_stream_id < CSID_MIN || chunk_stream_id > CSID_MAX {
            return Err(MessageError { value: MessageErrorValue::InvalidChunkStreamId });
        }
        if payload.len() > MSG_LENGTH_MAX as usize {
            return Err(MessageError { value: MessageErrorValue::PayloadTooLong });
        }
        let msg_length = payload.len() as u32;
        Ok(
            Message {
                chunk_stream_id,
                header: MessageHeader { timestamp, msg_length, msg_type_id, msg_stream_id },
                payload,
            },
        )
    }

    /// Checks that the message can be put on the wire, and says what is
    /// wrong with it when it cannot.
    pub fn check(&self) -> (r: Result<(), MessageError>)
        ensures
            match message_defect(self@) {
                Some(value) => r == Err::<(), MessageError>(MessageError { value }),
                None => r is Ok,
            },
    {
        if self.chunk_stream_id < CSID_MIN || self.chunk_stream_id > CSID_MAX {
            return Err(MessageError { value: MessageErrorValue::InvalidChunkStreamId });
        }
        if self.payload.len() > MSG_LENGTH_MAX as usize {
            return Err(MessageError { value: MessageErrorValue::PayloadTooLong });
        }
        if self.header.msg_length as usize != self.payload.len() {
            return Err(MessageError { value: MessageErrorValue::LengthMismatch });
        }
        Ok(())
    }
}

} // verus!
