//! Cutting messages into chunks: from messages to the bytes of a connection.
//!
//! The first chunk of a message carries a header, the others a header of
//! format 3, and no chunk carries more payload than the chunk size. The
//! header of the first chunk leaves out what the chunk stream's last
//! message already said.

use super::wire::{
    canonical, chunk_header_bytes, write_chunk_header, ChunkHeader,
};
use crate::rtmp::messages::{
    message_defect, valid_message, Message, MessageError, MessageErrorValue, MessageHeader,
    MessageView,
};
use std::collections::HashMap;
use vstd::prelude::*;
use vstd::slice::slice_subrange;

verus! {

broadcast use vstd::std_specs::hash::group_hash_axioms;

/// The format of the header of a message's first chunk, given the header of
/// the message that its chunk stream sent last.
///
/// Format 0, with every field, where the chunk stream has sent nothing, and
/// where the message stream differs or the timestamp runs backwards.
/// Otherwise the timestamp goes as the distance from the last one: in format
/// 2 where length and type are those of the last message, in format 1 where
/// they are not.
pub open spec fn first_chunk_format(prev: Option<MessageHeader>, header: MessageHeader) -> u8 {
    match prev {
        None => 0,
        Some(last) => if last.msg_stream_id != header.msg_stream_id || header.timestamp
            < last.timestamp {
            0
        } else if last.msg_length == header.msg_length && last.msg_type_id == header.msg_type_id {
            2
        } else {
            1
        },
    }
}

/// The header of the first chunk of a message: the fields that its format
/// carries.
pub open spec fn first_chunk_header(
    prev: Option<MessageHeader>,
    chunk_stream_id: u32,
    header: MessageHeader,
) -> ChunkHeader {
    let format = first_chunk_format(prev, header);
    ChunkHeader {
        format,
        chunk_stream_id,
        timestamp: if format == 0 {
            header.timestamp
        } else {
            (header.timestamp - prev->Some_0.timestamp) as u32
        },
        msg_length: if format <= 1 {
            header.msg_length
        } else {
            0
        },
        msg_type_id: if format <= 1 {
            header.msg_type_id
        } else {
            0
        },
        msg_stream_id: if format == 0 {
            header.msg_stream_id
        } else {
            0
        },
    }
}

/// The header of every chunk of a message but the first: format 3, which
/// carries the chunk stream id alone.
pub open spec fn continuation_header(chunk_stream_id: u32) -> ChunkHeader {
    ChunkHeader {
        format: 3,
        chunk_stream_id,
        timestamp: 0,
        msg_length: 0,
        msg_type_id: 0,
        msg_stream_id: 0,
    }
}

/// The number of payload bytes in a chunk when `left` bytes are still to be
/// sent.
pub open spec fn chunk_len(left: nat, max_chunk_size: nat) -> nat {
    if left <= max_chunk_size {
        left
    } else {
        max_chunk_size
    }
}

/// The chunks that carry `payload` after the first chunk of its message:
/// each a header of format 3 and the next bytes of the payload, up to the
/// chunk size.
pub open spec fn continuation_chunks(
    chunk_stream_id: u32,
    payload: Seq<u8>,
    max_chunk_size: nat,
) -> Seq<u8>
    decreases payload.len(),
{
    if payload.len() == 0 || max_chunk_size == 0 {
        Seq::<u8>::empty()
    } else {
        let n = chunk_len(payload.len(), max_chunk_size) as int;
        chunk_header_bytes(continuation_header(chunk_stream_id)) + payload.subrange(0, n)
            + continuation_chunks(chunk_stream_id, payload.skip(n), max_chunk_size)
    }
}

/// A message on the wire, after a message with the header `prev` on the
/// same chunk stream, or as the first on its chunk stream.
pub open spec fn encoded_message(
    prev: Option<MessageHeader>,
    msg: MessageView,
    max_chunk_size: nat,
) -> Seq<u8> {
    let n = chunk_len(msg.payload.len(), max_chunk_size) as int;
    chunk_header_bytes(first_chunk_header(prev, msg.chunk_stream_id, msg.header))
        + msg.payload.subrange(0, n) + continuation_chunks(
        msg.chunk_stream_id,
        msg.payload.skip(n),
        max_chunk_size,
    )
}

/// The header of the last message that a sender has sent on a chunk stream,
/// if it has sent any.
pub open spec fn last_header(sent: Map<u32, MessageHeader>, chunk_stream_id: u32) -> Option<
    MessageHeader,
> {
    if sent.contains_key(chunk_stream_id) {
        Some(sent[chunk_stream_id])
    } else {
        None
    }
}

/// A row of messages on the wire, one after the other, from a sender whose
/// last headers are `sent`: each message is written against the header that
/// the message before it on the same chunk stream has left.
pub open spec fn encoded_messages(
    sent: Map<u32, MessageHeader>,
    msgs: Seq<MessageView>,
    max_chunk_size: nat,
) -> Seq<u8>
    decreases msgs.len(),
{
    if msgs.len() == 0 {
        Seq::<u8>::empty()
    } else {
        encoded_message(last_header(sent, msgs[0].chunk_stream_id), msgs[0], max_chunk_size)
            + encoded_messages(
            sent.insert(msgs[0].chunk_stream_id, msgs[0].header),
            msgs.skip(1),
            max_chunk_size,
        )
    }
}

/// Why a message cannot be cut into chunks, if it cannot: what is wrong with
/// the message, or else a chunk size of 0.
pub open spec fn packing_defect(msg: MessageView, max_chunk_size: nat) -> Option<
    MessageErrorValue,
> {
    match message_defect(msg) {
        Some(value) => Some(value),
        None => if max_chunk_size == 0 {
            Some(MessageErrorValue::InvalidChunkSize)
        } else {
            None
        },
    }
}

/// The header of the first chunk of a message.
fn first_header(prev: Option<MessageHeader>, chunk_stream_id: u32, header: MessageHeader) -> (h:
    ChunkHeader)
    ensures
        h == first_chunk_header(prev, chunk_stream_id, header),
{
    let full = ChunkHeader {
        format: 0,
        chunk_stream_id,
        timestamp: header.timestamp,
        msg_length: header.msg_length,
        msg_type_id: header.msg_type_id,
        msg_stream_id: header.msg_stream_id,
    };
    match prev {
        None => full,
        Some(last) => {
            if last.msg_stream_id == header.msg_stream_id && header.timestamp >= last.timestamp {
                if last.msg_length == header.msg_length && last.msg_type_id == header.msg_type_id {
                    ChunkHeader {
                        format: 2,
                        chunk_stream_id,
                        timestamp: header.timestamp - last.timestamp,
                        msg_length: 0,
                        msg_type_id: 0,
                        msg_stream_id: 0,
                    }
                } else {
                    ChunkHeader {
                        format: 1,
                        chunk_stream_id,
                        timestamp: header.timestamp - last.timestamp,
                        msg_length: header.msg_length,
                        msg_type_id: header.msg_type_id,
                        msg_stream_id: 0,
                    }
                }
            } else {
                full
            }
        },
    }
}

/// Checks that a message can be cut into chunks of the given size.
fn check_packing(msg: &Message, max_chunk_size: usize) -> (r: Result<(), MessageError>)
    ensures
        match packing_defect(msg@, max_chunk_size as nat) {
            Some(value) => r == Err::<(), MessageError>(MessageError { value }),
            None => r is Ok,
        },
{
    match msg.check() {
        Err(error) => Err(error),
        Ok(()) => if max_chunk_size == 0 {
            Err(MessageError { value: MessageErrorValue::InvalidChunkSize })
        } else {
            Ok(())
        },
    }
}

/// The chunks of a message.
fn chunks_of(prev: Option<MessageHeader>, msg: &Message, max_chunk_size: usize) -> (out: Vec<u8>)
    requires
        valid_message(msg@),
        max_chunk_size >= 1,
    ensures
        out@ == encoded_message(prev, msg@, max_chunk_size as nat),
{
    let ghost whole = encoded_message(prev, msg@, max_chunk_size as nat);
    let csid = msg.chunk_stream_id;
    let payload = msg.payload.as_slice();
    let len = payload.len();
    let mut out: Vec<u8> = Vec::new();
    let first = first_header(prev, csid, msg.header);
    write_chunk_header(&mut out, &first);
    let n = if len <= max_chunk_size {
        len
    } else {
        max_chunk_size
    };
    out.extend_from_slice(slice_subrange(payload, 0, n));
    let continuation = ChunkHeader {
        format: 3,
        chunk_stream_id: csid,
        timestamp: 0,
        msg_length: 0,
        msg_type_id: 0,
        msg_stream_id: 0,
    };
    let mut pos = n;
    while pos < len
        invariant
            pos <= len,
            len == msg.payload@.len(),
            payload@ == msg.payload@,
            max_chunk_size >= 1,
            continuation == continuation_header(csid),
            canonical(continuation),
            whole == out@ + continuation_chunks(
                csid,
                msg.payload@.skip(pos as int),
                max_chunk_size as nat,
            ),
        decreases len - pos,
    {
        let ghost before = out@;
        let ghost left = msg.payload@.skip(pos as int);
        let m = if len - pos <= max_chunk_size {
            len - pos
        } else {
            max_chunk_size
        };
        write_chunk_header(&mut out, &continuation);
        out.extend_from_slice(slice_subrange(payload, pos, pos + m));
        proof {
            assert(left.skip(m as int) =~= msg.payload@.skip(pos + m));
            let tail = continuation_chunks(csid, left.skip(m as int), max_chunk_size as nat);
        }
        pos = pos + m;
    }
    out
}

/// A message cut into chunks as the first message on its chunk stream:
/// the first chunk carries every header field.
///
/// Fails, with what is wrong, for a message that the wire cannot carry and
/// for a chunk size of 0.
pub fn encode_message(msg: &Message, max_chunk_size: usize) -> (r: Result<Vec<u8>, MessageError>)
    ensures
        match packing_defect(msg@, max_chunk_size as nat) {
            Some(value) => r == Err::<Vec<u8>, MessageError>(MessageError { value }),
            None => r is Ok && r->Ok_0@ == encoded_message(None, msg@, max_chunk_size as nat),
        },
{
    match check_packing(msg, max_chunk_size) {
        Err(error) => Err(error),
        Ok(()) => Ok(chunks_of(None, msg, max_chunk_size)),
    }
}

/// The sending side of the chunk layer.
pub struct ChunkPacketizer {
    sent: HashMap<u32, MessageHeader>,
    max_chunk_size: usize,
}

impl ChunkPacketizer {
    /// The header of the last message sent on each chunk stream.
    pub closed spec fn sent(&self) -> Map<u32, MessageHeader> {
        self.sent@
    }

    /// The largest payload that goes into one chunk.
    pub closed spec fn chunk_size(&self) -> usize {
        self.max_chunk_size
    }

    /// A packetizer that has sent nothing yet.
    pub fn new(max_chunk_size: usize) -> (packetizer: Self)
        ensures
            packetizer.sent() == Map::<u32, MessageHeader>::empty(),
            packetizer.chunk_size() == max_chunk_size,
    {
        ChunkPacketizer { sent: HashMap::new(), max_chunk_size }
    }

    /// Sets the chunk size for the messages to come.
    pub fn set_max_chunk_size(&mut self, max_chunk_size: usize)
        ensures
            final(self).sent() == old(self).sent(),
            final(self).chunk_size() == max_chunk_size,
    {
        self.max_chunk_size = max_chunk_size;
    }

    /// The header of the last message sent on a chunk stream.
    pub fn last_sent(&self, chunk_stream_id: u32) -> (r: Option<MessageHeader>)
        ensures
            r == last_header(self.sent(), chunk_stream_id),
    {
        match self.sent.get(&chunk_stream_id) {
            Some(last) => Some(*last),
            None => None,
        }
    }

    /// The message cut into chunks, its first header written against the
    /// header of the last message sent on the same chunk stream; the
    /// message's header then takes that place.
    ///
    /// Fails, with what is wrong, for a message that the wire cannot carry
    /// and for a chunk size of 0, and then changes nothing.
    pub fn encode_message(&mut self, msg: &Message) -> (r: Result<Vec<u8>, MessageError>)
        ensures
            final(self).chunk_size() == old(self).chunk_size(),
            match packing_defect(msg@, old(self).chunk_size() as nat) {
                Some(value) => r == Err::<Vec<u8>, MessageError>(MessageError { value })
                    && final(self).sent() == old(self).sent(),
                None => r is Ok && r->Ok_0@ == encoded_message(
                    last_header(old(self).sent(), msg.chunk_stream_id),
                    msg@,
                    old(self).chunk_size() as nat,
                ) && final(self).sent() == old(self).sent().insert(
                    msg.chunk_stream_id,
                    msg.header,
                ),
            },
    {
        match check_packing(msg, self.max_chunk_size) {
            Err(error) => Err(error),
            Ok(()) => {
                let prev = self.last_sent(msg.chunk_stream_id);
                let out = chunks_of(prev, msg, self.max_chunk_size);
                self.sent.insert(msg.chunk_stream_id, msg.header);
                Ok(out)
            },
        }
    }
}

} // verus!
