//! Taking chunks apart: from the bytes of a connection back to messages.
//!
//! Each chunk stream id has a state of its own: the header of its last
//! message, against which later chunks are read, and the payload of the
//! message that is being put together. Chunks of several chunk streams may
//! alternate; a chunk changes the state of its own chunk stream only.

use super::errors::{not_enough_bytes, UnpackError, UnpackErrorValue};
use super::wire::{
    chunk_header, chunk_header_len, lemma_chunk_header_canonical, lemma_chunk_header_of_prefix,
    read_chunk_header, ChunkHeader, CHUNK_HEADER_LEN_MAX,
};
use crate::netio::buffer::buffered;
use crate::netio::errors::{IOReadError, IOReadErrorValue};
use crate::netio::reader::Reader;
use crate::rtmp::messages::{Message, MessageHeader, MessageView};
use std::collections::HashMap;
use vstd::prelude::*;

verus! {

broadcast use vstd::std_specs::hash::group_hash_axioms;

/// What a chunk stream remembers between chunks.
#[derive(Debug)]
pub struct ChunkStreamState {
    /// The header of the last message that started on the chunk stream.
    pub header: MessageHeader,
    /// The payload received so far of a message that is short of its
    /// declared length; empty between messages.
    pub partial: Vec<u8>,
}

/// The state of a chunk stream as a mathematical value.
pub struct StreamView {
    pub header: MessageHeader,
    pub partial: Seq<u8>,
}

impl View for ChunkStreamState {
    type V = StreamView;

    open spec fn view(&self) -> StreamView {
        StreamView { header: self.header, partial: self.partial@ }
    }
}

/// The state that a chunk stream has on record, if any.
pub open spec fn recorded(streams: Map<u32, StreamView>, chunk_stream_id: u32) -> Option<
    StreamView,
> {
    if streams.contains_key(chunk_stream_id) {
        Some(streams[chunk_stream_id])
    } else {
        None
    }
}

/// The payload that a chunk stream holds of a message that is short of its
/// length.
pub open spec fn pending(streams: Map<u32, StreamView>, chunk_stream_id: u32) -> Seq<u8> {
    match recorded(streams, chunk_stream_id) {
        Some(state) => state.partial,
        None => Seq::<u8>::empty(),
    }
}

/// A timestamp moved on by a delta; timestamps wrap at 32 bits.
pub open spec fn timestamp_after(timestamp: u32, delta: u32) -> u32 {
    ((timestamp + delta) % 0x1_0000_0000) as u32
}

/// The header of the message that a chunk belongs to: the fields that the
/// chunk header carries, and for the others those of the chunk stream's
/// last message.
///
/// A chunk that leaves fields out needs a chunk stream with a header on
/// record. While a message is short of its length, only a chunk of format 3
/// can follow on its chunk stream.
pub open spec fn message_header_of(ch: ChunkHeader, prev: Option<StreamView>) -> Result<
    MessageHeader,
    UnpackErrorValue,
> {
    let explicit = MessageHeader {
        timestamp: ch.timestamp,
        msg_length: ch.msg_length,
        msg_type_id: ch.msg_type_id,
        msg_stream_id: ch.msg_stream_id,
    };
    match prev {
        None => if ch.format == 0 {
            Ok(explicit)
        } else {
            Err(UnpackErrorValue::UnknownChunkStream)
        },
        Some(state) => if ch.format >= 3 {
            Ok(state.header)
        } else if state.partial.len() > 0 {
            Err(UnpackErrorValue::MessageInProgress)
        } else if ch.format == 0 {
            Ok(explicit)
        } else if ch.format == 1 {
            Ok(
                MessageHeader {
                    timestamp: timestamp_after(state.header.timestamp, ch.timestamp),
                    msg_length: ch.msg_length,
                    msg_type_id: ch.msg_type_id,
                    msg_stream_id: state.header.msg_stream_id,
                },
            )
        } else {
            Ok(
                MessageHeader {
                    timestamp: timestamp_after(state.header.timestamp, ch.timestamp),
                    msg_length: state.header.msg_length,
                    msg_type_id: state.header.msg_type_id,
                    msg_stream_id: state.header.msg_stream_id,
                },
            )
        },
    }
}

/// The number of payload bytes in the next chunk of a message: what the
/// message still lacks, but no more than the chunk size.
pub open spec fn chunk_payload_len(msg_length: nat, received: nat, max_chunk_size: nat) -> nat {
    if received >= msg_length {
        0
    } else if msg_length - received <= max_chunk_size {
        (msg_length - received) as nat
    } else {
        max_chunk_size
    }
}

/// What one chunk does.
pub struct ChunkStep {
    /// The number of bytes that the chunk takes, header and payload.
    pub consumed: nat,
    pub chunk_stream_id: u32,
    /// The header of the message that the chunk belongs to.
    pub header: MessageHeader,
    /// The payload of that message up to the end of the chunk.
    pub assembled: Seq<u8>,
}

impl ChunkStep {
    /// Whether the chunk brings its message to the declared length.
    pub open spec fn is_complete(self) -> bool {
        self.assembled.len() == self.header.msg_length
    }

    /// The chunk stream's state after the chunk. The header stays on record;
    /// the payload stays until it is complete.
    pub open spec fn state(self) -> StreamView {
        StreamView {
            header: self.header,
            partial: if self.is_complete() {
                Seq::<u8>::empty()
            } else {
                self.assembled
            },
        }
    }

    /// The message that the chunk completes.
    pub open spec fn message(self) -> MessageView
        recommends
            self.is_complete(),
    {
        MessageView {
            chunk_stream_id: self.chunk_stream_id,
            header: self.header,
            payload: self.assembled,
        }
    }
}

/// What the chunk at the start of `input` does to the chunk streams, or why
/// there is no such chunk: `input` ends before the chunk does
/// (`not_enough_bytes()`), or the chunk's header asks for what its chunk
/// stream cannot give.
#[verifier::opaque]
pub open spec fn chunk_step(
    streams: Map<u32, StreamView>,
    max_chunk_size: nat,
    input: Seq<u8>,
) -> Result<ChunkStep, UnpackErrorValue> {
    match chunk_header_len(input) {
        None => Err(not_enough_bytes()),
        Some(header_len) => {
            let ch = chunk_header(input);
            match message_header_of(ch, recorded(streams, ch.chunk_stream_id)) {
                Err(e) => Err(e),
                Ok(header) => {
                    let partial = pending(streams, ch.chunk_stream_id);
                    let take = chunk_payload_len(
                        header.msg_length as nat,
                        partial.len(),
                        max_chunk_size,
                    );
                    if input.len() < header_len + take {
                        Err(not_enough_bytes())
                    } else {
                        Ok(
                            ChunkStep {
                                consumed: header_len + take,
                                chunk_stream_id: ch.chunk_stream_id,
                                header,
                                assembled: partial + input.subrange(
                                    header_len as int,
                                    (header_len + take) as int,
                                ),
                            },
                        )
                    }
                },
            }
        },
    }
}

/// A chunk takes at least one byte, and no more than there are.
pub proof fn lemma_chunk_step_consumes(
    streams: Map<u32, StreamView>,
    max_chunk_size: nat,
    input: Seq<u8>,
)
    requires
        chunk_step(streams, max_chunk_size, input) is Ok,
    ensures
        1 <= chunk_step(streams, max_chunk_size, input)->Ok_0.consumed <= input.len(),
{
    reveal(chunk_step);
    lemma_chunk_header_canonical(input);
}

/// How far a run of chunks gets.
pub struct DecodeRun {
    /// The number of bytes that the chunks of the run take.
    pub consumed: nat,
    /// The chunk streams after the run.
    pub streams: Map<u32, StreamView>,
    /// The message that the last chunk of the run completes, or why the run
    /// stops short of one.
    pub result: Result<MessageView, UnpackErrorValue>,
}

/// The run of chunks from the start of `input` up to the first chunk that
/// completes a message, or up to the place where there is no further chunk.
pub open spec fn decode_run(
    streams: Map<u32, StreamView>,
    max_chunk_size: nat,
    input: Seq<u8>,
) -> DecodeRun
    decreases input.len(),
{
    match chunk_step(streams, max_chunk_size, input) {
        Err(e) => DecodeRun { consumed: 0, streams, result: Err(e) },
        Ok(step) => {
            let next = streams.insert(step.chunk_stream_id, step.state());
            if step.is_complete() {
                DecodeRun { consumed: step.consumed, streams: next, result: Ok(step.message()) }
            } else if 1 <= step.consumed <= input.len() {
                let rest = decode_run(next, max_chunk_size, input.skip(step.consumed as int));
                DecodeRun {
                    consumed: step.consumed + rest.consumed,
                    streams: rest.streams,
                    result: rest.result,
                }
            } else {
                DecodeRun { consumed: 0, streams, result: Err(not_enough_bytes()) }
            }
        },
    }
}

/// Reads the chunk header at the front of the reader without consuming it,
/// and returns it with its length; `None` where the reader ends before the
/// header does.
fn peek_chunk_header(reader: &mut Reader) -> (r: Option<(ChunkHeader, usize)>)
    ensures
        final(reader)@ == old(reader)@,
        match chunk_header_len(old(reader)@) {
            Some(n) => r == Some((chunk_header(old(reader)@), n as usize)) && 1 <= n
                <= CHUNK_HEADER_LEN_MAX && n <= old(reader)@.len(),
            None => r is None,
        },
{
    let ghost input = reader@;
    let avail = reader.len();
    let head_len = if avail < CHUNK_HEADER_LEN_MAX {
        avail
    } else {
        CHUNK_HEADER_LEN_MAX
    };
    let head = match reader.advance_bytes(head_len) {
        Ok(bytes) => bytes,
        Err(_) => {
            return None;
        },
    };
    let mut scratch = Reader::new(head);
    proof {
        lemma_chunk_header_of_prefix(input, head_len as int);
        if chunk_header_len(input) is Some {
            lemma_chunk_header_canonical(input);
        }
    }
    match read_chunk_header(&mut scratch) {
        Some(ch) => Some((ch, head_len - scratch.len())),
        None => None,
    }
}

/// The number of payload bytes in the next chunk of a message.
fn payload_len_of_chunk(msg_length: u32, received: usize, max_chunk_size: usize) -> (take: usize)
    ensures
        take == chunk_payload_len(msg_length as nat, received as nat, max_chunk_size as nat),
{
    let msg_length = msg_length as usize;
    if received >= msg_length {
        0
    } else if msg_length - received <= max_chunk_size {
        msg_length - received
    } else {
        max_chunk_size
    }
}

/// The chunk streams of a table, each state as a mathematical value.
pub open spec fn stream_views(table: Map<u32, ChunkStreamState>) -> Map<u32, StreamView> {
    Map::new(|csid: u32| table.contains_key(csid), |csid: u32| table[csid]@)
}

/// The receiving side of the chunk layer.
pub struct ChunkUnpacketizer {
    streams: HashMap<u32, ChunkStreamState>,
    max_chunk_size: usize,
}

impl ChunkUnpacketizer {
    /// The state of every chunk stream that has a header on record.
    pub closed spec fn streams(&self) -> Map<u32, StreamView> {
        stream_views(self.streams@)
    }

    /// The largest payload that the peer puts into one chunk.
    pub closed spec fn chunk_size(&self) -> usize {
        self.max_chunk_size
    }

    /// An unpacketizer that has seen no chunk yet.
    pub fn new(max_chunk_size: usize) -> (unpacketizer: Self)
        ensures
            unpacketizer.streams() == Map::<u32, StreamView>::empty(),
            unpacketizer.chunk_size() == max_chunk_size,
    {
        ChunkUnpacketizer { streams: HashMap::new(), max_chunk_size }
    }

    /// Takes over the chunk size that the peer has announced. It holds from
    /// the next chunk on, for every chunk stream.
    pub fn set_max_chunk_size(&mut self, max_chunk_size: usize)
        ensures
            final(self).streams() == old(self).streams(),
            final(self).chunk_size() == max_chunk_size,
    {
        self.max_chunk_size = max_chunk_size;
    }

    /// The header that a chunk stream has on record: that of the last
    /// message that started on it.
    pub fn header_on_record(&self, chunk_stream_id: u32) -> (r: Option<MessageHeader>)
        ensures
            r == match recorded(self.streams(), chunk_stream_id) {
                Some(state) => Some(state.header),
                None => None,
            },
    {
        match self.streams.get(&chunk_stream_id) {
            Some(state) => Some(state.header),
            None => None,
        }
    }

    /// The number of payload bytes that a chunk stream holds of a message
    /// that is short of its length.
    pub fn pending_len(&self, chunk_stream_id: u32) -> (n: usize)
        ensures
            n == pending(self.streams(), chunk_stream_id).len(),
    {
        match self.streams.get(&chunk_stream_id) {
            Some(state) => state.partial.len(),
            None => 0,
        }
    }

    /// Takes one chunk from the front of the reader, once the reader holds
    /// the whole of it, and returns the message if the chunk completes one.
    ///
    /// The chunk changes the state of its own chunk stream and of no other.
    /// Where the reader ends before the chunk does, the call fails with the
    /// reader's `NotEnoughBytes`; where the chunk's header asks for what its
    /// chunk stream cannot give, with the error that says so. A call that
    /// fails consumes nothing and changes no chunk stream.
    pub fn decode_chunk(&mut self, reader: &mut Reader) -> (r: Result<Option<Message>, UnpackError>)
        ensures
            final(self).chunk_size() == old(self).chunk_size(),
            match chunk_step(old(self).streams(), old(self).chunk_size() as nat, old(reader)@) {
                Ok(step) => {
                    &&& r is Ok
                    &&& final(reader)@ == old(reader)@.skip(step.consumed as int)
                    &&& final(self).streams() == old(self).streams().insert(
                        step.chunk_stream_id,
                        step.state(),
                    )
                    &&& step.is_complete() ==> r->Ok_0 is Some && r->Ok_0->Some_0@ == step.message()
                    &&& !step.is_complete() ==> r->Ok_0 is None
                },
                Err(e) => {
                    &&& r is Err
                    &&& r->Err_0.value == e
                    &&& final(reader)@ == old(reader)@
                    &&& final(self).streams() == old(self).streams()
                },
            },
    {
        reveal(chunk_step);
        let ghost input = reader@;
        let avail = reader.len();
        let (ch, header_len) = match peek_chunk_header(reader) {
            Some(found) => found,
            None => {
                return Err(
                    UnpackError {
                        value: UnpackErrorValue::BytesReadError(
                            IOReadError { value: IOReadErrorValue::NotEnoughBytes },
                        ),
                    },
                );
            },
        };
        let (header, received) = match self.message_header_for(&ch) {
            Ok(found) => found,
            Err(error) => {
                return Err(error);
            },
        };
        let take = payload_len_of_chunk(header.msg_length, received, self.max_chunk_size);
        if avail - header_len < take {
            return Err(
                UnpackError {
                    value: UnpackErrorValue::BytesReadError(
                        IOReadError { value: IOReadErrorValue::NotEnoughBytes },
                    ),
                },
            );
        }
        let ghost step = chunk_step(old(self).streams(), old(self).chunk_size() as nat, input)->Ok_0;
        match reader.read_bytes(header_len) {
            Ok(_) => {},
            Err(error) => {
                return Err(UnpackError::from(error));
            },
        }
        let body = match reader.read_bytes(take) {
            Ok(bytes) => bytes,
            Err(error) => {
                return Err(UnpackError::from(error));
            },
        };
        assert(buffered(body) =~= input.subrange(header_len as int, header_len + take));
        self.take_in(ch.chunk_stream_id, header, body.as_ref())
    }

    /// The header of the message that a chunk belongs to, and the number of
    /// payload bytes of that message that have been received.
    fn message_header_for(&self, ch: &ChunkHeader) -> (r: Result<(MessageHeader, usize), UnpackError>)
        ensures
            match message_header_of(*ch, recorded(self.streams(), ch.chunk_stream_id)) {
                Ok(header) => r is Ok && r->Ok_0.0 == header && r->Ok_0.1 == pending(
                    self.streams(),
                    ch.chunk_stream_id,
                ).len(),
                Err(e) => r is Err && r->Err_0.value == e,
            },
    {
        let explicit = MessageHeader {
            timestamp: ch.timestamp,
            msg_length: ch.msg_length,
            msg_type_id: ch.msg_type_id,
            msg_stream_id: ch.msg_stream_id,
        };
        match self.streams.get(&ch.chunk_stream_id) {
            None => {
                if ch.format != 0 {
                    return Err(UnpackError { value: UnpackErrorValue::UnknownChunkStream });
                }
                Ok((explicit, 0))
            },
            Some(state) => {
                if ch.format >= 3 {
                    Ok((state.header, state.partial.len()))
                } else if state.partial.len() > 0 {
                    Err(UnpackError { value: UnpackErrorValue::MessageInProgress })
                } else if ch.format == 0 {
                    Ok((explicit, 0))
                } else {
                    let moved: u64 = (state.header.timestamp as u64 + ch.timestamp as u64)
                        % 0x1_0000_0000;
                    if ch.format == 1 {
                        Ok(
                            (
                                MessageHeader {
                                    timestamp: moved as u32,
                                    msg_length: ch.msg_length,
                                    msg_type_id: ch.msg_type_id,
                                    msg_stream_id: state.header.msg_stream_id,
                                },
                                0,
                            ),
                        )
                    } else {
                        Ok(
                            (
                                MessageHeader {
                                    timestamp: moved as u32,
                                    msg_length: state.header.msg_length,
                                    msg_type_id: state.header.msg_type_id,
                                    msg_stream_id: state.header.msg_stream_id,
                                },
                                0,
                            ),
                        )
                    }
                }
            },
        }
    }

    /// Adds the payload of a chunk to the message of its chunk stream, puts
    /// the header on record, and hands the message out if it is complete.
    fn take_in(&mut self, chunk_stream_id: u32, header: MessageHeader, body: &[u8]) -> (r: Result<
        Option<Message>,
        UnpackError,
    >)
        ensures
            final(self).chunk_size() == old(self).chunk_size(),
            ({
                let step = ChunkStep {
                    consumed: 0,
                    chunk_stream_id,
                    header,
                    assembled: pending(old(self).streams(), chunk_stream_id) + body@,
                };
                &&& r is Ok
                &&& final(self).streams() == old(self).streams().insert(
                    chunk_stream_id,
                    step.state(),
                )
                &&& step.is_complete() ==> r->Ok_0 is Some && r->Ok_0->Some_0@ == step.message()
                &&& !step.is_complete() ==> r->Ok_0 is None
            }),
    {
        let mut assembled = match self.streams.remove(&chunk_stream_id) {
            Some(state) => state.partial,
            None => Vec::new(),
        };
        let ghost partial = assembled@;
        assembled.extend_from_slice(body);
        assert(assembled@ =~= partial + body@);
        if assembled.len() == header.msg_length as usize {
            self.streams.insert(chunk_stream_id, ChunkStreamState { header, partial: Vec::new() });
            Ok(Some(Message { chunk_stream_id, header, payload: assembled }))
        } else {
            self.streams.insert(chunk_stream_id, ChunkStreamState { header, partial: assembled });
            Ok(None)
        }
    }

    /// Takes chunks from the front of the reader up to the one that
    /// completes a message, and returns that message.
    ///
    /// Where the reader runs out first, the call fails with the reader's
    /// `NotEnoughBytes`: the chunks that were there in full have been taken
    /// in, and the call can be made again once more bytes have arrived.
    /// Where a chunk's header asks for what its chunk stream cannot give,
    /// the call fails with the error that says so, and that chunk stays in
    /// the reader.
    pub fn decode_next_message(&mut self, reader: &mut Reader) -> (r: Result<Message, UnpackError>)
        ensures
            final(self).chunk_size() == old(self).chunk_size(),
            ({
                let run = decode_run(
                    old(self).streams(),
                    old(self).chunk_size() as nat,
                    old(reader)@,
                );
                &&& final(reader)@ == old(reader)@.skip(run.consumed as int)
                &&& final(self).streams() == run.streams
                &&& match run.result {
                    Ok(message) => r is Ok && r->Ok_0@ == message,
                    Err(e) => r is Err && r->Err_0.value == e,
                }
            }),
    {
        let ghost whole = decode_run(old(self).streams(), old(self).chunk_size() as nat, reader@);
        let ghost taken: nat = 0;
        loop
            invariant
                self.chunk_size() == old(self).chunk_size(),
                taken <= old(reader)@.len(),
                reader@ == old(reader)@.skip(taken as int),
                whole == decode_run(
                    old(self).streams(),
                    old(self).chunk_size() as nat,
                    old(reader)@,
                ),
                ({
                    let here = decode_run(self.streams(), self.chunk_size() as nat, reader@);
                    &&& whole.consumed == taken + here.consumed
                    &&& whole.streams == here.streams
                    &&& whole.result == here.result
                }),
            decreases reader@.len(),
        {
            let ghost before = reader@;
            let ghost streams = self.streams();
            proof {
                if chunk_step(streams, self.chunk_size() as nat, before) is Ok {
                    lemma_chunk_step_consumes(streams, self.chunk_size() as nat, before);
                }
            }
            match self.decode_chunk(reader) {
                Err(error) => {
                    return Err(error);
                },
                Ok(Some(message)) => {
                    proof {
                        let step = chunk_step(streams, self.chunk_size() as nat, before)->Ok_0;
                    }
                    return Ok(message);
                },
                Ok(None) => {
                    proof {
                        let step = chunk_step(streams, self.chunk_size() as nat, before)->Ok_0;
                        taken = taken + step.consumed;
                    }
                },
            }
        }
    }
}

} // verus!
