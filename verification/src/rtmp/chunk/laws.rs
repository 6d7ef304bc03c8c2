//! What holds of the chunk layer as a whole: what was cut into chunks is put
//! together again as it was, and the chunk streams stay well-formed.

use super::errors::UnpackErrorValue;
use super::packetizer::{
    chunk_len, continuation_chunks, continuation_header, encoded_message, encoded_messages,
    first_chunk_format, first_chunk_header, last_header,
};
use super::unpacketizer::{
    chunk_payload_len, chunk_step, decode_run, lemma_chunk_step_consumes, message_header_of,
    pending, recorded, ChunkStep, StreamView,
};
use super::wire::{
    canonical, chunk_header, chunk_header_bytes, chunk_header_len, lemma_chunk_header_canonical,
    lemma_chunk_header_round_trip, ChunkHeader,
};
use crate::rtmp::messages::{valid_csid, valid_message, MessageHeader, MessageView, MSG_LENGTH_MAX};
use vstd::prelude::*;

verus! {

/// A chunk that was written with a canonical header and with as much payload
/// as its message may put into a chunk is taken in as that chunk, whatever
/// follows it.
pub proof fn lemma_chunk_step_of_written(
    streams: Map<u32, StreamView>,
    max_chunk_size: nat,
    h: ChunkHeader,
    body: Seq<u8>,
    rest: Seq<u8>,
)
    requires
        canonical(h),
        message_header_of(h, recorded(streams, h.chunk_stream_id)) is Ok,
        body.len() == chunk_payload_len(
            message_header_of(h, recorded(streams, h.chunk_stream_id))->Ok_0.msg_length as nat,
            pending(streams, h.chunk_stream_id).len(),
            max_chunk_size,
        ),
    ensures
        chunk_step(streams, max_chunk_size, chunk_header_bytes(h) + body + rest) == Ok::<
            ChunkStep,
            UnpackErrorValue,
        >(
            ChunkStep {
                consumed: chunk_header_bytes(h).len() + body.len(),
                chunk_stream_id: h.chunk_stream_id,
                header: message_header_of(h, recorded(streams, h.chunk_stream_id))->Ok_0,
                assembled: pending(streams, h.chunk_stream_id) + body,
            },
        ),
{
    reveal(chunk_step);
    let hb = chunk_header_bytes(h);
    let input = hb + body + rest;
    lemma_chunk_header_round_trip(h, body + rest);
    let n = hb.len() as int;
    assert(input.subrange(n, n + body.len()) =~= body);
}

/// The chunks after the first of a message bring the message to its end:
/// a chunk stream that holds the first part of a payload, and is then given
/// the chunks that carry the rest, hands out the message with the whole
/// payload and keeps the header on record.
proof fn lemma_decode_continuations(
    streams: Map<u32, StreamView>,
    max_chunk_size: nat,
    chunk_stream_id: u32,
    header: MessageHeader,
    received: Seq<u8>,
    left: Seq<u8>,
    rest: Seq<u8>,
)
    requires
        valid_csid(chunk_stream_id),
        max_chunk_size >= 1,
        recorded(streams, chunk_stream_id) == Some(StreamView { header, partial: received }),
        left.len() > 0,
        received.len() + left.len() == header.msg_length,
    ensures
        ({
            let chunks = continuation_chunks(chunk_stream_id, left, max_chunk_size);
            let run = decode_run(streams, max_chunk_size, chunks + rest);
            &&& run.consumed == chunks.len()
            &&& run.streams == streams.insert(
                chunk_stream_id,
                StreamView { header, partial: Seq::<u8>::empty() },
            )
            &&& run.result == Ok::<MessageView, UnpackErrorValue>(
                MessageView { chunk_stream_id, header, payload: received + left },
            )
        }),
    decreases left.len(),
{
    let h = continuation_header(chunk_stream_id);
    let hb = chunk_header_bytes(h);
    let n = chunk_len(left.len(), max_chunk_size) as int;
    let body = left.subrange(0, n);
    let after = left.skip(n);
    let tail = continuation_chunks(chunk_stream_id, after, max_chunk_size);
    let chunks = continuation_chunks(chunk_stream_id, left, max_chunk_size);
    let input = chunks + rest;
    assert(input =~= hb + body + (tail + rest));
    lemma_chunk_step_of_written(streams, max_chunk_size, h, body, tail + rest);
    let step = ChunkStep {
        consumed: hb.len() + body.len(),
        chunk_stream_id,
        header,
        assembled: received + body,
    };
    if n == left.len() {
        assert(body =~= left);
        lemma_decode_run_ends(streams, max_chunk_size, input, step);
    } else {
        lemma_decode_run_goes_on(streams, max_chunk_size, input, step);
        let next = streams.insert(chunk_stream_id, step.state());
        assert(input.skip(step.consumed as int) =~= tail + rest);
        lemma_decode_continuations(
            next,
            max_chunk_size,
            chunk_stream_id,
            header,
            received + body,
            after,
            rest,
        );
        assert(received + body + after =~= received + left);
    }
}

/// Whether a receiver is ready for the next message of a sender on one
/// chunk stream: it holds no unfinished message there, and where the sender
/// has sent a header before, the receiver has that header on record.
pub open spec fn in_step(
    streams: Map<u32, StreamView>,
    chunk_stream_id: u32,
    prev: Option<MessageHeader>,
) -> bool {
    match prev {
        Some(last) => recorded(streams, chunk_stream_id) == Some(
            StreamView { header: last, partial: Seq::<u8>::empty() },
        ),
        None => pending(streams, chunk_stream_id).len() == 0,
    }
}

/// The header that a sender writes in front of a message resolves, at a
/// receiver in step with it, to the header of the message.
proof fn lemma_first_header_resolves(
    streams: Map<u32, StreamView>,
    prev: Option<MessageHeader>,
    msg: MessageView,
)
    requires
        valid_message(msg),
        in_step(streams, msg.chunk_stream_id, prev),
    ensures
        canonical(first_chunk_header(prev, msg.chunk_stream_id, msg.header)),
        message_header_of(
            first_chunk_header(prev, msg.chunk_stream_id, msg.header),
            recorded(streams, msg.chunk_stream_id),
        ) == Ok::<MessageHeader, UnpackErrorValue>(msg.header),
        pending(streams, msg.chunk_stream_id) == Seq::<u8>::empty(),
{
}

/// The run that starts with a chunk that completes no message goes on after
/// that chunk.
proof fn lemma_decode_run_goes_on(
    streams: Map<u32, StreamView>,
    max_chunk_size: nat,
    input: Seq<u8>,
    step: ChunkStep,
)
    requires
        chunk_step(streams, max_chunk_size, input) == Ok::<ChunkStep, UnpackErrorValue>(step),
        !step.is_complete(),
    ensures
        1 <= step.consumed <= input.len(),
        ({
            let run = decode_run(streams, max_chunk_size, input);
            let then = decode_run(
                streams.insert(step.chunk_stream_id, step.state()),
                max_chunk_size,
                input.skip(step.consumed as int),
            );
            &&& run.consumed == step.consumed + then.consumed
            &&& run.streams == then.streams
            &&& run.result == then.result
        }),
{
    lemma_chunk_step_consumes(streams, max_chunk_size, input);
}

/// The run that starts with a chunk that completes a message ends there.
proof fn lemma_decode_run_ends(
    streams: Map<u32, StreamView>,
    max_chunk_size: nat,
    input: Seq<u8>,
    step: ChunkStep,
)
    requires
        chunk_step(streams, max_chunk_size, input) == Ok::<ChunkStep, UnpackErrorValue>(step),
        step.is_complete(),
    ensures
        ({
            let run = decode_run(streams, max_chunk_size, input);
            &&& run.consumed == step.consumed
            &&& run.streams == streams.insert(step.chunk_stream_id, step.state())
            &&& run.result == Ok::<MessageView, UnpackErrorValue>(step.message())
        }),
{
}

/// Round trip. A message that is cut into chunks, and then put together by
/// a receiver that is in step with the sender, comes out as it went in: with
/// the same chunk stream id, type, length, timestamp, message stream id and
/// payload, for a payload of any length and any chunk size of at least 1.
/// The run takes the bytes of the message and no more, leaves the other
/// chunk streams as they were, and leaves sender and receiver in step for
/// the next message.
pub proof fn lemma_round_trip(
    streams: Map<u32, StreamView>,
    max_chunk_size: nat,
    prev: Option<MessageHeader>,
    msg: MessageView,
    rest: Seq<u8>,
)
    requires
        valid_message(msg),
        max_chunk_size >= 1,
        in_step(streams, msg.chunk_stream_id, prev),
    ensures
        ({
            let bytes = encoded_message(prev, msg, max_chunk_size);
            let run = decode_run(streams, max_chunk_size, bytes + rest);
            &&& run.consumed == bytes.len()
            &&& run.result == Ok::<MessageView, UnpackErrorValue>(msg)
            &&& run.streams == streams.insert(
                msg.chunk_stream_id,
                StreamView { header: msg.header, partial: Seq::<u8>::empty() },
            )
            &&& in_step(run.streams, msg.chunk_stream_id, Some(msg.header))
        }),
{
    let csid = msg.chunk_stream_id;
    let h = first_chunk_header(prev, csid, msg.header);
    let hb = chunk_header_bytes(h);
    let n = chunk_len(msg.payload.len(), max_chunk_size) as int;
    let body = msg.payload.subrange(0, n);
    let after = msg.payload.skip(n);
    let tail = continuation_chunks(csid, after, max_chunk_size);
    let bytes = encoded_message(prev, msg, max_chunk_size);
    let input = bytes + rest;
    assert(input =~= hb + body + (tail + rest));
    lemma_first_header_resolves(streams, prev, msg);
    lemma_chunk_step_of_written(streams, max_chunk_size, h, body, tail + rest);
    let step = ChunkStep {
        consumed: hb.len() + body.len(),
        chunk_stream_id: csid,
        header: msg.header,
        assembled: Seq::<u8>::empty() + body,
    };
    let done = StreamView { header: msg.header, partial: Seq::<u8>::empty() };
    if n == msg.payload.len() {
        assert(body =~= msg.payload);
        lemma_decode_run_ends(streams, max_chunk_size, input, step);
    } else {
        lemma_decode_run_goes_on(streams, max_chunk_size, input, step);
        let next = streams.insert(csid, step.state());
        assert(input.skip(step.consumed as int) =~= tail + rest);
        lemma_decode_continuations(next, max_chunk_size, csid, msg.header, body, after, rest);
        assert(body + after =~= msg.payload);
    }
}

/// Round trip from a fresh start. A message that is cut into chunks as the
/// first on its chunk stream, and put together by a receiver that has seen
/// nothing, comes out as it went in, for a payload of any length, the empty
/// one and one of many chunks among them.
pub proof fn lemma_round_trip_fresh(max_chunk_size: nat, msg: MessageView, rest: Seq<u8>)
    requires
        valid_message(msg),
        max_chunk_size >= 1,
    ensures
        ({
            let bytes = encoded_message(None, msg, max_chunk_size);
            let run = decode_run(Map::<u32, StreamView>::empty(), max_chunk_size, bytes + rest);
            &&& run.consumed == bytes.len()
            &&& run.result == Ok::<MessageView, UnpackErrorValue>(msg)
        }),
{
    let fresh = Map::<u32, StreamView>::empty();
    assert(pending(fresh, msg.chunk_stream_id) =~= Seq::<u8>::empty());
    lemma_round_trip(fresh, max_chunk_size, None, msg, rest);
}

/// Whether a receiver is in step with a sender on every chunk stream.
pub open spec fn all_in_step(
    streams: Map<u32, StreamView>,
    sent: Map<u32, MessageHeader>,
) -> bool {
    forall|csid: u32| #[trigger] in_step(streams, csid, last_header(sent, csid))
}

/// Whether runs of chunks from the start of `input`, one after the other,
/// end with the messages `msgs`, in their order.
pub open spec fn delivers(
    streams: Map<u32, StreamView>,
    max_chunk_size: nat,
    input: Seq<u8>,
    msgs: Seq<MessageView>,
) -> bool
    decreases msgs.len(),
{
    msgs.len() == 0 || {
        let run = decode_run(streams, max_chunk_size, input);
        &&& run.result == Ok::<MessageView, UnpackErrorValue>(msgs[0])
        &&& run.consumed <= input.len()
        &&& delivers(run.streams, max_chunk_size, input.skip(run.consumed as int), msgs.skip(1))
    }
}

/// Round trip of a connection. Whatever messages a sender cuts into chunks,
/// on whatever chunk streams and in whatever order, a receiver that is in
/// step with the sender puts together the same messages in the same order,
/// each with the header compression that the messages before it allowed.
pub proof fn lemma_round_trip_of_messages(
    streams: Map<u32, StreamView>,
    sent: Map<u32, MessageHeader>,
    max_chunk_size: nat,
    msgs: Seq<MessageView>,
    rest: Seq<u8>,
)
    requires
        forall|i: int| 0 <= i < msgs.len() ==> valid_message(#[trigger] msgs[i]),
        max_chunk_size >= 1,
        all_in_step(streams, sent),
    ensures
        delivers(streams, max_chunk_size, encoded_messages(sent, msgs, max_chunk_size) + rest, msgs),
    decreases msgs.len(),
{
    if msgs.len() > 0 {
        let msg = msgs[0];
        let csid = msg.chunk_stream_id;
        let prev = last_header(sent, csid);
        let one = encoded_message(prev, msg, max_chunk_size);
        let sent_after = sent.insert(csid, msg.header);
        let others = encoded_messages(sent_after, msgs.skip(1), max_chunk_size);
        let input = encoded_messages(sent, msgs, max_chunk_size) + rest;
        assert(input =~= one + (others + rest));
        assert(in_step(streams, csid, prev));
        lemma_round_trip(streams, max_chunk_size, prev, msg, others + rest);
        let run = decode_run(streams, max_chunk_size, input);
        assert(input.skip(run.consumed as int) =~= others + rest);
        assert forall|other: u32| #[trigger]
            in_step(run.streams, other, last_header(sent_after, other)) by {
            if other != csid {
                assert(in_step(streams, other, last_header(sent, other)));
            }
        }
        assert forall|i: int| 0 <= i < msgs.skip(1).len() implies valid_message(
            #[trigger] msgs.skip(1)[i],
        ) by {
            assert(msgs.skip(1)[i] == msgs[i + 1]);
        }
        lemma_round_trip_of_messages(run.streams, sent_after, max_chunk_size, msgs.skip(1), rest);
    }
}

/// Round trip of a connection from a fresh start. A receiver that has seen
/// nothing puts together, in their order, the messages that a sender that
/// has sent nothing cuts into chunks.
pub proof fn lemma_round_trip_of_messages_fresh(
    max_chunk_size: nat,
    msgs: Seq<MessageView>,
    rest: Seq<u8>,
)
    requires
        forall|i: int| 0 <= i < msgs.len() ==> valid_message(#[trigger] msgs[i]),
        max_chunk_size >= 1,
    ensures
        delivers(
            Map::<u32, StreamView>::empty(),
            max_chunk_size,
            encoded_messages(Map::<u32, MessageHeader>::empty(), msgs, max_chunk_size) + rest,
            msgs,
        ),
{
    let streams = Map::<u32, StreamView>::empty();
    let sent = Map::<u32, MessageHeader>::empty();
    assert forall|csid: u32| #[trigger] in_step(streams, csid, last_header(sent, csid)) by {
        assert(pending(streams, csid) =~= Seq::<u8>::empty());
    }
    lemma_round_trip_of_messages(streams, sent, max_chunk_size, msgs, rest);
}

/// Header compression. Of two messages in a row on one chunk stream, with
/// the same type, length and message stream id and with the later timestamp
/// on the second, the second starts with a header of format 2, which
/// carries the distance of the timestamps and nothing else. A receiver that
/// has seen nothing before puts both messages together as they were sent:
/// the header of the second from what the first left on record.
pub proof fn lemma_header_compression(
    first: MessageView,
    second: MessageView,
    max_chunk_size: nat,
    rest: Seq<u8>,
)
    requires
        valid_message(first),
        valid_message(second),
        max_chunk_size >= 1,
        second.chunk_stream_id == first.chunk_stream_id,
        second.header.msg_type_id == first.header.msg_type_id,
        second.header.msg_length == first.header.msg_length,
        second.header.msg_stream_id == first.header.msg_stream_id,
        second.header.timestamp > first.header.timestamp,
    ensures
        ({
            let one = encoded_message(None, first, max_chunk_size);
            let two = encoded_message(Some(first.header), second, max_chunk_size);
            let run_one = decode_run(Map::<u32, StreamView>::empty(), max_chunk_size, one + two + rest);
            let run_two = decode_run(run_one.streams, max_chunk_size, two + rest);
            &&& first_chunk_format(Some(first.header), second.header) == 2
            &&& chunk_header(two) == ChunkHeader {
                format: 2,
                chunk_stream_id: second.chunk_stream_id,
                timestamp: (second.header.timestamp - first.header.timestamp) as u32,
                msg_length: 0,
                msg_type_id: 0,
                msg_stream_id: 0,
            }
            &&& run_one.consumed == one.len()
            &&& run_one.result == Ok::<MessageView, UnpackErrorValue>(first)
            &&& run_two.consumed == two.len()
            &&& run_two.result == Ok::<MessageView, UnpackErrorValue>(second)
        }),
{
    let csid = second.chunk_stream_id;
    let one = encoded_message(None, first, max_chunk_size);
    let two = encoded_message(Some(first.header), second, max_chunk_size);
    let h = first_chunk_header(Some(first.header), csid, second.header);
    let n = chunk_len(second.payload.len(), max_chunk_size) as int;
    let after_header = second.payload.subrange(0, n) + continuation_chunks(
        csid,
        second.payload.skip(n),
        max_chunk_size,
    );
    lemma_chunk_header_round_trip(h, after_header);
    let fresh = Map::<u32, StreamView>::empty();
    assert(one + two + rest =~= one + (two + rest));
    lemma_round_trip(fresh, max_chunk_size, None, first, two + rest);
    let run_one = decode_run(fresh, max_chunk_size, one + two + rest);
    lemma_round_trip(run_one.streams, max_chunk_size, Some(first.header), second, rest);
}

/// A chunk that leaves header fields to its chunk stream is refused where
/// the chunk stream has no header on record, a chunk of format 3 among
/// them: the step fails with `UnknownChunkStream`, and so does the run,
/// which takes nothing and leaves the chunk streams as they were, without an
/// entry for the chunk stream of that chunk.
pub proof fn lemma_unknown_chunk_stream(
    streams: Map<u32, StreamView>,
    max_chunk_size: nat,
    input: Seq<u8>,
)
    requires
        chunk_header_len(input) is Some,
        chunk_header(input).format != 0,
        !streams.contains_key(chunk_header(input).chunk_stream_id),
    ensures
        chunk_step(streams, max_chunk_size, input) == Err::<ChunkStep, UnpackErrorValue>(
            UnpackErrorValue::UnknownChunkStream,
        ),
        decode_run(streams, max_chunk_size, input).consumed == 0,
        decode_run(streams, max_chunk_size, input).streams == streams,
        decode_run(streams, max_chunk_size, input).result == Err::<MessageView, UnpackErrorValue>(
            UnpackErrorValue::UnknownChunkStream,
        ),
        !decode_run(streams, max_chunk_size, input).streams.contains_key(
            chunk_header(input).chunk_stream_id,
        ),
{
    reveal(chunk_step);
}

/// A chunk of format 3 as it is written for a chunk stream that the
/// receiver has no header for is refused, whatever follows it.
pub proof fn lemma_continuation_of_nothing(
    streams: Map<u32, StreamView>,
    max_chunk_size: nat,
    chunk_stream_id: u32,
    rest: Seq<u8>,
)
    requires
        valid_csid(chunk_stream_id),
        !streams.contains_key(chunk_stream_id),
    ensures
        chunk_step(
            streams,
            max_chunk_size,
            chunk_header_bytes(continuation_header(chunk_stream_id)) + rest,
        ) == Err::<ChunkStep, UnpackErrorValue>(UnpackErrorValue::UnknownChunkStream),
{
    reveal(chunk_step);
    lemma_chunk_header_round_trip(continuation_header(chunk_stream_id), rest);
}

/// Whether every chunk stream is in a state that chunks can have left: its
/// id is one that a chunk header can name, the length on record fits 24
/// bits, and the payload it holds is short of that length.
pub open spec fn well_formed(streams: Map<u32, StreamView>) -> bool {
    forall|csid: u32| #[trigger]
        streams.contains_key(csid) ==> {
            &&& valid_csid(csid)
            &&& streams[csid].header.msg_length <= MSG_LENGTH_MAX
            &&& (streams[csid].partial.len() == 0 || streams[csid].partial.len()
                < streams[csid].header.msg_length)
        }
}

/// A chunk keeps the chunk streams well-formed and leaves every chunk
/// stream but its own as it was. The payload it adds to never grows beyond
/// the declared length, and the message it completes has exactly that
/// length and can be put on the wire again.
pub proof fn lemma_chunk_step_keeps_well_formed(
    streams: Map<u32, StreamView>,
    max_chunk_size: nat,
    input: Seq<u8>,
)
    requires
        well_formed(streams),
        chunk_step(streams, max_chunk_size, input) is Ok,
    ensures
        ({
            let step = chunk_step(streams, max_chunk_size, input)->Ok_0;
            let next = streams.insert(step.chunk_stream_id, step.state());
            &&& well_formed(next)
            &&& step.assembled.len() <= step.header.msg_length
            &&& step.is_complete() ==> valid_message(step.message())
            &&& forall|csid: u32|
                csid != step.chunk_stream_id ==> #[trigger] recorded(next, csid) == recorded(
                    streams,
                    csid,
                )
        }),
{
    reveal(chunk_step);
    lemma_chunk_header_canonical(input);
}

/// A run of chunks keeps the chunk streams well-formed, takes no more bytes
/// than there are, and the message it ends with has the length that its
/// header declares and can be put on the wire again.
pub proof fn lemma_decode_run_keeps_well_formed(
    streams: Map<u32, StreamView>,
    max_chunk_size: nat,
    input: Seq<u8>,
)
    requires
        well_formed(streams),
    ensures
        well_formed(decode_run(streams, max_chunk_size, input).streams),
        decode_run(streams, max_chunk_size, input).consumed <= input.len(),
        decode_run(streams, max_chunk_size, input).result is Ok ==> valid_message(
            decode_run(streams, max_chunk_size, input).result->Ok_0,
        ),
    decreases input.len(),
{
    if chunk_step(streams, max_chunk_size, input) is Ok {
        let step = chunk_step(streams, max_chunk_size, input)->Ok_0;
        lemma_chunk_step_keeps_well_formed(streams, max_chunk_size, input);
        lemma_chunk_step_consumes(streams, max_chunk_size, input);
        if !step.is_complete() && 1 <= step.consumed <= input.len() {
            lemma_decode_run_keeps_well_formed(
                streams.insert(step.chunk_stream_id, step.state()),
                max_chunk_size,
                input.skip(step.consumed as int),
            );
        }
    }
}

} // verus!
