//! The header of a chunk as it stands on the wire.
//!
//! A chunk starts with one to three bytes that give the header's format and
//! the chunk stream id. The format says which message header fields follow:
//! all of them (format 0), all but the message stream id (1), the timestamp
//! alone (2), or none (3). Where the three timestamp bytes are all ones, the
//! timestamp follows the other fields in four bytes.

use crate::netio::endian::{be24, be32};
use crate::netio::reader::Reader;
use crate::rtmp::messages::{valid_csid, MSG_LENGTH_MAX};
use vstd::prelude::*;

verus! {

/// The value of the three timestamp bytes that says that the timestamp
/// follows in four bytes of its own.
pub const EXTENDED_TIMESTAMP: u32 = 0xFF_FFFF;

/// The largest number of bytes that a chunk header takes.
pub const CHUNK_HEADER_LEN_MAX: usize = 18;

/// The fields that one chunk header carries. A field that the format leaves
/// out is 0.
#[derive(Clone, Copy, Debug, PartialEq, Eq, Structural)]
pub struct ChunkHeader {
    /// 0 to 3.
    pub format: u8,
    pub chunk_stream_id: u32,
    /// The message's timestamp in format 0, its distance from the timestamp
    /// of the message before in formats 1 and 2.
    pub timestamp: u32,
    pub msg_length: u32,
    pub msg_type_id: u8,
    pub msg_stream_id: u32,
}

/// Whether a header is one that the wire can carry, written in the one way
/// in which a header is read back: the fields that its format leaves out
/// are 0.
pub open spec fn canonical(h: ChunkHeader) -> bool {
    &&& h.format <= 3
    &&& valid_csid(h.chunk_stream_id)
    &&& h.msg_length <= MSG_LENGTH_MAX
    &&& (h.format >= 1 ==> h.msg_stream_id == 0)
    &&& (h.format >= 2 ==> h.msg_length == 0 && h.msg_type_id == 0)
    &&& (h.format >= 3 ==> h.timestamp == 0)
}

/// The value of four bytes, least significant first.
pub open spec fn le32(s: Seq<u8>) -> int
    recommends
        s.len() == 4,
{
    s[0] + s[1] * 0x100 + s[2] * 0x1_0000 + s[3] * 0x100_0000
}

/// The low 24 bits of `x` in three bytes, most significant first.
pub open spec fn u24_bytes(x: u32) -> Seq<u8> {
    seq![(x / 0x1_0000 % 0x100) as u8, (x / 0x100 % 0x100) as u8, (x % 0x100) as u8]
}

/// `x` in four bytes, most significant first.
pub open spec fn u32_bytes(x: u32) -> Seq<u8> {
    seq![
        (x / 0x100_0000) as u8,
        (x / 0x1_0000 % 0x100) as u8,
        (x / 0x100 % 0x100) as u8,
        (x % 0x100) as u8,
    ]
}

/// `x` in four bytes, least significant first.
pub open spec fn u32_bytes_le(x: u32) -> Seq<u8> {
    seq![
        (x % 0x100) as u8,
        (x / 0x100 % 0x100) as u8,
        (x / 0x1_0000 % 0x100) as u8,
        (x / 0x100_0000) as u8,
    ]
}

/// The bytes that give format and chunk stream id: one byte for ids below
/// 64, two for ids below 320, three for the others.
pub open spec fn basic_header_bytes(format: u8, csid: u32) -> Seq<u8>
    recommends
        format <= 3,
        valid_csid(csid),
{
    if csid < 64 {
        seq![(format * 64 + csid) as u8]
    } else if csid < 320 {
        seq![(format * 64) as u8, (csid - 64) as u8]
    } else {
        seq![(format * 64 + 1) as u8, ((csid - 64) % 0x100) as u8, ((csid - 64) / 0x100) as u8]
    }
}

/// The three timestamp bytes: the timestamp where it fits below the mark,
/// the mark where it does not.
pub open spec fn timestamp_field_bytes(timestamp: u32) -> Seq<u8> {
    if timestamp >= EXTENDED_TIMESTAMP {
        u24_bytes(EXTENDED_TIMESTAMP)
    } else {
        u24_bytes(timestamp)
    }
}

/// The four bytes of a timestamp that the three bytes could not hold, and
/// nothing for one that they could.
pub open spec fn extended_timestamp_bytes(timestamp: u32) -> Seq<u8> {
    if timestamp >= EXTENDED_TIMESTAMP {
        u32_bytes(timestamp)
    } else {
        Seq::<u8>::empty()
    }
}

/// The message header fields that a chunk header's format carries.
pub open spec fn message_header_bytes(h: ChunkHeader) -> Seq<u8> {
    if h.format == 0 {
        timestamp_field_bytes(h.timestamp) + u24_bytes(h.msg_length) + seq![h.msg_type_id]
            + u32_bytes_le(h.msg_stream_id) + extended_timestamp_bytes(h.timestamp)
    } else if h.format == 1 {
        timestamp_field_bytes(h.timestamp) + u24_bytes(h.msg_length) + seq![h.msg_type_id]
            + extended_timestamp_bytes(h.timestamp)
    } else if h.format == 2 {
        timestamp_field_bytes(h.timestamp) + extended_timestamp_bytes(h.timestamp)
    } else {
        Seq::<u8>::empty()
    }
}

/// A chunk header on the wire.
pub open spec fn chunk_header_bytes(h: ChunkHeader) -> Seq<u8> {
    basic_header_bytes(h.format, h.chunk_stream_id) + message_header_bytes(h)
}

/// The number of bytes that give format and chunk stream id, told from the
/// first of them.
pub open spec fn basic_header_len(first: u8) -> nat {
    if first % 64 == 0 {
        2
    } else if first % 64 == 1 {
        3
    } else {
        1
    }
}

/// The number of bytes of message header fields that a format carries, the
/// four bytes of a long timestamp not counted.
pub open spec fn message_header_len(format: u8) -> nat {
    if format == 0 {
        11
    } else if format == 1 {
        7
    } else if format == 2 {
        3
    } else {
        0
    }
}

/// The length of the chunk header that `input` starts with, or `None` where
/// `input` ends before the header does.
pub open spec fn chunk_header_len(input: Seq<u8>) -> Option<nat> {
    if input.len() < 1 {
        None
    } else {
        let format = input[0] / 64;
        let basic = basic_header_len(input[0]) as int;
        let fixed = basic + message_header_len(format);
        if input.len() < fixed {
            None
        } else {
            let total = if format < 3 && be24(input.subrange(basic, basic + 3))
                == EXTENDED_TIMESTAMP {
                fixed + 4
            } else {
                fixed
            };
            if input.len() < total {
                None
            } else {
                Some(total as nat)
            }
        }
    }
}

/// The chunk header that `input` starts with.
pub open spec fn chunk_header(input: Seq<u8>) -> ChunkHeader
    recommends
        chunk_header_len(input) is Some,
{
    let format = input[0] / 64;
    let basic = basic_header_len(input[0]) as int;
    let fixed = basic + message_header_len(format);
    let field = be24(input.subrange(basic, basic + 3));
    ChunkHeader {
        format,
        chunk_stream_id: if input[0] % 64 == 0 {
            (64 + input[1]) as u32
        } else if input[0] % 64 == 1 {
            (64 + input[1] + input[2] * 0x100) as u32
        } else {
            (input[0] % 64) as u32
        },
        timestamp: if format == 3 {
            0
        } else if field == EXTENDED_TIMESTAMP {
            be32(input.subrange(fixed, fixed + 4)) as u32
        } else {
            field as u32
        },
        msg_length: if format <= 1 {
            be24(input.subrange(basic + 3, basic + 6)) as u32
        } else {
            0
        },
        msg_type_id: if format <= 1 {
            input[basic + 6]
        } else {
            0
        },
        msg_stream_id: if format == 0 {
            le32(input.subrange(basic + 7, basic + 11)) as u32
        } else {
            0
        },
    }
}

/// A header that is read from the wire is canonical.
pub proof fn lemma_chunk_header_canonical(input: Seq<u8>)
    requires
        chunk_header_len(input) is Some,
    ensures
        canonical(chunk_header(input)),
        1 <= chunk_header_len(input)->Some_0 <= CHUNK_HEADER_LEN_MAX,
        chunk_header_len(input)->Some_0 <= input.len(),
{
}

/// What a header is read as depends on the bytes of the header alone: a
/// prefix of the input that holds the first `CHUNK_HEADER_LEN_MAX` bytes,
/// or all of a shorter input, is read as the input is.
pub proof fn lemma_chunk_header_of_prefix(input: Seq<u8>, n: int)
    requires
        0 <= n <= input.len(),
        n == input.len() || n >= CHUNK_HEADER_LEN_MAX,
    ensures
        chunk_header_len(input.subrange(0, n)) == chunk_header_len(input),
        chunk_header_len(input) is Some ==> chunk_header(input.subrange(0, n)) == chunk_header(
            input,
        ),
{
    if n == input.len() {
        assert(input.subrange(0, n) =~= input);
    }
}

/// Appends the low 24 bits of `x`, most significant byte first.
fn write_u24(out: &mut Vec<u8>, x: u32)
    requires
        x <= 0xFF_FFFF,
    ensures
        final(out)@ == old(out)@ + u24_bytes(x),
{
    out.push((x / 0x1_0000 % 0x100) as u8);
    out.push((x / 0x100 % 0x100) as u8);
    out.push((x % 0x100) as u8);
}

/// Appends `x`, most significant byte first.
fn write_u32(out: &mut Vec<u8>, x: u32)
    ensures
        final(out)@ == old(out)@ + u32_bytes(x),
{
    out.push((x / 0x100_0000) as u8);
    out.push((x / 0x1_0000 % 0x100) as u8);
    out.push((x / 0x100 % 0x100) as u8);
    out.push((x % 0x100) as u8);
}

/// Appends `x`, least significant byte first.
fn write_u32_le(out: &mut Vec<u8>, x: u32)
    ensures
        final(out)@ == old(out)@ + u32_bytes_le(x),
{
    out.push((x % 0x100) as u8);
    out.push((x / 0x100 % 0x100) as u8);
    out.push((x / 0x1_0000 % 0x100) as u8);
    out.push((x / 0x100_0000) as u8);
}

/// Appends the bytes that give format and chunk stream id.
pub(crate) fn write_basic_header(out: &mut Vec<u8>, format: u8, csid: u32)
    requires
        format <= 3,
        valid_csid(csid),
    ensures
        final(out)@ == old(out)@ + basic_header_bytes(format, csid),
{
    if csid < 64 {
        out.push(format * 64 + csid as u8);
    } else if csid < 320 {
        out.push(format * 64);
        out.push((csid - 64) as u8);
    } else {
        out.push(format * 64 + 1);
        out.push(((csid - 64) % 0x100) as u8);
        out.push(((csid - 64) / 0x100) as u8);
    }
}

/// Appends the three timestamp bytes.
fn write_timestamp_field(out: &mut Vec<u8>, timestamp: u32)
    ensures
        final(out)@ == old(out)@ + timestamp_field_bytes(timestamp),
{
    if timestamp >= EXTENDED_TIMESTAMP {
        write_u24(out, EXTENDED_TIMESTAMP);
    } else {
        write_u24(out, timestamp);
    }
}

/// Appends the four bytes of a timestamp that the three bytes could not
/// hold.
fn write_extended_timestamp(out: &mut Vec<u8>, timestamp: u32)
    ensures
        final(out)@ == old(out)@ + extended_timestamp_bytes(timestamp),
{
    if timestamp >= EXTENDED_TIMESTAMP {
        write_u32(out, timestamp);
    }
}

/// Appends a chunk header as it stands on the wire.
pub(crate) fn write_chunk_header(out: &mut Vec<u8>, h: &ChunkHeader)
    requires
        canonical(*h),
    ensures
        final(out)@ == old(out)@ + chunk_header_bytes(*h),
{
    write_basic_header(out, h.format, h.chunk_stream_id);
    let ghost after_basic = out@;
    if h.format <= 2 {
        write_timestamp_field(out, h.timestamp);
        if h.format <= 1 {
            write_u24(out, h.msg_length);
            out.push(h.msg_type_id);
            if h.format == 0 {
                write_u32_le(out, h.msg_stream_id);
            }
        }
        write_extended_timestamp(out, h.timestamp);
    }
}

/// Reads the chunk header that the reader's bytes start with, and consumes
/// it. Where the bytes end before the header does, there is no header to
/// return, and some of the bytes may have been consumed.
pub(crate) fn read_chunk_header(reader: &mut Reader) -> (r: Option<ChunkHeader>)
    ensures
        match chunk_header_len(old(reader)@) {
            Some(n) => r == Some(chunk_header(old(reader)@)) && final(reader)@ == old(reader)@.skip(
                n as int,
            ),
            None => r is None,
        },
{
    let ghost input = reader@;
    let first = match reader.read_u8() {
        Ok(b) => b,
        Err(_) => {
            return None;
        },
    };
    let format = first / 64;
    let low = first % 64;
    let chunk_stream_id: u32 = if low == 0 {
        match reader.read_u8() {
            Ok(b) => 64 + b as u32,
            Err(_) => {
                return None;
            },
        }
    } else if low == 1 {
        let second = match reader.read_u8() {
            Ok(b) => b,
            Err(_) => {
                return None;
            },
        };
        match reader.read_u8() {
            Ok(b) => 64 + second as u32 + b as u32 * 0x100,
            Err(_) => {
                return None;
            },
        }
    } else {
        low as u32
    };
    let ghost basic = basic_header_len(first) as int;
    let ghost fixed = basic + message_header_len(format);
    let mut h = ChunkHeader {
        format,
        chunk_stream_id,
        timestamp: 0,
        msg_length: 0,
        msg_type_id: 0,
        msg_stream_id: 0,
    };
    if format <= 2 {
        let field = match reader.read_u24() {
            Ok(v) => v,
            Err(_) => {
                return None;
            },
        };
        if format <= 1 {
            h.msg_length =
            match reader.read_u24() {
                Ok(v) => v,
                Err(_) => {
                    return None;
                },
            };
            assert(input.skip(basic + 3).subrange(0, 3) =~= input.subrange(basic + 3, basic + 6));
            h.msg_type_id =
            match reader.read_u8() {
                Ok(v) => v,
                Err(_) => {
                    return None;
                },
            };
            if format == 0 {
                let b0 = match reader.read_u8() {
                    Ok(v) => v,
                    Err(_) => {
                        return None;
                    },
                };
                let b1 = match reader.read_u8() {
                    Ok(v) => v,
                    Err(_) => {
                        return None;
                    },
                };
                let b2 = match reader.read_u8() {
                    Ok(v) => v,
                    Err(_) => {
                        return None;
                    },
                };
                let b3 = match reader.read_u8() {
                    Ok(v) => v,
                    Err(_) => {
                        return None;
                    },
                };
                h.msg_stream_id = b0 as u32 + b1 as u32 * 0x100 + b2 as u32 * 0x1_0000 + b3 as u32
                    * 0x100_0000;
            }
        }
        assert(reader@ == input.skip(fixed));
        if field == EXTENDED_TIMESTAMP {
            h.timestamp =
            match reader.read_u32() {
                Ok(v) => v,
                Err(_) => {
                    return None;
                },
            };
        } else {
            h.timestamp = field;
        }
    }
    Some(h)
}

/// Three bytes that were written from a 24-bit value are read back as it.
proof fn lemma_u24_round_trip(x: u32)
    requires
        x <= 0xFF_FFFF,
    ensures
        be24(u24_bytes(x)) == x,
        u24_bytes(x).len() == 3,
{
}

/// Four bytes that were written from a value, most significant first, are
/// read back as it.
proof fn lemma_u32_round_trip(x: u32)
    ensures
        be32(u32_bytes(x)) == x,
        u32_bytes(x).len() == 4,
{
}

/// Four bytes that were written from a value, least significant first, are
/// read back as it.
proof fn lemma_u32_le_round_trip(x: u32)
    ensures
        le32(u32_bytes_le(x)) == x,
        u32_bytes_le(x).len() == 4,
{
}

/// The bytes that give format and chunk stream id are read back as both.
proof fn lemma_basic_header_round_trip(format: u8, csid: u32, input: Seq<u8>)
    requires
        format <= 3,
        valid_csid(csid),
        basic_header_bytes(format, csid).is_prefix_of(input),
    ensures
        input.len() >= 1,
        input[0] / 64 == format,
        basic_header_len(input[0]) == basic_header_bytes(format, csid).len(),
        chunk_header(input).chunk_stream_id == csid,
        chunk_header(input).format == format,
{
    let bh = basic_header_bytes(format, csid);
    assert(input[0] == bh[0]);
    if bh.len() >= 2 {
        assert(input[1] == bh[1]);
    }
    if bh.len() >= 3 {
        assert(input[2] == bh[2]);
    }
}

/// The message header fields that were written after the first
/// `basic` bytes of `input` are read back as they were.
proof fn lemma_message_header_round_trip(h: ChunkHeader, input: Seq<u8>, basic: int)
    requires
        canonical(h),
        input.len() >= 1,
        basic == basic_header_len(input[0]),
        input[0] / 64 == h.format,
        basic + message_header_bytes(h).len() <= input.len(),
        input.subrange(basic, basic + message_header_bytes(h).len()) == message_header_bytes(h),
    ensures
        chunk_header_len(input) == Some((basic + message_header_bytes(h).len()) as nat),
        chunk_header(input).timestamp == h.timestamp,
        chunk_header(input).msg_length == h.msg_length,
        chunk_header(input).msg_type_id == h.msg_type_id,
        chunk_header(input).msg_stream_id == h.msg_stream_id,
{
    let mh = message_header_bytes(h);
    let fixed = basic + message_header_len(h.format);
    if h.format <= 2 {
        let field: u32 = if h.timestamp >= EXTENDED_TIMESTAMP {
            EXTENDED_TIMESTAMP
        } else {
            h.timestamp
        };
        lemma_u24_round_trip(field);
        if h.format <= 1 {
            let lb = u24_bytes(h.msg_length);
            lemma_u24_round_trip(h.msg_length);
            assert(input.subrange(basic + 3, basic + 6) =~= lb) by {
                assert(input[basic + 3] == mh[3]);
                assert(input[basic + 4] == mh[4]);
                assert(input[basic + 5] == mh[5]);
            }
            assert(mh[6] == h.msg_type_id);
            if h.format == 0 {
                let sb = u32_bytes_le(h.msg_stream_id);
                lemma_u32_le_round_trip(h.msg_stream_id);
                assert(input.subrange(basic + 7, basic + 11) =~= sb) by {
                    assert(input[basic + 7] == mh[7]);
                    assert(input[basic + 8] == mh[8]);
                    assert(input[basic + 9] == mh[9]);
                    assert(input[basic + 10] == mh[10]);
                }
            }
        }
        if h.timestamp >= EXTENDED_TIMESTAMP {
            let eb = u32_bytes(h.timestamp);
            lemma_u32_round_trip(h.timestamp);
            let k = fixed - basic;
            assert(input.subrange(fixed, fixed + 4) =~= eb) by {
                assert(input[basic + (k + 0)] == mh[k + 0]);
                assert(input[basic + (k + 1)] == mh[k + 1]);
                assert(input[basic + (k + 2)] == mh[k + 2]);
                assert(input[basic + (k + 3)] == mh[k + 3]);
            }
        }
    }
}

/// A canonical header that was written is read back as it was, whatever
/// follows it.
pub proof fn lemma_chunk_header_round_trip(h: ChunkHeader, rest: Seq<u8>)
    requires
        canonical(h),
    ensures
        chunk_header_len(chunk_header_bytes(h) + rest) == Some(chunk_header_bytes(h).len()),
        chunk_header(chunk_header_bytes(h) + rest) == h,
{
    let bh = basic_header_bytes(h.format, h.chunk_stream_id);
    let mh = message_header_bytes(h);
    let input = chunk_header_bytes(h) + rest;
    lemma_basic_header_round_trip(h.format, h.chunk_stream_id, input);
    assert(input.subrange(bh.len() as int, (bh.len() + mh.len()) as int) =~= mh);
    lemma_message_header_round_trip(h, input, bh.len() as int);
}

} // verus!
