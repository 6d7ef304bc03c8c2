//! The byte reader: a buffer of the bytes that were received and not yet
//! consumed, read from the front and filled at the back.

use super::buffer::{
    buffered, cursor_over, cursor_read_u16, cursor_read_u24, cursor_read_u32, cursor_read_u64,
    cursor_read_u8, unread,
};
use super::endian::{be16, be24, be32, be64};
use super::errors::{IOCause, IOReadError, IOReadErrorValue};
use bytes::BytesMut;
use std::io::Cursor;
use std::time::Duration;
use tokio::time::Elapsed;
use vstd::prelude::*;

verus! {

pub struct Reader {
    buffer: BytesMut,
}

impl View for Reader {
    type V = Seq<u8>;

    /// The bytes received and not yet consumed, in the order of arrival.
    closed spec fn view(&self) -> Seq<u8> {
        buffered(self.buffer)
    }
}

impl Reader {
    pub fn new(input: BytesMut) -> (reader: Self)
        ensures
            reader@ == buffered(input),
    {
        Self { buffer: input }
    }

    /// The number of bytes buffered.
    pub fn len(&self) -> (n: usize)
        ensures
            n == self@.len(),
    {
        self.buffer.len()
    }

    /// Appends newly received bytes at the back.
    pub fn extend_from_slice(&mut self, extend: &[u8])
        requires
            old(self)@.len() + extend@.len() <= usize::MAX,
        ensures
            final(self)@ == old(self)@ + extend@,
    {
        self.buffer.extend_from_slice(extend)
    }

    /// Removes the first `bytes_num` bytes and returns them. With fewer
    /// bytes buffered it fails and removes nothing.
    pub fn read_bytes(&mut self, bytes_num: usize) -> (r: Result<BytesMut, IOReadError>)
        ensures
            bytes_num <= old(self)@.len() ==> r is Ok && buffered(r->Ok_0) == old(self)@.subrange(
                0,
                bytes_num as int,
            ) && final(self)@ == old(self)@.skip(bytes_num as int),
            bytes_num > old(self)@.len() ==> r is Err && r->Err_0.value
                is NotEnoughBytes && final(self)@ == old(self)@,
    {
        if self.buffer.len() < bytes_num {
            return Err(IOReadError { value: IOReadErrorValue::NotEnoughBytes });
        }
        Ok(self.buffer.split_to(bytes_num))
    }

    /// Returns a copy of the first `bytes_num` bytes and leaves the buffer
    /// as it is. With fewer bytes buffered it fails.
    pub fn advance_bytes(&mut self, bytes_num: usize) -> (r: Result<BytesMut, IOReadError>)
        ensures
            final(self)@ == old(self)@,
            bytes_num <= old(self)@.len() ==> r is Ok && buffered(r->Ok_0) == old(self)@.subrange(
                0,
                bytes_num as int,
            ),
            bytes_num > old(self)@.len() ==> r is Err && r->Err_0.value is NotEnoughBytes,
    {
        if self.buffer.len() < bytes_num {
            return Err(IOReadError { value: IOReadErrorValue::NotEnoughBytes });
        }
        let mut copy = self.buffer.clone();
        Ok(copy.split_to(bytes_num))
    }

    /// `read_bytes`, with the bytes handed out under a cursor that stands at
    /// their start.
    pub fn read_bytes_cursor(&mut self, bytes_num: usize) -> (r: Result<
        Cursor<BytesMut>,
        IOReadError,
    >)
        ensures
            bytes_num <= old(self)@.len() ==> r is Ok && unread(r->Ok_0) == old(self)@.subrange(
                0,
                bytes_num as int,
            ) && final(self)@ == old(self)@.skip(bytes_num as int),
            bytes_num > old(self)@.len() ==> r is Err && r->Err_0.value
                is NotEnoughBytes && final(self)@ == old(self)@,
    {
        let tmp_bytes = self.read_bytes(bytes_num)?;
        let tmp_cursor = cursor_over(tmp_bytes);
        Ok(tmp_cursor)
    }

    /// `advance_bytes`, with the copy handed out under a cursor that stands
    /// at its start.
    pub fn advance_bytes_cursor(&mut self, bytes_num: usize) -> (r: Result<
        Cursor<BytesMut>,
        IOReadError,
    >)
        ensures
            final(self)@ == old(self)@,
            bytes_num <= old(self)@.len() ==> r is Ok && unread(r->Ok_0) == old(self)@.subrange(
                0,
                bytes_num as int,
            ),
            bytes_num > old(self)@.len() ==> r is Err && r->Err_0.value is NotEnoughBytes,
    {
        let tmp_bytes = self.advance_bytes(bytes_num)?;
        let tmp_cursor = cursor_over(tmp_bytes);
        Ok(tmp_cursor)
    }

    /// Consumes one byte and returns it.
    pub fn read_u8(&mut self) -> (r: Result<u8, IOReadError>)
        ensures
            old(self)@.len() >= 1 ==> r is Ok && r->Ok_0 == old(self)@[0] && final(self)@ == old(
                self,
            )@.skip(1),
            old(self)@.len() < 1 ==> r is Err && r->Err_0.value is NotEnoughBytes && final(self)@
                == old(self)@,
    {
        let mut cursor = self.read_bytes_cursor(1)?;
        match cursor_read_u8(&mut cursor) {
            Ok(val) => Ok(val),
            Err(error) => Err(IOReadError::from(error)),
        }
    }

    /// Returns the first byte and leaves it in the buffer.
    pub fn advance_u8(&mut self) -> (r: Result<u8, IOReadError>)
        ensures
            final(self)@ == old(self)@,
            old(self)@.len() >= 1 ==> r is Ok && r->Ok_0 == old(self)@[0],
            old(self)@.len() < 1 ==> r is Err && r->Err_0.value is NotEnoughBytes,
    {
        let mut cursor = self.advance_bytes_cursor(1)?;
        match cursor_read_u8(&mut cursor) {
            Ok(val) => Ok(val),
            Err(error) => Err(IOReadError::from(error)),
        }
    }

    /// Consumes two bytes and returns their big-endian value.
    pub fn read_u16(&mut self) -> (r: Result<u16, IOReadError>)
        ensures
            old(self)@.len() >= 2 ==> r is Ok && r->Ok_0 == be16(old(self)@.subrange(0, 2))
                && final(self)@ == old(self)@.skip(2),
            old(self)@.len() < 2 ==> r is Err && r->Err_0.value is NotEnoughBytes && final(self)@
                == old(self)@,
    {
        let mut cursor = self.read_bytes_cursor(2)?;
        match cursor_read_u16(&mut cursor) {
            Ok(val) => Ok(val),
            Err(error) => Err(IOReadError::from(error)),
        }
    }

    /// Consumes three bytes and returns their big-endian value, which fills
    /// the low 24 bits of the result.
    pub fn read_u24(&mut self) -> (r: Result<u32, IOReadError>)
        ensures
            old(self)@.len() >= 3 ==> r is Ok && r->Ok_0 == be24(old(self)@.subrange(0, 3))
                && final(self)@ == old(self)@.skip(3),
            old(self)@.len() < 3 ==> r is Err && r->Err_0.value is NotEnoughBytes && final(self)@
                == old(self)@,
    {
        let mut cursor = self.read_bytes_cursor(3)?;
        match cursor_read_u24(&mut cursor) {
            Ok(val) => Ok(val),
            Err(error) => Err(IOReadError::from(error)),
        }
    }

    /// Returns the big-endian value of the first three bytes and leaves them
    /// in the buffer.
    pub fn advance_u24(&mut self) -> (r: Result<u32, IOReadError>)
        ensures
            final(self)@ == old(self)@,
            old(self)@.len() >= 3 ==> r is Ok && r->Ok_0 == be24(old(self)@.subrange(0, 3)),
            old(self)@.len() < 3 ==> r is Err && r->Err_0.value is NotEnoughBytes,
    {
        let mut cursor = self.advance_bytes_cursor(3)?;
        match cursor_read_u24(&mut cursor) {
            Ok(val) => Ok(val),
            Err(error) => Err(IOReadError::from(error)),
        }
    }

    /// Consumes four bytes and returns their big-endian value.
    pub fn read_u32(&mut self) -> (r: Result<u32, IOReadError>)
        ensures
            old(self)@.len() >= 4 ==> r is Ok && r->Ok_0 == be32(old(self)@.subrange(0, 4))
                && final(self)@ == old(self)@.skip(4),
            old(self)@.len() < 4 ==> r is Err && r->Err_0.value is NotEnoughBytes && final(self)@
                == old(self)@,
    {
        let mut cursor = self.read_bytes_cursor(4)?;
        match cursor_read_u32(&mut cursor) {
            Ok(val) => Ok(val),
            Err(error) => Err(IOReadError::from(error)),
        }
    }

    /// Consumes eight bytes and returns their big-endian value: the bit
    /// pattern of the 64-bit float that the bytes encode.
    pub fn read_u64(&mut self) -> (r: Result<u64, IOReadError>)
        ensures
            old(self)@.len() >= 8 ==> r is Ok && r->Ok_0 == be64(old(self)@.subrange(0, 8))
                && final(self)@ == old(self)@.skip(8),
            old(self)@.len() < 8 ==> r is Err && r->Err_0.value is NotEnoughBytes && final(self)@
                == old(self)@,
    {
        let mut cursor = self.read_bytes_cursor(8)?;
        match cursor_read_u64(&mut cursor) {
            Ok(val) => Ok(val),
            Err(error) => Err(IOReadError::from(error)),
        }
    }
}

/// The receiving end of a connection: the byte reader that the transport
/// fills, and the time that one read of the transport may take.
///
/// The transport itself stays with the caller. The caller performs one read
/// of it, bounded by `timeout`, and hands what came of it to `try_next`.
pub struct NetworkReader {
    pub reader: Reader,
    pub timeout: Duration,
}

impl NetworkReader {
    pub fn new(ms: Duration) -> (network_reader: Self)
        ensures
            network_reader.reader@ == Seq::<u8>::empty(),
            network_reader.timeout == ms,
    {
        Self { reader: Reader::new(BytesMut::new()), timeout: ms }
    }

    /// Takes in the outcome of one read of the transport that was bounded by
    /// `timeout`: outermost whether the time ran out, inside it whether
    /// the transport failed, and inside that the bytes that arrived, or
    /// `None` when the stream has ended.
    ///
    /// Bytes that arrived are appended to `reader` and the call succeeds.
    /// Every other outcome fails and leaves `reader` as it was, so that what
    /// was buffered before stays available: a timeout fails with
    /// `TimeoutError`, the end of the stream and a transport error with
    /// `IO`.
    pub fn try_next(
        &mut self,
        polled: Result<Result<Option<BytesMut>, std::io::Error>, Elapsed>,
    ) -> (r: Result<(), IOReadError>)
        requires
            polled matches Ok(Ok(Some(data))) ==> old(self).reader@.len() + buffered(data).len()
                <= usize::MAX,
        ensures
            final(self).timeout == old(self).timeout,
            match polled {
                Ok(Ok(Some(data))) => r is Ok && final(self).reader@ == old(self).reader@
                    + buffered(data),
                Ok(Ok(None)) => r == Err::<(), IOReadError>(
                    IOReadError { value: IOReadErrorValue::IO(IOCause::EndOfStream) },
                ) && final(self).reader@ == old(self).reader@,
                Ok(Err(error)) => r == Err::<(), IOReadError>(
                    IOReadError { value: IOReadErrorValue::IO(IOCause::Transport(error)) },
                ) && final(self).reader@ == old(self).reader@,
                Err(elapsed) => r == Err::<(), IOReadError>(
                    IOReadError { value: IOReadErrorValue::TimeoutError(elapsed) },
                ) && final(self).reader@ == old(self).reader@,
            },
    {
        let val = match polled {
            Ok(val) => val,
            Err(elapsed) => {
                return Err(IOReadError::from(elapsed));
            },
        };
        match val {
            Ok(Some(data)) => {
                self.reader.extend_from_slice(data.as_ref());
                Ok(())
            },
            Ok(None) => Err(IOReadError { value: IOReadErrorValue::IO(IOCause::EndOfStream) }),
            Err(error) => Err(IOReadError::from(error)),
        }
    }
}

} // verus!
