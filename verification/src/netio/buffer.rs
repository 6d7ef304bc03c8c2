//! What this crate assumes of `bytes::BytesMut`, of `std::io::Cursor` over
//! one, and of the `byteorder` readers. Nothing in this file is proved: each
//! contract restates the documented behaviour of the function it names.

use super::endian::{be16, be24, be32, be64};
use byteorder::{BigEndian, ReadBytesExt};
use bytes::BytesMut;
use std::io::Cursor;
use vstd::prelude::*;

verus! {

/// `bytes::BytesMut`, a growable buffer of bytes. Its contents are known
/// through `buffered` alone.
#[verifier::external_type_specification]
#[verifier::external_body]
pub struct ExBytesMut(BytesMut);

/// `std::io::Cursor`, a buffer with a reading position. What a cursor over
/// a `BytesMut` has still to give is known through `unread` alone.
#[verifier::external_type_specification]
#[verifier::external_body]
#[verifier::reject_recursive_types(T)]
pub struct ExCursor<T>(Cursor<T>);

/// `std::io::Error`, carried through as it comes.
#[verifier::external_type_specification]
#[verifier::external_body]
pub struct ExIoError(std::io::Error);

/// The bytes that a `BytesMut` holds, first to last.
pub uninterp spec fn buffered(b: BytesMut) -> Seq<u8>;

/// The bytes of a cursor's buffer from its position to the end: what is
/// still to be read.
pub uninterp spec fn unread(c: Cursor<BytesMut>) -> Seq<u8>;

/// `BytesMut::new` makes an empty buffer.
pub assume_specification[ BytesMut::new ]() -> (b: BytesMut)
    ensures
        buffered(b) == Seq::<u8>::empty(),
;

/// `BytesMut::len` is the number of bytes held.
pub assume_specification[ BytesMut::len ](b: &BytesMut) -> (n: usize)
    ensures
        n == buffered(*b).len(),
;

/// `BytesMut::split_to` hands out the bytes `[0, at)` and keeps `[at, len)`.
/// It panics when `at` is beyond the length, which `requires` rules out.
pub assume_specification[ BytesMut::split_to ](b: &mut BytesMut, at: usize) -> (head: BytesMut)
    requires
        at <= buffered(*old(b)).len(),
    ensures
        buffered(head) == buffered(*old(b)).subrange(0, at as int),
        buffered(*final(b)) == buffered(*old(b)).skip(at as int),
;

/// `BytesMut::extend_from_slice` appends the slice at the back. It panics
/// when the new length overflows `usize`, which `requires` rules out.
pub assume_specification[ BytesMut::extend_from_slice ](b: &mut BytesMut, extend: &[u8])
    requires
        buffered(*old(b)).len() + extend@.len() <= usize::MAX,
    ensures
        buffered(*final(b)) == buffered(*old(b)) + extend@,
;

/// Cloning a `BytesMut` copies its bytes into a buffer of its own.
pub assume_specification[ <BytesMut as Clone>::clone ](b: &BytesMut) -> (copy: BytesMut)
    ensures
        buffered(copy) == buffered(*b),
;

/// A `BytesMut` seen as a slice shows the bytes it holds.
pub assume_specification[ <BytesMut as AsRef<[u8]>>::as_ref ](b: &BytesMut) -> (s: &[u8])
    ensures
        s@ == buffered(*b),
;

/// `Cursor::new` starts at position 0: the whole buffer is still to be read.
#[verifier::external_body]
pub(crate) fn cursor_over(bytes: BytesMut) -> (cursor: Cursor<BytesMut>)
    ensures
        unread(cursor) == buffered(bytes),
{
    Cursor::new(bytes)
}

/// `ReadBytesExt::read_u8` on a cursor: the next byte, and the cursor moves
/// past it; an error when nothing is left.
#[verifier::external_body]
pub(crate) fn cursor_read_u8(cursor: &mut Cursor<BytesMut>) -> (r: Result<u8, std::io::Error>)
    ensures
        unread(*old(cursor)).len() >= 1 ==> r is Ok && r->Ok_0 == unread(*old(cursor))[0]
            && unread(*final(cursor)) == unread(*old(cursor)).skip(1),
        unread(*old(cursor)).len() < 1 ==> r is Err,
{
    cursor.read_u8()
}

/// `ReadBytesExt::read_u16::<BigEndian>` on a cursor: the next two bytes as a
/// big-endian value, and the cursor moves past them; an error when fewer
/// than two are left.
#[verifier::external_body]
pub(crate) fn cursor_read_u16(cursor: &mut Cursor<BytesMut>) -> (r: Result<u16, std::io::Error>)
    ensures
        unread(*old(cursor)).len() >= 2 ==> r is Ok && r->Ok_0 == be16(
            unread(*old(cursor)).subrange(0, 2),
        ) && unread(*final(cursor)) == unread(*old(cursor)).skip(2),
        unread(*old(cursor)).len() < 2 ==> r is Err,
{
    cursor.read_u16::<BigEndian>()
}

/// `ReadBytesExt::read_u24::<BigEndian>` on a cursor: the next three bytes as
/// a big-endian value in the low 24 bits of the result, and the cursor moves
/// past them; an error when fewer than three are left.
#[verifier::external_body]
pub(crate) fn cursor_read_u24(cursor: &mut Cursor<BytesMut>) -> (r: Result<u32, std::io::Error>)
    ensures
        unread(*old(cursor)).len() >= 3 ==> r is Ok && r->Ok_0 == be24(
            unread(*old(cursor)).subrange(0, 3),
        ) && unread(*final(cursor)) == unread(*old(cursor)).skip(3),
        unread(*old(cursor)).len() < 3 ==> r is Err,
{
    cursor.read_u24::<BigEndian>()
}

/// `ReadBytesExt::read_u32::<BigEndian>` on a cursor: the next four bytes as
/// a big-endian value, and the cursor moves past them; an error when fewer
/// than four are left.
#[verifier::external_body]
pub(crate) fn cursor_read_u32(cursor: &mut Cursor<BytesMut>) -> (r: Result<u32, std::io::Error>)
    ensures
        unread(*old(cursor)).len() >= 4 ==> r is Ok && r->Ok_0 == be32(
            unread(*old(cursor)).subrange(0, 4),
        ) && unread(*final(cursor)) == unread(*old(cursor)).skip(4),
        unread(*old(cursor)).len() < 4 ==> r is Err,
{
    cursor.read_u32::<BigEndian>()
}

/// `ReadBytesExt::read_u64::<BigEndian>` on a cursor: the next eight bytes as
/// a big-endian value, and the cursor moves past them; an error when fewer
/// than eight are left.
#[verifier::external_body]
pub(crate) fn cursor_read_u64(cursor: &mut Cursor<BytesMut>) -> (r: Result<u64, std::io::Error>)
    ensures
        unread(*old(cursor)).len() >= 8 ==> r is Ok && r->Ok_0 == be64(
            unread(*old(cursor)).subrange(0, 8),
        ) && unread(*final(cursor)) == unread(*old(cursor)).skip(8),
        unread(*old(cursor)).len() < 8 ==> r is Err,
{
    cursor.read_u64::<BigEndian>()
}

} // verus!
