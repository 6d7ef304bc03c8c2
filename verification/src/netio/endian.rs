//! Big-endian values of short byte sequences.

use vstd::prelude::*;

verus! {

/// The value of two bytes, most significant first.
pub open spec fn be16(s: Seq<u8>) -> int
    recommends
        s.len() == 2,
{
    s[0] * 0x100 + s[1]
}

/// The value of three bytes, most significant first.
pub open spec fn be24(s: Seq<u8>) -> int
    recommends
        s.len() == 3,
{
    s[0] * 0x1_0000 + s[1] * 0x100 + s[2]
}

/// The value of four bytes, most significant first.
pub open spec fn be32(s: Seq<u8>) -> int
    recommends
        s.len() == 4,
{
    s[0] * 0x100_0000 + s[1] * 0x1_0000 + s[2] * 0x100 + s[3]
}

/// The value of eight bytes, most significant first.
pub open spec fn be64(s: Seq<u8>) -> int
    recommends
        s.len() == 8,
{
    be32(s.subrange(0, 4)) * 0x1_0000_0000 + be32(s.subrange(4, 8))
}

} // verus!
