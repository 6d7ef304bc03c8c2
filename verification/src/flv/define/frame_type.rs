//! Codes of the `frame_type` field of a video tag.

use vstd::prelude::*;

verus! {

/// A key frame: for AVC, a frame that can be sought to.
pub const KEY_FRAME: u8 = 1;

/// An inter frame: for AVC, a frame that cannot be sought to.
pub const INTER_FRAME: u8 = 2;

} // verus!
