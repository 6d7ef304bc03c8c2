//! Codes of the `sound_format` field of an audio tag.

use vstd::prelude::*;

verus! {

/// AAC: the one format whose tags carry an AAC packet type.
pub const AAC: u8 = 10;

} // verus!
