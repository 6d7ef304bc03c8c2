//! Codes of the FLV tag header fields.

use vstd::prelude::*;

pub mod frame_type;
pub mod sound_format;

verus! {

/// Which kind of payload a tag header describes.
#[derive(Clone, Copy, Debug, PartialEq, Eq, Structural)]
pub enum TagType {
    AUDIO,
    VIDEO,
}

} // verus!
