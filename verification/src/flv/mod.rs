//! FLV container: the headers of audio and video tags.

pub mod define;
pub mod tag_parser;
