//! Byte-level input: the buffer that holds what has arrived and was not yet
//! consumed, and the errors of reading from it.

pub mod buffer;
pub mod endian;
pub mod errors;
pub mod reader;
