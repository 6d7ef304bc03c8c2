//! The chunk layer: messages are cut into chunks that share one connection,
//! each chunk stream compressing its headers against the last one it sent.

pub mod errors;
pub mod laws;
pub mod packetizer;
pub mod unpacketizer;
pub mod wire;
