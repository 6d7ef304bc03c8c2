//! RTMP: messages, the chunk layer that carries them, and the errors of a
//! session.

pub mod chunk;
pub mod errors;
pub mod layers;
pub mod messages;
