//! Core of an RTMP media stack: a buffered byte reader, the decoder of FLV
//! audio and video tag headers, and the chunk layer that carries RTMP messages.

pub mod flv;
pub mod netio;
pub mod rtmp;
