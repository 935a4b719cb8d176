//! The Real-time Transport Protocol: packets, codecs, the jitter buffer and
//! the state of a session.
pub mod packet;
pub mod jitter;
pub mod laws;
pub mod operation_laws;
pub mod codec;
pub mod wav;
pub mod audio_device;
pub mod playout;
pub mod session;
