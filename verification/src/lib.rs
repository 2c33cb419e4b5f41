//! Session layer for real-time, bidirectional audio streaming over an
//! already-established, reliable, ordered point-to-point byte stream.
//!
//! The crate covers the protocol and buffering logic of such a session:
//! length-prefixed message framing, per-frame sequencing, jitter buffering,
//! the capture fan-out and playback queues, and address tickets. Transport
//! setup, device access and speech compression are external collaborators;
//! the session logic exchanges plain bytes and integer samples with them.

pub mod capture;
pub mod endian;
pub mod errors;
pub mod frame;
pub mod framing;
pub mod jitter;
pub mod peer;
pub mod pipeline;
pub mod playback;
pub mod processor;
pub mod ticket;
