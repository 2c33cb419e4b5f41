use vstd::prelude::*;

verus! {

/// The failure categories of the session layer.
///
/// `Transport`, `HandshakeFailed`, `Framing` and `Device` are fatal to the
/// connection or bridge they arise on; `MalformedFrame` and `Codec` concern a
/// single frame, which the pipeline skips; `InvalidTicket` rejects an address
/// token before any connection is attempted.
#[derive(Clone, Copy, Debug, PartialEq, Eq, Structural)]
pub enum SessionError {
    /// Connect, accept or stream I/O failed.
    Transport,
    /// The fixed handshake marker was missing or wrong.
    HandshakeFailed,
    /// A length-prefixed message was oversized or truncated.
    Framing,
    /// A frame record was truncated or its payload oversized.
    MalformedFrame,
    /// A single frame failed to encode or decode.
    Codec,
    /// The capture or playback backend failed.
    Device,
    /// An address ticket was malformed.
    InvalidTicket,
}

} // verus!
