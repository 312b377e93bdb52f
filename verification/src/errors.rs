//! Why an inbound datagram or one of its fields is rejected.
use vstd::prelude::*;

verus! {

/// A recoverable failure to decode input. The datagram that causes one is
/// dropped; nothing else is affected.
#[derive(Debug, Clone, Copy, PartialEq, Eq, Structural)]
pub enum DecodeError {
    /// The input ends before the field does.
    Truncated,
    /// The datagram is longer than the receive region.
    Oversized,
    /// The length of an identity is negative, or the length of a string does
    /// not fit 64 bits.
    BadLength,
    /// The bytes of a string are not UTF-8.
    BadUtf8,
    /// The message-class code is one of the transport features that are switched off.
    DisabledHeader,
    /// The message-class code is reserved or out of range.
    InvalidHeader,
    /// The game-frame code is not one of the three known frames.
    UnknownGameHeader,
    /// The controller byte names no controller.
    UnknownCtrlType,
    /// An identity is not 36 characters of hexadecimal groups joined by hyphens.
    BadGuid,
    /// A client sent the frame that only the server may send.
    UnexpectedInit,
    /// The body of a match-state frame is not a game-state message.
    BadMessage,
}

} // verus!
