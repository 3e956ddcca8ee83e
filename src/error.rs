//! The library's error type.

use vstd::prelude::*;

verus! {

/// Everything that can go wrong while building, reading or sending a message.
#[derive(Debug, Clone, Copy, PartialEq, Eq, Structural)]
pub enum NlError {
    /// Fewer than four bytes remain where an attribute header should start.
    TruncatedHeader,
    /// The declared payload length runs past the end of the bytes.
    PayloadTooShort,
    /// A typed read asked for a width other than the payload's length.
    WidthMismatch,
    /// A received buffer is shorter than the fixed message header.
    HeaderTooShort,
    /// A flag set to `false` was handed to `put`; such an attribute is left out instead.
    FalseFlag,
    /// An attribute payload does not fit the 16-bit length field.
    PayloadTooLong,
    /// The message would no longer fit the 32-bit length field.
    MessageTooLong,
    /// A text payload is not NUL-terminated UTF-8.
    InvalidString,
    /// The socket was closed.
    HandleClosed,
    /// The socket has not been connected yet.
    NotConnected,
    /// The socket is connected already.
    AlreadyConnected,
    /// The operating system refused a buffer-size change.
    ConfigurationRejected(i32),
    /// The operating system refused to connect; carries its error code.
    ConnectFailed(i32),
    /// The operating system refused to send; carries its error code.
    SendFailed(i32),
}

} // verus!
