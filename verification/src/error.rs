//! The failures that the library reports.

use vstd::prelude::*;

verus! {

/// Why an operation did not succeed.
#[derive(Clone, Copy, Debug, PartialEq, Eq, Structural)]
pub enum ClientError {
    /// No candidate endpoint could be opened and greeted.
    DiscordNotFound,
    /// A command was requested while the client is not connected.
    NotConnected,
    /// A frame body is too long for its length to fit the 32-bit length field.
    BodyTooLong,
    /// Fewer bytes than a frame header were received.
    Truncated,
    /// The header declares more body bytes than were received.
    LengthMismatch,
    /// The body is not UTF-8.
    InvalidUtf8,
    /// The body is not a JSON document.
    InvalidJson,
}

} // verus!
