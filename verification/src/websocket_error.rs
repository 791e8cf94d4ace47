//! Error taxonomy of the core: what can go wrong while decoding a frame
//! and while performing the upgrade handshake, and the status codes a
//! close frame can carry.

use vstd::prelude::*;

verus! {

/// Failure of decoding one incoming frame.
#[derive(Debug, Clone, Copy, PartialEq, Eq, Structural)]
pub enum DecodePayloadErrors {
    /// The buffer holds fewer bytes than the frame header announces.
    IoError,
    /// The frame header itself is malformed.
    ParseError,
}

/// Failure of the HTTP upgrade handshake.
#[derive(Debug, Clone, Copy, PartialEq, Eq, Structural)]
pub enum HandshakeErrors {
    /// The request line is not exactly `GET / HTTP/1.1`.
    InvalidMethodError,
    /// The request is not valid UTF-8, or a header line has no colon.
    ParseError,
    /// The upgrade headers are missing or carry the wrong version.
    InvalidHeaders,
    /// Reading the request or writing the response failed.
    IoError,
}

/// Status code sent as the payload of a close frame.
#[derive(Debug, Clone, Copy, PartialEq, Eq, Structural)]
pub enum CloseReason {
    /// The peer violated the protocol (code 1002).
    ProtocolError,
    /// The server side is going away (code 1001).
    ServerDown,
}

impl CloseReason {
    /// The 16-bit status code of this reason.
    pub open spec fn spec_code(self) -> u16 {
        match self {
            CloseReason::ProtocolError => 1002,
            CloseReason::ServerDown => 1001,
        }
    }

    /// The 16-bit status code of this reason.
    pub fn code(&self) -> (c: u16)
        ensures
            c == self.spec_code(),
    {
        match self {
            CloseReason::ProtocolError => 1002,
            CloseReason::ServerDown => 1001,
        }
    }
}

} // verus!
