//! Wire constants of the WebSocket framing layer: bit masks over the two
//! leading header bytes, the opcode values, and the magic GUID of the
//! upgrade handshake.

use vstd::prelude::*;

verus! {

/// Mask of the FIN bit, the top bit of the first header byte. The same
/// bit position masks the MASK bit in the second header byte.
pub const FIN_BITS: u8 = 0x80;

/// Mask of the 4-bit opcode in the first header byte.
pub const OPCODE_BITS: u8 = 0x0f;

/// Opcode of a binary data frame.
pub const OPCODE_BINARY: u8 = 0x02;

/// Opcode of a text data frame.
pub const OPCODE_TEXT: u8 = 0x01;

/// Opcode of a continuation frame.
pub const OPCODE_CONTINUE: u8 = 0x00;

/// Opcode of a close control frame.
pub const OPCODE_CLOSE: u8 = 0x08;

/// Mask of the 7-bit payload-length indicator in the second header byte.
pub const PAYLOAD_LENGTH_BITS: u8 = 0x7f;

/// The RFC 6455 GUID appended to the client's key before hashing.
pub const MAGIC_STRING: &'static str = "258EAFA5-E914-47DA-95CA-C5AB0DC85B11";

} // verus!
