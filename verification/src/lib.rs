//! A verified core for a small WebSocket server (an RFC 6455 subset):
//! the HTTP/1.1 upgrade handshake, and the binary framing layer that
//! encodes outgoing messages and decodes incoming frames, including
//! masking, the three payload-length encodings, and close signaling.
//!
//! All I/O (the TCP listener, stream reads and writes, the per-connection
//! task) lives outside this crate; the functions here take the bytes that
//! were read and return the bytes or decisions to act on.

pub mod frames;
pub mod http_parsers;
pub mod http_server;
pub mod websocket_error;
pub mod websocket_server;
