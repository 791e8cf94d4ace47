//! Derivation of the `Sec-WebSocket-Accept` key: the client's key with
//! the magic GUID appended, hashed with SHA-1, and the digest encoded
//! as base64.

use vstd::prelude::*;
use vstd::string::StringSliceAdditionalSpecFns;

use crate::frames::MAGIC_STRING;
use crate::websocket_server::push_all;

verus! {

/// The SHA-1 digest of a byte sequence. The hash itself is computed
/// by an outside crate; this name stands for its result, a function
/// of the input bytes alone.
pub uninterp spec fn sha1_of(data: Seq<u8>) -> Seq<u8>;

/// Relies on `sha1_smol::Sha1` (`from`, `digest`, `Digest::bytes`):
/// the 20-byte SHA-1 digest of the input bytes, a function of the
/// input alone.
#[verifier::external_body]
fn sha1_digest(data: &[u8]) -> (r: Vec<u8>)
    ensures
        r@ == sha1_of(data@),
        r@.len() == 20,
{
    sha1_smol::Sha1::from(data).digest().bytes().to_vec()
}

/// The base64 encoding (standard alphabet, padded) of a byte
/// sequence. The encoding is done by an outside crate; this name
/// stands for its result, a function of the input bytes alone.
pub uninterp spec fn base64_of(data: Seq<u8>) -> Seq<char>;

/// Relies on `base64::encode`: base64 with the standard alphabet and
/// padding, a function of the input bytes alone; four output
/// characters for every three input bytes begun.
#[verifier::external_body]
fn base64_encode(data: &[u8]) -> (r: String)
    ensures
        r@ == base64_of(data@),
        r@.len() == ((data@.len() + 2) / 3) * 4,
{
    base64::encode(data)
}

/// The accept key derived from the bytes of the client's key: the
/// magic GUID is appended, the whole is hashed with SHA-1, and the
/// digest is base64-encoded.
pub open spec fn spec_accept_key(key_bytes: Seq<u8>) -> Seq<char> {
    base64_of(sha1_of(key_bytes + MAGIC_STRING.spec_bytes()))
}

/// Derives the `Sec-WebSocket-Accept` value for a client's
/// `Sec-WebSocket-Key`: `base64(SHA1(socket_key ++ MAGIC_STRING))`.
pub fn encode_accept_key(socket_key: &str) -> (r: String)
    ensures
        r@ == spec_accept_key(socket_key.spec_bytes()),
{
    let mut input: Vec<u8> = Vec::new();
    push_all(&mut input, socket_key.as_bytes());
    push_all(&mut input, MAGIC_STRING.as_bytes());
    let digest = sha1_digest(input.as_slice());
    base64_encode(digest.as_slice())
}

} // verus!
