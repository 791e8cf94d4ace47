//! The frame codec: bit-field readers over the two leading header bytes,
//! the three payload-length encodings, decoding (unmasking) of a client
//! frame, and the building of outgoing frames.

use vstd::prelude::*;
use vstd::string::StringExecFns;
use vstd::utf8::{decode_utf8, encode_utf8, valid_utf8};

use crate::frames::{
    FIN_BITS, OPCODE_BINARY, OPCODE_BITS, OPCODE_CLOSE, OPCODE_CONTINUE, OPCODE_TEXT,
    PAYLOAD_LENGTH_BITS,
};
use crate::http_parsers::{get_http_headers, get_socket_key, spec_http_headers, spec_socket_key};
use crate::http_server::{encode_accept_key, spec_accept_key};
use crate::websocket_error::{CloseReason, DecodePayloadErrors, HandshakeErrors};

verus! {

/// The opcodes this server understands in a data frame.
#[derive(Debug, Clone, Copy, PartialEq, Eq, Structural)]
pub enum OPCODES {
    TEXT,
    CONTINUE,
    BINARY,
}

/// The opcode named by the low four bits of a first header byte, or
/// `None` when those bits name no opcode this server understands.
pub open spec fn spec_opcode(byte: u8) -> Option<OPCODES> {
    if byte & OPCODE_BITS == OPCODE_TEXT {
        Some(OPCODES::TEXT)
    } else if byte & OPCODE_BITS == OPCODE_BINARY {
        Some(OPCODES::BINARY)
    } else if byte & OPCODE_BITS == OPCODE_CONTINUE {
        Some(OPCODES::CONTINUE)
    } else {
        None
    }
}

/// Reads the opcode from the first header byte of a frame.
pub fn get_opcode(byte: u8) -> (r: Option<OPCODES>)
    ensures
        r == spec_opcode(byte),
{
    let opcode = byte & OPCODE_BITS;
    if opcode == OPCODE_TEXT {
        Some(OPCODES::TEXT)
    } else if opcode == OPCODE_BINARY {
        Some(OPCODES::BINARY)
    } else if opcode == OPCODE_CONTINUE {
        Some(OPCODES::CONTINUE)
    } else {
        None
    }
}

/// Reads the FIN bit (still in place, not shifted) from the first header
/// byte of a frame.
pub fn get_fin_bit(byte: u8) -> (r: u8)
    ensures
        r == byte & FIN_BITS,
{
    byte & FIN_BITS
}

/// Reads the MASK bit (still in place, not shifted) from the second
/// header byte of a frame. The bit occupies the same position as FIN
/// does in the first byte.
pub fn get_mask_bit(byte: u8) -> (r: u8)
    ensures
        r == byte & FIN_BITS,
{
    byte & FIN_BITS
}

/// The value of two bytes read as a big-endian 16-bit integer.
pub open spec fn spec_u16_be(hi: u8, lo: u8) -> u16 {
    (hi * 256 + lo) as u16
}

/// The value of eight bytes read as a big-endian 64-bit integer.
pub open spec fn spec_u64_be(b: Seq<u8>) -> u64
    recommends
        b.len() == 8,
{
    (b[0] * 0x100_0000_0000_0000 + b[1] * 0x1_0000_0000_0000 + b[2] * 0x100_0000_0000 + b[3]
        * 0x1_0000_0000 + b[4] * 0x100_0000 + b[5] * 0x1_0000 + b[6] * 0x100 + b[7]) as u64
}

fn read_u16_be(b: &[u8], at: usize) -> (r: u16)
    requires
        at + 2 <= b@.len(),
    ensures
        r == spec_u16_be(b@[at as int], b@[at as int + 1]),
{
    (b[at] as u16) * 256 + (b[at + 1] as u16)
}

fn read_u64_be(b: &[u8], at: usize) -> (r: u64)
    requires
        at + 8 <= b@.len(),
    ensures
        r == spec_u64_be(b@.subrange(at as int, at as int + 8)),
{
    (b[at] as u64) * 0x100_0000_0000_0000 + (b[at + 1] as u64) * 0x1_0000_0000_0000 + (b[at
        + 2] as u64) * 0x100_0000_0000 + (b[at + 3] as u64) * 0x1_0000_0000 + (b[at
        + 4] as u64) * 0x100_0000 + (b[at + 5] as u64) * 0x1_0000 + (b[at + 6] as u64) * 0x100 + (
    b[at + 7] as u64)
}

/// The payload length announced by a frame header, with the offset of
/// the first byte after the length field. The second byte's low seven
/// bits are the indicator: values up to 125 are the length itself,
/// 126 announces a 16-bit big-endian length, 127 a 64-bit one whose
/// top bit must be clear. A buffer too short for the form its
/// indicator announces is an `IoError`; a 64-bit length with the top
/// bit set is a `ParseError`.
pub open spec fn spec_payload_length_and_offset(buffer: Seq<u8>) -> Result<
    (u64, usize),
    DecodePayloadErrors,
> {
    if buffer.len() < 2 {
        Err(DecodePayloadErrors::IoError)
    } else {
        let indicator = buffer[1] & PAYLOAD_LENGTH_BITS;
        if indicator <= 125 {
            Ok((indicator as u64, 2usize))
        } else if indicator == 126 {
            if buffer.len() < 4 {
                Err(DecodePayloadErrors::IoError)
            } else {
                Ok((spec_u16_be(buffer[2], buffer[3]) as u64, 4usize))
            }
        } else {
            if buffer.len() < 10 {
                Err(DecodePayloadErrors::IoError)
            } else if buffer[2] & 0x80 != 0 {
                Err(DecodePayloadErrors::ParseError)
            } else {
                Ok((spec_u64_be(buffer.subrange(2, 10)), 10usize))
            }
        }
    }
}

/// Parses the payload-length field of a frame header, returning the
/// length and the offset of the first byte after the field.
///
/// All three encodings are accepted whether or not minimal. A 64-bit
/// length must have its most-significant bit clear; one with the bit
/// set is rejected as a `ParseError`. A buffer that ends inside the
/// announced length field is an `IoError`.
pub fn get_payload_length_and_offset(buffer: &[u8]) -> (r: Result<
    (u64, usize),
    DecodePayloadErrors,
>)
    ensures
        r == spec_payload_length_and_offset(buffer@),
{
    if buffer.len() < 2 {
        return Err(DecodePayloadErrors::IoError);
    }
    let indicator = buffer[1] & PAYLOAD_LENGTH_BITS;
    if indicator <= 125 {
        Ok((indicator as u64, 2))
    } else if indicator == 126 {
        if buffer.len() < 4 {
            return Err(DecodePayloadErrors::IoError);
        }
        Ok((read_u16_be(buffer, 2) as u64, 4))
    } else {
        if buffer.len() < 10 {
            return Err(DecodePayloadErrors::IoError);
        }
        if buffer[2] & 0x80 != 0 {
            return Err(DecodePayloadErrors::ParseError);
        }
        Ok((read_u64_be(buffer, 2), 10))
    }
}

/// The bytes of `data` each XORed with the key byte at its index
/// modulo four. Applying the mask a second time with the same key
/// gives `data` back, so this both masks and unmasks.
pub open spec fn spec_mask(data: Seq<u8>, key: Seq<u8>) -> Seq<u8>
    recommends
        key.len() == 4,
{
    Seq::new(data.len(), |i: int| data[i] ^ key[i % 4])
}

/// Masking twice with the same key is the identity: XOR is
/// self-inverse byte by byte.
pub proof fn lemma_mask_involutive(data: Seq<u8>, key: Seq<u8>)
    requires
        key.len() == 4,
    ensures
        spec_mask(spec_mask(data, key), key) == data,
{
    assert forall|i: int| 0 <= i < data.len() implies spec_mask(spec_mask(data, key), key)[i]
        == data[i] by {
        let d = data[i];
        let k = key[i % 4];
        assert((d ^ k) ^ k == d) by (bit_vector);
    }
    assert(spec_mask(spec_mask(data, key), key) =~= data);
}

/// Applies the 4-byte mask to `data`: byte `i` is XORed with
/// `key[i % 4]`. The same operation masks and unmasks.
pub fn apply_mask(data: &[u8], key: &[u8]) -> (r: Vec<u8>)
    requires
        key@.len() == 4,
    ensures
        r@ == spec_mask(data@, key@),
{
    let mut out: Vec<u8> = Vec::new();
    let mut i: usize = 0;
    while i < data.len()
        invariant
            key@.len() == 4,
            i <= data@.len(),
            out@.len() == i,
            forall|j: int| 0 <= j < i ==> out@[j] == data@[j] ^ key@[j % 4],
        decreases data@.len() - i,
    {
        out.push(data[i] ^ key[i % 4]);
        i = i + 1;
    }
    assert(out@ =~= spec_mask(data@, key@));
    out
}

/// The payload of a decoded frame: the length field is parsed, the
/// four key bytes follow the length field, and the `length` masked
/// payload bytes follow the key. A buffer that ends before the end of
/// the payload is an `IoError`.
pub open spec fn spec_decode_payload(buffer: Seq<u8>) -> Result<Seq<u8>, DecodePayloadErrors> {
    match spec_payload_length_and_offset(buffer) {
        Err(e) => Err(e),
        Ok((length, offset)) => if buffer.len() < offset + 4 + length {
            Err(DecodePayloadErrors::IoError)
        } else {
            Ok(
                spec_mask(
                    buffer.subrange(offset + 4, offset + 4 + length),
                    buffer.subrange(offset as int, offset + 4),
                ),
            )
        },
    }
}

/// Decodes one client frame out of `buffer`: parses the length field,
/// reads the 4-byte mask key after it, and unmasks that many payload
/// bytes. Fails with `IoError` when the buffer is shorter than the
/// frame it announces, and with `ParseError` when the length field
/// itself is invalid.
pub fn decode_payload(buffer: &[u8]) -> (r: Result<Vec<u8>, DecodePayloadErrors>)
    ensures
        match r {
            Ok(payload) => spec_decode_payload(buffer@) == Ok::<_, DecodePayloadErrors>(payload@),
            Err(e) => spec_decode_payload(buffer@) == Err::<Seq<u8>, _>(e),
        },
{
    let (payload_length, payload_offset) = match get_payload_length_and_offset(buffer) {
        Ok(parsed) => parsed,
        Err(e) => {
            return Err(e);
        },
    };
    if buffer.len() < payload_offset + 4 {
        return Err(DecodePayloadErrors::IoError);
    }
    if payload_length > (buffer.len() - (payload_offset + 4)) as u64 {
        return Err(DecodePayloadErrors::IoError);
    }
    assert(payload_offset + 4 + payload_length <= buffer@.len());
    let length = payload_length as usize;
    let mask = [
        buffer[payload_offset],
        buffer[payload_offset + 1],
        buffer[payload_offset + 2],
        buffer[payload_offset + 3],
    ];
    assert(mask@ =~= buffer@.subrange(payload_offset as int, payload_offset + 4));
    let mut decoded: Vec<u8> = Vec::new();
    let mut i: usize = 0;
    while i < length
        invariant
            buffer@.len() <= usize::MAX,
            payload_offset + 4 + length <= buffer@.len(),
            mask@.len() == 4,
            mask@ == buffer@.subrange(payload_offset as int, payload_offset + 4),
            i <= length,
            decoded@.len() == i,
            forall|j: int| 0 <= j < i ==> decoded@[j] == buffer@[payload_offset + 4 + j] ^ mask@[j
                % 4],
        decreases length - i,
    {
        decoded.push(buffer[payload_offset + 4 + i] ^ mask[i % 4]);
        i = i + 1;
    }
    assert(decoded@ =~= spec_mask(
        buffer@.subrange(payload_offset + 4, payload_offset + 4 + length),
        buffer@.subrange(payload_offset as int, payload_offset + 4),
    ));
    Ok(decoded)
}

/// Which of the three length encodings an outgoing payload of a given
/// size must use.
#[derive(Debug, Clone, Copy, PartialEq, Eq, Structural)]
pub enum PayloadLengthFrame {
    /// Up to 125 bytes: the indicator byte is the length itself.
    PayloadData,
    /// 126 through 65535 bytes: indicator 126, then a 16-bit length.
    ExtensionData,
    /// Above 65535 bytes: indicator 127, then a 64-bit length.
    ApplicationData,
}

/// The minimal length encoding for a payload of `length` bytes.
pub open spec fn spec_message_length(length: nat) -> PayloadLengthFrame {
    if length <= 125 {
        PayloadLengthFrame::PayloadData
    } else if length <= 0xffff {
        PayloadLengthFrame::ExtensionData
    } else {
        PayloadLengthFrame::ApplicationData
    }
}

/// Picks the minimal length encoding for an outgoing payload of
/// `length` bytes: the single-byte form up to 125, the 16-bit form up
/// to 65535, the 64-bit form above.
pub fn get_message_length(length: usize) -> (r: PayloadLengthFrame)
    ensures
        r == spec_message_length(length as nat),
{
    if length <= 125 {
        PayloadLengthFrame::PayloadData
    } else if length <= 0xffff {
        PayloadLengthFrame::ExtensionData
    } else {
        PayloadLengthFrame::ApplicationData
    }
}

/// The eight bytes of a 64-bit integer in big-endian order.
pub open spec fn spec_u64_be_bytes(x: u64) -> Seq<u8> {
    seq![
        (x >> 56) as u8,
        (x >> 48) as u8,
        (x >> 40) as u8,
        (x >> 32) as u8,
        (x >> 24) as u8,
        (x >> 16) as u8,
        (x >> 8) as u8,
        x as u8,
    ]
}

/// The payload-length field of an outgoing frame, in the minimal of
/// the three encodings, with the mask bit clear.
pub open spec fn spec_len_field(length: nat) -> Seq<u8> {
    if length <= 125 {
        seq![length as u8]
    } else if length <= 0xffff {
        seq![126u8, (length / 256) as u8, (length % 256) as u8]
    } else {
        seq![127u8] + spec_u64_be_bytes(length as u64)
    }
}

/// The encoder picks the byte-count-minimal length field: one byte
/// exactly up to a payload of 125 bytes, three bytes exactly up to
/// 65535 (so a payload of 126 bytes already takes the extended
/// form), and nine bytes above that.
pub proof fn lemma_len_field_minimal(length: nat)
    ensures
        spec_len_field(length).len() == (if length <= 125 {
            1nat
        } else if length <= 0xffff {
            3nat
        } else {
            9nat
        }),
{
}

/// Builds the payload-length field for an outgoing frame of
/// `message_length` payload bytes, picking the minimal encoding: one
/// byte up to 125, indicator 126 with a big-endian 16-bit length up
/// to 65535, indicator 127 with a big-endian 64-bit length above.
/// The mask bit is clear: server frames are not masked.
pub fn get_payload_header(message_length: usize) -> (r: Vec<u8>)
    ensures
        r@ == spec_len_field(message_length as nat),
{
    match get_message_length(message_length) {
        PayloadLengthFrame::PayloadData => {
            vec![message_length as u8]
        },
        PayloadLengthFrame::ExtensionData => {
            vec![126u8, (message_length / 256) as u8, (message_length % 256) as u8]
        },
        PayloadLengthFrame::ApplicationData => {
            let x = message_length as u64;
            let r = vec![
                127u8,
                #[verifier::truncate] ((x >> 56) as u8),
                #[verifier::truncate] ((x >> 48) as u8),
                #[verifier::truncate] ((x >> 40) as u8),
                #[verifier::truncate] ((x >> 32) as u8),
                #[verifier::truncate] ((x >> 24) as u8),
                #[verifier::truncate] ((x >> 16) as u8),
                #[verifier::truncate] ((x >> 8) as u8),
                #[verifier::truncate] (x as u8),
            ];
            assert(r@ =~= seq![127u8] + spec_u64_be_bytes(message_length as u64));
            r
        },
    }
}

pub(crate) fn push_all(dst: &mut Vec<u8>, src: &[u8])
    ensures
        final(dst)@ == old(dst)@ + src@,
{
    let mut i: usize = 0;
    while i < src.len()
        invariant
            i <= src@.len(),
            dst@ == old(dst)@ + src@.subrange(0, i as int),
        decreases src@.len() - i,
    {
        dst.push(src[i]);
        assert(dst@ =~= old(dst)@ + src@.subrange(0, i + 1));
        i = i + 1;
    }
    assert(dst@ =~= old(dst)@ + src@);
}

/// A complete outgoing server frame: first byte FIN with the opcode,
/// then the minimal length field with the mask bit clear, then the
/// payload as it is. Server frames are never masked.
pub open spec fn spec_server_frame(opcode: u8, payload: Seq<u8>) -> Seq<u8> {
    seq![FIN_BITS | opcode] + spec_len_field(payload.len()) + payload
}

/// Builds a complete outgoing server frame for one unfragmented
/// message: FIN set, the given opcode, the minimal unmasked length
/// field, and the payload unchanged.
pub fn build_frame(opcode: u8, payload: &[u8]) -> (r: Vec<u8>)
    requires
        opcode & OPCODE_BITS == opcode,
    ensures
        r@ == spec_server_frame(opcode, payload@),
{
    let header = get_payload_header(payload.len());
    let mut out: Vec<u8> = Vec::new();
    out.push(FIN_BITS | opcode);
    push_all(&mut out, header.as_slice());
    push_all(&mut out, payload);
    assert(out@ =~= spec_server_frame(opcode, payload@));
    out
}

/// A complete close frame: FIN with the close opcode, a two-byte
/// payload, and the reason's status code in big-endian order.
pub open spec fn spec_close_frame(reason: CloseReason) -> Seq<u8> {
    seq![FIN_BITS | OPCODE_CLOSE, 2u8, (reason.spec_code() / 256) as u8, (reason.spec_code() % 256) as u8]
}

/// Builds the close frame that carries `reason`: opcode close, FIN
/// set, and the 16-bit status code as the whole payload. The payload
/// is always two bytes, so the length field is always the single-byte
/// form.
pub fn build_close_frame(reason: CloseReason) -> (r: Vec<u8>)
    ensures
        r@ == spec_close_frame(reason),
{
    let code = reason.code();
    vec![FIN_BITS | OPCODE_CLOSE, 2u8, (code / 256) as u8, (code % 256) as u8]
}

/// A complete client frame: the first byte as the server's, but the
/// mask bit set on the first length-field byte, the 4-byte key after
/// the length field, and the payload masked with that key.
pub open spec fn spec_client_frame(opcode: u8, fin: bool, key: Seq<u8>, payload: Seq<u8>) -> Seq<
    u8,
> {
    let first: u8 = if fin {
        FIN_BITS | opcode
    } else {
        opcode
    };
    let len_field = spec_len_field(payload.len());
    seq![first, len_field[0] | FIN_BITS] + len_field.skip(1) + key + spec_mask(payload, key)
}

/// Encodes one frame the way a client does: minimal length field with
/// the mask bit set, the 4-byte key, and the payload masked with it.
pub fn encode(opcode: u8, fin: bool, key: &[u8], payload: &[u8]) -> (r: Vec<u8>)
    requires
        opcode & OPCODE_BITS == opcode,
        key@.len() == 4,
    ensures
        r@ == spec_client_frame(opcode, fin, key@, payload@),
{
    let first: u8 = if fin {
        FIN_BITS | opcode
    } else {
        opcode
    };
    let header = get_payload_header(payload.len());
    let mut out: Vec<u8> = Vec::new();
    out.push(first);
    out.push(header[0] | FIN_BITS);
    let mut i: usize = 1;
    while i < header.len()
        invariant
            1 <= i <= header@.len(),
            out@ == seq![first, header@[0] | FIN_BITS] + header@.subrange(1, i as int),
        decreases header@.len() - i,
    {
        out.push(header[i]);
        assert(out@ =~= seq![first, header@[0] | FIN_BITS] + header@.subrange(1, i + 1));
        i = i + 1;
    }
    push_all(&mut out, key);
    let masked = apply_mask(payload, key);
    push_all(&mut out, masked.as_slice());
    assert(out@ =~= spec_client_frame(opcode, fin, key@, payload@));
    out
}

/// What the connection loop does with one filled read buffer: hand
/// the decoded payload to the application, or send a close frame with
/// the given reason and stop.
#[derive(Debug)]
pub enum FrameOutcome {
    /// A well-formed data frame: dispatch this decoded payload.
    Message(Vec<u8>),
    /// A violation: send the close frame for this reason and stop.
    Close(CloseReason),
}

/// Decides what the connection loop does with one received buffer.
///
/// An opcode this server does not understand, a clear mask bit, or a
/// malformed length field is a protocol violation and closes the
/// connection with `ProtocolError`; a buffer shorter than the frame it
/// announces closes it with `ServerDown`; otherwise the decoded
/// payload is dispatched.
pub fn handle_frame(buffer: &[u8]) -> (r: FrameOutcome)
    requires
        buffer@.len() >= 2,
    ensures
        spec_opcode(buffer@[0]) is None ==> r == FrameOutcome::Close(CloseReason::ProtocolError),
        spec_opcode(buffer@[0]) is Some && buffer@[1] & FIN_BITS != FIN_BITS ==> r
            == FrameOutcome::Close(CloseReason::ProtocolError),
        spec_opcode(buffer@[0]) is Some && buffer@[1] & FIN_BITS == FIN_BITS ==> match spec_decode_payload(
            buffer@,
        ) {
            Ok(payload) => (r matches FrameOutcome::Message(m) && m@ == payload),
            Err(DecodePayloadErrors::IoError) => r == FrameOutcome::Close(CloseReason::ServerDown),
            Err(DecodePayloadErrors::ParseError) => r == FrameOutcome::Close(
                CloseReason::ProtocolError,
            ),
        },
{
    let opcode = get_opcode(buffer[0]);
    if opcode.is_none() {
        return FrameOutcome::Close(CloseReason::ProtocolError);
    }
    let mask_bit = get_mask_bit(buffer[1]);
    if mask_bit != FIN_BITS {
        return FrameOutcome::Close(CloseReason::ProtocolError);
    }
    match decode_payload(buffer) {
        Ok(data) => FrameOutcome::Message(data),
        Err(DecodePayloadErrors::IoError) => FrameOutcome::Close(CloseReason::ServerDown),
        Err(DecodePayloadErrors::ParseError) => FrameOutcome::Close(CloseReason::ProtocolError),
    }
}

/// Round trip: decoding a frame encoded the client way gives the
/// payload back exactly, whatever its length, opcode, FIN bit and
/// mask key. The encoder always picks the minimal length form, and
/// the decoder accepts it; the payload length may be anything whose
/// 64-bit form keeps the top bit clear.
pub proof fn lemma_client_frame_round_trip(opcode: u8, fin: bool, key: Seq<u8>, payload: Seq<u8>)
    requires
        key.len() == 4,
        payload.len() < 0x8000_0000_0000_0000,
    ensures
        spec_decode_payload(spec_client_frame(opcode, fin, key, payload)) == Ok::<
            _,
            DecodePayloadErrors,
        >(payload),
{
    let len = payload.len();
    let len_field = spec_len_field(len);
    let buf = spec_client_frame(opcode, fin, key, payload);
    lemma_mask_involutive(payload, key);
    if len <= 125 {
        let l = len as u8;
        assert(buf[1] == l | FIN_BITS);
        assert((l | 0x80) & 0x7f == l) by (bit_vector)
            requires
                l <= 125,
        ;
        assert(spec_payload_length_and_offset(buf) == Ok::<_, DecodePayloadErrors>(
            (len as u64, 2usize),
        ));
        assert(buf.subrange(2, 6) =~= key);
        assert(buf.subrange(6, 6 + len as int) =~= spec_mask(payload, key));
    } else if len <= 0xffff {
        assert(buf[1] == 126u8 | FIN_BITS);
        assert((126u8 | 0x80) & 0x7f == 126 && !((126u8 | 0x80) & 0x7f <= 125)) by (bit_vector);
        let hi = (len / 256) as u8;
        let lo = (len % 256) as u8;
        assert(buf[2] == hi && buf[3] == lo);
        vstd::arithmetic::div_mod::lemma_fundamental_div_mod(len as int, 256);
        assert(spec_u16_be(hi, lo) == len);
        assert(spec_payload_length_and_offset(buf) == Ok::<_, DecodePayloadErrors>(
            (len as u64, 4usize),
        ));
        assert(buf.subrange(4, 8) =~= key);
        assert(buf.subrange(8, 8 + len as int) =~= spec_mask(payload, key));
    } else {
        let x = len as u64;
        assert(buf[1] == 127u8 | FIN_BITS);
        assert((127u8 | 0x80) & 0x7f == 127 && !((127u8 | 0x80) & 0x7f <= 125) && (127u8 | 0x80)
            & 0x7f != 126) by (bit_vector);
        let b0 = (x >> 56) as u8;
        let b1 = (x >> 48) as u8;
        let b2 = (x >> 40) as u8;
        let b3 = (x >> 32) as u8;
        let b4 = (x >> 24) as u8;
        let b5 = (x >> 16) as u8;
        let b6 = (x >> 8) as u8;
        let b7 = x as u8;
        assert(buf.subrange(2, 10) =~= seq![b0, b1, b2, b3, b4, b5, b6, b7]);
        assert(b0 & 0x80 == 0 && (b0 * 0x100_0000_0000_0000 + b1 * 0x1_0000_0000_0000 + b2
            * 0x100_0000_0000 + b3 * 0x1_0000_0000 + b4 * 0x100_0000 + b5 * 0x1_0000 + b6 * 0x100
            + b7) as u64 == x) by (bit_vector)
            requires
                x < 0x8000_0000_0000_0000,
                b0 == (x >> 56) as u8,
                b1 == (x >> 48) as u8,
                b2 == (x >> 40) as u8,
                b3 == (x >> 32) as u8,
                b4 == (x >> 24) as u8,
                b5 == (x >> 16) as u8,
                b6 == (x >> 8) as u8,
                b7 == x as u8,
        ;
        assert(spec_u64_be(buf.subrange(2, 10)) == x);
        assert(spec_payload_length_and_offset(buf) == Ok::<_, DecodePayloadErrors>((x, 10usize)));
        assert(buf.subrange(10, 14) =~= key);
        assert(buf.subrange(14, 14 + len as int) =~= spec_mask(payload, key));
    }
}

/// The fixed response an accepted upgrade gets, up to the derived
/// accept key; the key and a final blank line complete it.
pub const SWITCHING_PROTOCOLS: &'static str = "HTTP/1.1 101 Switching Protocols\r\nUpgrade: websocket\r\nConnection: Upgrade\r\nSec-WebSocket-Accept: ";

/// The bytes of the only request line this server accepts:
/// `GET / HTTP/1.1` followed by CRLF.
pub open spec fn spec_request_prefix() -> Seq<u8> {
    seq![71u8, 69u8, 84u8, 32u8, 47u8, 32u8, 72u8, 84u8, 84u8, 80u8, 47u8, 49u8, 46u8, 49u8, 13u8, 10u8]
}

/// Whether the buffer begins with the bytes of `GET / HTTP/1.1\r\n`.
fn has_upgrade_prefix(buffer: &[u8]) -> (r: bool)
    ensures
        r == (buffer@.len() >= 16 && buffer@.subrange(0, 16) == spec_request_prefix()),
{
    if buffer.len() < 16 {
        return false;
    }
    let ok = buffer[0] == 71 && buffer[1] == 69 && buffer[2] == 84 && buffer[3] == 32 && buffer[4]
        == 47 && buffer[5] == 32 && buffer[6] == 72 && buffer[7] == 84 && buffer[8] == 84
        && buffer[9] == 80 && buffer[10] == 47 && buffer[11] == 49 && buffer[12] == 46
        && buffer[13] == 49 && buffer[14] == 13 && buffer[15] == 10;
    proof {
        if ok {
            assert(buffer@.subrange(0, 16) =~= spec_request_prefix());
        } else if buffer@.subrange(0, 16) == spec_request_prefix() {
            assert forall|i: int| 0 <= i < 16 implies buffer@[i] == spec_request_prefix()[i] by {
                assert(buffer@.subrange(0, 16)[i] == buffer@[i]);
            }
            assert(false);
        }
    }
    ok
}

/// Relies on `std::str::from_utf8`: succeeds exactly on valid UTF-8,
/// and the string it returns is the decoding of those bytes.
#[verifier::external_body]
fn utf8_to_str<'a>(bytes: &'a [u8]) -> (r: Option<&'a str>)
    ensures
        r is Some <==> valid_utf8(bytes@),
        r matches Some(s) ==> s@ == decode_utf8(bytes@),
{
    std::str::from_utf8(bytes).ok()
}

/// The full 101 response for a derived accept key.
pub open spec fn spec_response(accept: Seq<char>) -> Seq<char> {
    SWITCHING_PROTOCOLS@ + accept + "\r\n\r\n"@
}

/// What the handshake answers to one raw request buffer. The request
/// must begin with the literal request line `GET / HTTP/1.1`, must be
/// valid UTF-8, its header lines must each have a colon, and the two
/// WebSocket headers must name version 13; each failure has its own
/// error. Success is the 101 response carrying the accept key derived
/// from the client's key.
pub open spec fn spec_handshake(buffer: Seq<u8>) -> Result<Seq<char>, HandshakeErrors> {
    if !(buffer.len() >= 16 && buffer.subrange(0, 16) == spec_request_prefix()) {
        Err(HandshakeErrors::InvalidMethodError)
    } else if !valid_utf8(buffer) {
        Err(HandshakeErrors::ParseError)
    } else {
        match spec_http_headers(decode_utf8(buffer)) {
            None => Err(HandshakeErrors::ParseError),
            Some(headers) => match spec_socket_key(headers) {
                None => Err(HandshakeErrors::InvalidHeaders),
                Some(key) => Ok(spec_response(spec_accept_key(encode_utf8(key)))),
            },
        }
    }
}

/// Performs the computational part of the upgrade handshake on the
/// bytes read from the stream: validates the request line, decodes
/// the request as UTF-8, parses the headers, checks the WebSocket key
/// and version, and returns the complete 101 response to write back.
/// The caller reads the request and writes the response (or a 400 on
/// any error here).
pub fn handshake(buffer: &[u8]) -> (r: Result<String, HandshakeErrors>)
    ensures
        match r {
            Ok(response) => spec_handshake(buffer@) == Ok::<_, HandshakeErrors>(response@),
            Err(e) => spec_handshake(buffer@) == Err::<Seq<char>, _>(e),
        },
{
    if !has_upgrade_prefix(buffer) {
        return Err(HandshakeErrors::InvalidMethodError);
    }
    let text = match utf8_to_str(buffer) {
        None => {
            return Err(HandshakeErrors::ParseError);
        },
        Some(t) => t,
    };
    let headers = match get_http_headers(text) {
        Err(_) => {
            return Err(HandshakeErrors::ParseError);
        },
        Ok(h) => h,
    };
    let socket_key = match get_socket_key(headers) {
        None => {
            return Err(HandshakeErrors::InvalidHeaders);
        },
        Some(k) => k,
    };
    let accept_key = encode_accept_key(socket_key.as_str());
    let mut response = SWITCHING_PROTOCOLS.to_owned();
    response.append(accept_key.as_str());
    response.append("\r\n\r\n");
    Ok(response)
}

} // verus!
