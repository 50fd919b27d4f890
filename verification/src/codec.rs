//! The frame codec: bit-exact encoding and decoding of RFC 6455 frames,
//! including client-side masking, extended length fields, control-frame
//! constraints and continuation semantics.

use vstd::prelude::*;
use vstd::slice::slice_to_vec;
use vstd::string::StrSliceExecFns;
use vstd::utf8::{encode_utf8, valid_utf8};

use crate::error::WebSocketError;
use crate::frame::{spec_fin_bit, spec_is_control, spec_opcode, Frame, FrameType, FrameView};

verus! {

/// The largest payload length representable on the wire: lengths use at most
/// 63 bits.
pub const MAX_WIRE_PAYLOAD: u64 = 0x7FFF_FFFF_FFFF_FFFF;

// ---------------------------------------------------------------------------
// Masking
// ---------------------------------------------------------------------------
/// The masked form of `payload` under the four-byte key `key`: byte `i` is
/// XORed with `key[i % 4]`.
pub open spec fn spec_mask(payload: Seq<u8>, key: Seq<u8>) -> Seq<u8>
    recommends
        key.len() == 4,
{
    Seq::new(payload.len(), |i: int| payload[i] ^ key[i % 4])
}

/// Masking is an involution: unmasking masked bytes with the same key
/// restores the original payload, whatever the payload and the key.
pub proof fn lemma_masking_round_trip(payload: Seq<u8>, key: Seq<u8>)
    requires
        key.len() == 4,
    ensures
        spec_mask(spec_mask(payload, key), key) == payload,
{
    assert(forall|a: u8, b: u8| ((a ^ b) ^ b) == a) by (bit_vector);
    assert(spec_mask(spec_mask(payload, key), key) =~= payload);
}

/// XORs each payload byte with `key[i % 4]`, in place.
pub fn apply_mask(payload: &mut Vec<u8>, key: &Vec<u8>)
    requires
        key@.len() == 4,
    ensures
        final(payload)@ == spec_mask(old(payload)@, key@),
{
    let n = payload.len();
    let mut i: usize = 0;
    while i < n
        invariant
            n == payload@.len(),
            old(payload)@.len() == n,
            key@.len() == 4,
            i <= n,
            forall|j: int| 0 <= j < i ==> payload@[j] == spec_mask(old(payload)@, key@)[j],
            forall|j: int| i <= j < n ==> payload@[j] == old(payload)@[j],
        decreases n - i,
    {
        let b = payload[i];
        let m = key[i % 4];
        payload[i] = b ^ m;
        i += 1;
    }
    assert(payload@ =~= spec_mask(old(payload)@, key@));
}

// ---------------------------------------------------------------------------
// Length fields and big-endian integers
// ---------------------------------------------------------------------------
/// The two bytes of `n` in big-endian order.
pub open spec fn spec_be16(n: u16) -> Seq<u8> {
    seq![((n >> 8) & 0xFF) as u8, (n & 0xFF) as u8]
}

/// The eight bytes of `n` in big-endian order.
pub open spec fn spec_be64(n: u64) -> Seq<u8> {
    seq![
        ((n >> 56) & 0xFF) as u8,
        ((n >> 48) & 0xFF) as u8,
        ((n >> 40) & 0xFF) as u8,
        ((n >> 32) & 0xFF) as u8,
        ((n >> 24) & 0xFF) as u8,
        ((n >> 16) & 0xFF) as u8,
        ((n >> 8) & 0xFF) as u8,
        (n & 0xFF) as u8,
    ]
}

/// The value of two big-endian bytes.
pub open spec fn spec_be16_value(b0: u8, b1: u8) -> u16 {
    (((b0 as u16) << 8) | (b1 as u16)) as u16
}

/// The value of eight big-endian bytes.
pub open spec fn spec_be64_value(s: Seq<u8>) -> u64
    recommends
        s.len() == 8,
{
    (((s[0] as u64) << 56) | ((s[1] as u64) << 48) | ((s[2] as u64) << 40) | ((s[3] as u64) << 32)
        | ((s[4] as u64) << 24) | ((s[5] as u64) << 16) | ((s[6] as u64) << 8) | (
    s[7] as u64)) as u64
}

/// The wire encoding of a payload length, without the mask bit: the shortest
/// of the one-byte, 126-prefixed two-byte and 127-prefixed eight-byte forms
/// that can carry `n`.
pub open spec fn spec_length_field(n: nat) -> Seq<u8> {
    if n <= 125 {
        seq![n as u8]
    } else if n <= 0xFFFF {
        seq![126u8] + spec_be16(n as u16)
    } else {
        seq![127u8] + spec_be64(n as u64)
    }
}

/// The length a wire length field denotes, if it is well-formed: a single
/// byte up to 125, or 126 followed by two big-endian bytes, or 127 followed
/// by eight.
pub open spec fn spec_decode_length_field(s: Seq<u8>) -> Option<nat> {
    if s.len() == 1 && s[0] <= 125 {
        Some(s[0] as nat)
    } else if s.len() == 3 && s[0] == 126 {
        Some(spec_be16_value(s[1], s[2]) as nat)
    } else if s.len() == 9 && s[0] == 127 {
        Some(spec_be64_value(s.skip(1)) as nat)
    } else {
        None
    }
}

/// Every wire-representable payload length is encoded in the shortest form
/// RFC 6455 permits, and the encoded field decodes back to the same length.
pub proof fn lemma_length_field_round_trip(n: nat)
    requires
        n <= MAX_WIRE_PAYLOAD,
    ensures
        spec_decode_length_field(spec_length_field(n)) == Some(n),
        n <= 125 ==> spec_length_field(n).len() == 1,
        125 < n <= 0xFFFF ==> spec_length_field(n).len() == 3 && spec_length_field(n)[0] == 126,
        0xFFFF < n ==> spec_length_field(n).len() == 9 && spec_length_field(n)[0] == 127,
{
    if n <= 125 {
    } else if n <= 0xFFFF {
        let m = n as u16;
        assert(((((m >> 8) & 0xFF) as u8) as u16) << 8 | (((m & 0xFF) as u8) as u16) == m)
            by (bit_vector);
        assert(spec_be16_value(spec_be16(m)[0], spec_be16(m)[1]) == m);
        assert(spec_be16_value(spec_be16(m)[0], spec_be16(m)[1]) as nat == n);
    } else {
        let m = n as u64;
        let s = spec_be64(m);
        assert(spec_length_field(n).skip(1) =~= s);
        assert((((((m >> 56) & 0xFF) as u8) as u64) << 56 | ((((m >> 48) & 0xFF) as u8) as u64)
            << 48 | ((((m >> 40) & 0xFF) as u8) as u64) << 40 | ((((m >> 32) & 0xFF) as u8) as u64)
            << 32 | ((((m >> 24) & 0xFF) as u8) as u64) << 24 | ((((m >> 16) & 0xFF) as u8) as u64)
            << 16 | ((((m >> 8) & 0xFF) as u8) as u64) << 8 | (((m & 0xFF) as u8) as u64)) == m)
            by (bit_vector);
        assert(spec_be64_value(s) == m);
    }
}

/// Builds the two big-endian bytes of `n`.
pub fn be16_bytes(n: u16) -> (r: Vec<u8>)
    ensures
        r@ == spec_be16(n),
{
    let mut out: Vec<u8> = Vec::new();
    out.push(((n >> 8) & 0xFF) as u8);
    out.push((n & 0xFF) as u8);
    assert(out@ =~= spec_be16(n));
    out
}

/// Builds the eight big-endian bytes of `n`.
pub fn be64_bytes(n: u64) -> (r: Vec<u8>)
    ensures
        r@ == spec_be64(n),
{
    let mut out: Vec<u8> = Vec::new();
    out.push(((n >> 56) & 0xFF) as u8);
    out.push(((n >> 48) & 0xFF) as u8);
    out.push(((n >> 40) & 0xFF) as u8);
    out.push(((n >> 32) & 0xFF) as u8);
    out.push(((n >> 24) & 0xFF) as u8);
    out.push(((n >> 16) & 0xFF) as u8);
    out.push(((n >> 8) & 0xFF) as u8);
    out.push((n & 0xFF) as u8);
    assert(out@ =~= spec_be64(n));
    out
}

/// The value of two big-endian bytes.
pub fn be16_value(b0: u8, b1: u8) -> (r: u16)
    ensures
        r == spec_be16_value(b0, b1),
{
    ((b0 as u16) << 8) | (b1 as u16)
}

/// The value of eight big-endian bytes.
pub fn be64_value(bytes: &Vec<u8>) -> (r: u64)
    requires
        bytes@.len() == 8,
    ensures
        r == spec_be64_value(bytes@),
{
    ((bytes[0] as u64) << 56) | ((bytes[1] as u64) << 48) | ((bytes[2] as u64) << 40) | ((
    bytes[3] as u64) << 32) | ((bytes[4] as u64) << 24) | ((bytes[5] as u64) << 16) | ((
    bytes[6] as u64) << 8) | (bytes[7] as u64)
}

/// Builds the wire length field for a payload of `n` bytes, without the
/// mask bit.
pub fn length_field_bytes(n: u64) -> (r: Vec<u8>)
    requires
        n <= MAX_WIRE_PAYLOAD,
    ensures
        r@ == spec_length_field(n as nat),
        r@.len() >= 1,
        r@[0] <= 127,
{
    if n <= 125 {
        let mut out: Vec<u8> = Vec::new();
        out.push(n as u8);
        assert(out@ =~= spec_length_field(n as nat));
        out
    } else if n <= 0xFFFF {
        let mut out: Vec<u8> = Vec::new();
        out.push(126);
        let mut rest = be16_bytes(n as u16);
        out.append(&mut rest);
        assert(out@ =~= spec_length_field(n as nat));
        out
    } else {
        let mut out: Vec<u8> = Vec::new();
        out.push(127);
        let mut rest = be64_bytes(n);
        out.append(&mut rest);
        assert(out@ =~= spec_length_field(n as nat));
        out
    }
}

// ---------------------------------------------------------------------------
// Encoding
// ---------------------------------------------------------------------------
/// The bytes a frame's payload materializes to: UTF-8 for Text, the bytes
/// as given for Binary, the big-endian status code followed by the UTF-8
/// reason for Close, and the optional bytes for Ping and Pong.
pub open spec fn spec_payload_bytes(v: FrameView) -> Seq<u8> {
    match v {
        FrameView::Text { payload, .. } => encode_utf8(payload),
        FrameView::Binary { payload, .. } => payload,
        FrameView::Close { payload } => match payload {
            Some((code, reason)) => spec_be16(code) + encode_utf8(reason),
            None => Seq::empty(),
        },
        FrameView::Ping { payload } => match payload {
            Some(bytes) => bytes,
            None => Seq::empty(),
        },
        FrameView::Pong { payload } => match payload {
            Some(bytes) => bytes,
            None => Seq::empty(),
        },
    }
}

/// Materializes a frame's payload bytes.
pub fn frame_payload(frame: &Frame) -> (r: Vec<u8>)
    ensures
        r@ == spec_payload_bytes(frame@),
{
    match frame {
        Frame::Text { payload, .. } => payload.as_str().as_bytes_vec(),
        Frame::Binary { payload, .. } => slice_to_vec(payload.as_slice()),
        Frame::Close { payload } => match payload {
            Some((code, reason)) => {
                let mut out = be16_bytes(*code);
                let mut reason_bytes = reason.as_str().as_bytes_vec();
                out.append(&mut reason_bytes);
                out
            },
            None => Vec::new(),
        },
        Frame::Ping { payload } => match payload {
            Some(bytes) => slice_to_vec(bytes.as_slice()),
            None => Vec::new(),
        },
        Frame::Pong { payload } => match payload {
            Some(bytes) => slice_to_vec(bytes.as_slice()),
            None => Vec::new(),
        },
    }
}

/// The full wire image of a frame under masking key `key`: the FIN bit and
/// opcode, the length field with the mask bit set, the key, then the masked
/// payload.
pub open spec fn spec_encode_frame(v: FrameView, key: Seq<u8>) -> Seq<u8>
    recommends
        key.len() == 4,
{
    let payload = spec_payload_bytes(v);
    let length_field = spec_length_field(payload.len());
    seq![(spec_opcode(v) + spec_fin_bit(v)) as u8, (length_field[0] + 0x80) as u8]
        + length_field.skip(1) + key + spec_mask(payload, key)
}

/// Encodes a frame for the wire, masking its payload with `key`.
///
/// Fails with `ControlFrameTooLargeError` exactly when a control frame
/// carries more than 125 payload bytes, and with `PayloadTooLargeError`
/// exactly when a data frame's payload exceeds the 63-bit wire maximum;
/// every other frame is encoded.
pub fn encode_frame(frame: &Frame, key: &Vec<u8>) -> (r: Result<Vec<u8>, WebSocketError>)
    requires
        key@.len() == 4,
    ensures
        r is Ok <==> !(spec_is_control(frame@) && spec_payload_bytes(frame@).len() > 125)
            && spec_payload_bytes(frame@).len() <= MAX_WIRE_PAYLOAD,
        r matches Ok(bytes) ==> bytes@ == spec_encode_frame(frame@, key@),
        r matches Err(e) ==> if spec_is_control(frame@) && spec_payload_bytes(frame@).len() > 125 {
            e is ControlFrameTooLargeError
        } else {
            e is PayloadTooLargeError
        },
{
    let mut payload = frame_payload(frame);
    let is_control = frame.is_control();
    if is_control && payload.len() > 125 {
        return Err(WebSocketError::ControlFrameTooLargeError);
    }
    let len64 = payload.len() as u64;
    if len64 > MAX_WIRE_PAYLOAD {
        return Err(WebSocketError::PayloadTooLargeError);
    }

    let opcode = frame.opcode();
    let fin_bit = frame.fin();
    assert(opcode <= 0xA && (fin_bit == 0 || fin_bit == 0x80));

    let mut length_field = length_field_bytes(len64);
    let first = length_field[0];
    length_field[0] = first + 0x80;

    let mut out: Vec<u8> = Vec::new();
    out.push(opcode + fin_bit);
    out.append(&mut length_field);
    let mut key_bytes = slice_to_vec(key.as_slice());
    out.append(&mut key_bytes);
    apply_mask(&mut payload, key);
    out.append(&mut payload);
    proof {
        let lf = spec_length_field(spec_payload_bytes(frame@).len());
        assert(seq![(opcode + fin_bit) as u8] + lf.update(0, (lf[0] + 0x80) as u8) + key@
            + spec_mask(spec_payload_bytes(frame@), key@) =~= spec_encode_frame(frame@, key@));
        assert(out@ =~= spec_encode_frame(frame@, key@));
    }
    Ok(out)
}

/// Reading a client frame back recovers what was encoded: the first wire
/// byte carries the FIN bit and the opcode, the second announces masking,
/// the length field decodes to the payload length, the masking key stands
/// after it, and unmasking the remaining bytes with that key restores the
/// payload, whatever the frame and the key.
pub proof fn lemma_encode_frame_round_trip(v: FrameView, key: Seq<u8>)
    requires
        key.len() == 4,
        spec_payload_bytes(v).len() <= MAX_WIRE_PAYLOAD,
    ensures
        ({
            let w = spec_encode_frame(v, key);
            let payload = spec_payload_bytes(v);
            let ext = spec_length_field(payload.len()).len() - 1;
            &&& w.len() == 6 + ext + payload.len()
            &&& ((w[0] & 0x80 != 0) <==> spec_fin_bit(v) == 0x80)
            &&& w[0] & 0x0F == spec_opcode(v)
            &&& w[1] & 0x80 != 0
            &&& spec_decode_length_field(seq![(w[1] & 0x7F) as u8] + w.subrange(2, 2 + ext))
                == Some(payload.len())
            &&& w.subrange(2 + ext, 6 + ext) == key
            &&& spec_mask(w.skip(6 + ext), key) == payload
        }),
{
    let w = spec_encode_frame(v, key);
    let payload = spec_payload_bytes(v);
    let lf = spec_length_field(payload.len());
    let ext = lf.len() - 1;
    let o = spec_opcode(v);
    let f = spec_fin_bit(v);

    assert(o <= 0xA && (f == 0 || f == 0x80));
    assert(lf.len() >= 1 && lf[0] <= 127) by {
        lemma_length_field_round_trip(payload.len());
        if payload.len() <= 125 {
            assert(lf[0] == payload.len());
        }
    }

    assert(w[0] == (o + f) as u8);
    assert(w[1] == (lf[0] + 0x80) as u8);
    let first = lf[0];
    assert(((o + f) as u8) & 0x0F == o && ((((o + f) as u8) & 0x80 != 0) <==> o + f >= 0x80))
        by (bit_vector)
        requires
            o <= 0x0A,
            f == 0 || f == 0x80,
    ;
    assert(((first + 0x80) as u8) & 0x80 != 0 && ((first + 0x80) as u8) & 0x7F == first)
        by (bit_vector)
        requires
            first <= 127,
    ;

    assert(w.len() == 6 + ext + payload.len());
    assert(seq![(w[1] & 0x7F) as u8] + w.subrange(2, 2 + ext) =~= lf);
    lemma_length_field_round_trip(payload.len());
    assert(w.subrange(2 + ext, 6 + ext) =~= key);
    assert(w.skip(6 + ext) =~= spec_mask(payload, key));
    lemma_masking_round_trip(payload, key);
}

// ---------------------------------------------------------------------------
// Decoding
// ---------------------------------------------------------------------------
/// Relies on `String::from_utf8`: it succeeds exactly on valid UTF-8 input,
/// and the returned string's UTF-8 encoding is the input itself.
#[verifier::external_body]
fn bytes_to_string(bytes: Vec<u8>) -> (r: Option<String>)
    ensures
        r is Some <==> valid_utf8(bytes@),
        r matches Some(s) ==> encode_utf8(s@) == bytes@,
{
    String::from_utf8(bytes).ok()
}

/// How the rest of a frame's payload length is encoded, as announced by the
/// low seven bits of the second header byte.
#[derive(Debug, Clone, Copy, PartialEq, Eq, Structural)]
pub enum LengthField {
    /// The seven bits carry the payload length itself
    Direct(u8),
    /// Two big-endian extended-length bytes follow
    Extended16,
    /// Eight big-endian extended-length bytes follow
    Extended64,
}

/// Splits the first header byte of a frame into the FIN flag and the opcode.
pub fn parse_first_byte(b: u8) -> (r: (bool, u8))
    ensures
        r.0 == (b & 0x80 != 0),
        r.1 == b & 0x0F,
{
    (b & 0x80 != 0, b & 0x0F)
}

/// Reads the second header byte of a frame: the mask bit and the first
/// seven length bits.
///
/// A server-to-client frame must not be masked, so a set mask bit fails
/// with `ReceivedMaskedFrameError`; every unmasked byte is accepted.
pub fn parse_length_byte(b: u8) -> (r: Result<LengthField, WebSocketError>)
    ensures
        r is Err <==> b >= 0x80,
        r matches Err(e) ==> e is ReceivedMaskedFrameError,
        b < 0x80 ==> (r matches Ok(form) && form == (if b == 126 {
            LengthField::Extended16
        } else if b == 127 {
            LengthField::Extended64
        } else {
            LengthField::Direct(b)
        })),
{
    assert(b & 0x80 != 0 <==> b >= 0x80) by (bit_vector);
    assert(b < 0x80 ==> b & 0x7F == b) by (bit_vector);
    if b & 0x80 != 0 {
        // server to client frames should not be masked
        return Err(WebSocketError::ReceivedMaskedFrameError);
    }
    let low = b & 0x7F;
    if low == 126 {
        Ok(LengthField::Extended16)
    } else if low == 127 {
        Ok(LengthField::Extended64)
    } else {
        Ok(LengthField::Direct(low))
    }
}

/// What assembling a Text frame (initial or continuation) from payload
/// bytes yields: the string the bytes encode, or `InvalidFrameError` when
/// they are not valid UTF-8.
pub open spec fn spec_text_outcome(
    payload: Seq<u8>,
    continuation: bool,
    fin: bool,
    r: Result<Frame, WebSocketError>,
) -> bool {
    if valid_utf8(payload) {
        r matches Ok(f) && f@ matches FrameView::Text {
            payload: chars,
            continuation: c,
            fin: fi,
        } && encode_utf8(chars) == payload && c == continuation && fi == fin
    } else {
        r matches Err(e) && e is InvalidFrameError
    }
}

/// What assembling a Close frame from payload bytes yields: no payload for
/// an empty body; `InvalidFrameError` for a one-byte body (a status code
/// needs two bytes) or a non-UTF-8 reason; otherwise the big-endian status
/// code and the reason string.
pub open spec fn spec_close_outcome(payload: Seq<u8>, r: Result<Frame, WebSocketError>) -> bool {
    if payload.len() == 0 {
        r matches Ok(f) && f@ == (FrameView::Close { payload: None })
    } else if payload.len() == 1 {
        r matches Err(e) && e is InvalidFrameError
    } else {
        let code = spec_be16_value(payload[0], payload[1]);
        let reason = payload.skip(2);
        if valid_utf8(reason) {
            r matches Ok(f) && f@ matches FrameView::Close { payload: p } && p matches Some(
                (c, chars),
            ) && c == code && encode_utf8(chars) == reason
        } else {
            r matches Err(e) && e is InvalidFrameError
        }
    }
}

/// The optional payload a Ping or Pong frame carries: absent exactly when
/// no payload bytes came with the frame.
pub open spec fn spec_optional_payload(payload: Seq<u8>) -> Option<Seq<u8>> {
    if payload.len() == 0 {
        None
    } else {
        Some(payload)
    }
}

/// Reconstructs a frame from its decoded header fields and payload bytes.
///
/// A continuation opcode inherits the frame type of `last_frame_type` and
/// fails with `InvalidFrameError` when no data frame is in progress; the
/// reserved opcodes 0x3–0x7 and 0xB–0xF always fail with
/// `InvalidFrameError`.
pub fn assemble_frame(
    fin: bool,
    opcode: u8,
    payload: Vec<u8>,
    last_frame_type: FrameType,
) -> (r: Result<Frame, WebSocketError>)
    ensures
        opcode == 0x0 && last_frame_type is Control ==> (r matches Err(e) && e
            is InvalidFrameError),
        opcode == 0x0 && last_frame_type is Text ==> spec_text_outcome(payload@, true, fin, r),
        opcode == 0x0 && last_frame_type is Binary ==> (r matches Ok(f) && f@
            == (FrameView::Binary { payload: payload@, continuation: true, fin })),
        opcode == 0x1 ==> spec_text_outcome(payload@, false, fin, r),
        opcode == 0x2 ==> (r matches Ok(f) && f@ == (FrameView::Binary {
            payload: payload@,
            continuation: false,
            fin,
        })),
        0x3 <= opcode <= 0x7 || opcode >= 0xB ==> (r matches Err(e) && e is InvalidFrameError),
        opcode == 0x8 ==> spec_close_outcome(payload@, r),
        opcode == 0x9 ==> (r matches Ok(f) && f@ == (FrameView::Ping {
            payload: spec_optional_payload(payload@),
        })),
        opcode == 0xA ==> (r matches Ok(f) && f@ == (FrameView::Pong {
            payload: spec_optional_payload(payload@),
        })),
{
    if opcode == 0x0 {
        match last_frame_type {
            FrameType::Text => match bytes_to_string(payload) {
                Some(text) => Ok(Frame::Text { payload: text, continuation: true, fin }),
                None => Err(WebSocketError::InvalidFrameError),
            },
            FrameType::Binary => Ok(Frame::Binary { payload, continuation: true, fin }),
            FrameType::Control => Err(WebSocketError::InvalidFrameError),
        }
    } else if opcode == 0x1 {
        match bytes_to_string(payload) {
            Some(text) => Ok(Frame::Text { payload: text, continuation: false, fin }),
            None => Err(WebSocketError::InvalidFrameError),
        }
    } else if opcode == 0x2 {
        Ok(Frame::Binary { payload, continuation: false, fin })
    } else if opcode == 0x8 {
        if payload.len() == 0 {
            Ok(Frame::Close { payload: None })
        } else if payload.len() == 1 {
            // if there is a payload it must carry a two-byte status code
            Err(WebSocketError::InvalidFrameError)
        } else {
            let code = be16_value(payload[0], payload[1]);
            let mut head = payload;
            let reason_bytes = head.split_off(2);
            match bytes_to_string(reason_bytes) {
                Some(reason) => Ok(Frame::Close { payload: Some((code, reason)) }),
                None => Err(WebSocketError::InvalidFrameError),
            }
        }
    } else if opcode == 0x9 {
        if payload.len() == 0 {
            Ok(Frame::Ping { payload: None })
        } else {
            Ok(Frame::Ping { payload: Some(payload) })
        }
    } else if opcode == 0xA {
        if payload.len() == 0 {
            Ok(Frame::Pong { payload: None })
        } else {
            Ok(Frame::Pong { payload: Some(payload) })
        }
    } else {
        // reserved opcodes
        Err(WebSocketError::InvalidFrameError)
    }
}

} // verus!
