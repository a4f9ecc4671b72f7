//! Frames of the device's binary protocol: the fixed requests, and the
//! decoders of the temperature and serial-number responses.
use vstd::prelude::*;

use crate::text::{clean_name, clean_name_spec, latin1_string};

verus! {

/// Length of a temperature response frame.
pub const TEMP_FRAME_LEN: usize = 78;

/// Length of a serial-number response frame.
pub const SERIAL_FRAME_LEN: usize = 147;

/// Length of each fixed request frame.
pub const REQUEST_LEN: usize = 26;

/// Bytes of a request frame that precede its trailing checksum.
pub const REQUEST_BODY_LEN: usize = 22;

/// The three-byte preamble that opens every frame, read big-endian.
pub const PREAMBLE: u32 = 0x17010c;

pub const TEMP_CLASS_ID: u32 = 0x00030f00;

pub const SERIAL_CLASS_ID: u32 = 0x00180f00;

pub const TEMP_OBJECT_ID: u32 = 0x00030001;

pub const SERIAL_OBJECT_ID: u32 = 0x00180000;

/// Newest object version this decoder understands.
pub const MAX_OBJECT_VERSION: u16 = 0x00cd;

/// Newest encapsulated-object version this decoder understands.
pub const MAX_ENCAPSULATED_VERSION: u16 = 0x00c8;

pub const TEMP_STATIC_SIZE: u16 = 0x0010;

pub const SERIAL_STATIC_SIZE: u16 = 0x006c;

/// Operation mode and data source both report tympanic measurement.
pub const TYMPANIC: u16 = 0x0f;

pub const CALC_UNADJUSTED: u8 = 0x0c;

pub const CALC_LEFT_UNADJUSTED: u8 = 0x0d;

pub const ENCAPSULATED_FLOAT_ID: u32 = 0x0075001f;

pub const ENCAPSULATED_FLOAT_SIZE: u16 = 6;

pub const STATUS_VALID: u16 = 0x01;

pub const STATUS_CALCULATING: u16 = 0x80;

/// Where the identifier starts in a serial-number response.
pub const SERIAL_TEXT_START: usize = 77;

/// Length of the identifier field in a serial-number response.
pub const SERIAL_TEXT_LEN: usize = 16;

/// Why a response frame yields no value.
#[derive(PartialEq, Eq, Structural, Clone, Copy, Debug)]
pub enum DecodeError {
    /// The frame does not have the expected shape; the read gives no value.
    Rejected,
    /// The frame claims a newer object or encapsulated-object version, an
    /// unexpected object static size or an unknown measurement status:
    /// interpreting it would be guesswork, so the caller halts.
    Unsafe,
}

/// What a well-formed temperature response carries.
#[derive(PartialEq, Eq, Structural, Clone, Copy, Debug)]
pub enum TempFrame {
    /// The bit pattern of the big-endian IEEE-754 single holding the
    /// temperature in kelvin.
    Kelvin(u32),
    /// The device is still computing; the reading must be requested again.
    Calculating,
}

/// The two fixed requests the tester sends.
#[derive(PartialEq, Eq, Structural, Clone, Copy, Debug)]
pub enum Request {
    Temperature,
    Serial,
}

pub open spec fn be16(b: Seq<u8>, i: int) -> int {
    b[i] as int * 256 + b[i + 1] as int
}

pub open spec fn be24(b: Seq<u8>, i: int) -> int {
    b[i] as int * 65536 + be16(b, i + 1)
}

pub open spec fn be32(b: Seq<u8>, i: int) -> int {
    be16(b, i) * 65536 + be16(b, i + 2)
}

/// The message and object headers shared by both responses: preamble, sizes
/// that agree with the frame's length, the expected ids, no encryption.
pub open spec fn header_ok(b: Seq<u8>, class_id: int, object_id: int) -> bool {
    let n = b.len() as int;
    &&& be24(b, 0) == PREAMBLE
    &&& be32(b, 3) == n
    &&& be32(b, 9) == class_id
    &&& be32(b, 13) == n - 19
    &&& b[17] == 0
    &&& be32(b, 18) == n - 26
    &&& be32(b, 22) == object_id
    &&& be16(b, 26) == n - 32
}

/// What decoding a temperature response yields.
pub open spec fn temp_decode_spec(b: Seq<u8>) -> Result<TempFrame, DecodeError> {
    if b.len() != TEMP_FRAME_LEN {
        Err(DecodeError::Rejected)
    } else if !header_ok(b, TEMP_CLASS_ID as int, TEMP_OBJECT_ID as int) {
        Err(DecodeError::Rejected)
    } else if be16(b, 28) > MAX_OBJECT_VERSION {
        Err(DecodeError::Unsafe)
    } else if b[30] != 0 {
        Err(DecodeError::Rejected)
    } else if be16(b, 31) != TEMP_STATIC_SIZE {
        Err(DecodeError::Unsafe)
    } else if be16(b, 45) != TYMPANIC || b[47] != TYMPANIC || (b[48] != CALC_UNADJUSTED
        && b[48] != CALC_LEFT_UNADJUSTED) || be32(b, 49) != b.len() - 59 || be32(b, 53)
        != ENCAPSULATED_FLOAT_ID {
        Err(DecodeError::Rejected)
    } else if be16(b, 59) > MAX_ENCAPSULATED_VERSION {
        Err(DecodeError::Unsafe)
    } else if b[61] != 0 || be16(b, 62) != ENCAPSULATED_FLOAT_SIZE {
        Err(DecodeError::Rejected)
    } else if be16(b, 68) == STATUS_VALID {
        Ok(TempFrame::Kelvin(be32(b, 64) as u32))
    } else if be16(b, 68) == STATUS_CALCULATING {
        Ok(TempFrame::Calculating)
    } else {
        Err(DecodeError::Unsafe)
    }
}

/// The identifier field of a serial-number response, one char per byte.
pub open spec fn serial_field(b: Seq<u8>) -> Seq<char> {
    b.subrange(SERIAL_TEXT_START as int, SERIAL_TEXT_START + SERIAL_TEXT_LEN).map_values(
        |c: u8| c as char,
    )
}

/// What decoding a serial-number response yields.
pub open spec fn serial_decode_spec(b: Seq<u8>) -> Result<Seq<char>, DecodeError> {
    if b.len() != SERIAL_FRAME_LEN {
        Err(DecodeError::Rejected)
    } else if !header_ok(b, SERIAL_CLASS_ID as int, SERIAL_OBJECT_ID as int) {
        Err(DecodeError::Rejected)
    } else if be16(b, 28) > MAX_OBJECT_VERSION {
        Err(DecodeError::Unsafe)
    } else if b[30] != 0 {
        Err(DecodeError::Rejected)
    } else if be16(b, 31) != SERIAL_STATIC_SIZE {
        Err(DecodeError::Unsafe)
    } else {
        Ok(clean_name_spec(serial_field(b)))
    }
}

/// Reads one byte at the cursor and advances it.
pub fn u8_from_bytes(bytes: &[u8], index: &mut usize) -> (r: u8)
    requires
        *old(index) + 1 <= bytes@.len(),
    ensures
        r == bytes@[*old(index) as int],
        *final(index) == *old(index) + 1,
{
    let r = bytes[*index];
    *index = *index + 1;
    r
}

/// Reads a big-endian `u16` at the cursor and advances it.
pub fn u16_from_bytes(bytes: &[u8], index: &mut usize) -> (r: u16)
    requires
        *old(index) + 2 <= bytes@.len(),
    ensures
        r as int == be16(bytes@, *old(index) as int),
        *final(index) == *old(index) + 2,
{
    let hi = bytes[*index] as u16;
    let lo = bytes[*index + 1] as u16;
    *index = *index + 2;
    hi * 256 + lo
}

/// Reads a big-endian `u32` at the cursor and advances it.
pub fn u32_from_bytes(bytes: &[u8], index: &mut usize) -> (r: u32)
    requires
        *old(index) + 4 <= bytes@.len(),
    ensures
        r as int == be32(bytes@, *old(index) as int),
        *final(index) == *old(index) + 4,
{
    let hi = u16_from_bytes(bytes, index) as u32;
    let lo = u16_from_bytes(bytes, index) as u32;
    hi * 65536 + lo
}

/// Checks the message and object headers up to the object version, leaving
/// the cursor on the version field.
fn check_header(buffer: &[u8], class_id: u32, object_id: u32, index: &mut usize) -> (ok: bool)
    requires
        buffer@.len() >= 33,
        *old(index) == 0,
    ensures
        ok == header_ok(buffer@, class_id as int, object_id as int),
        *final(index) == 28,
{
    let n = buffer.len();
    let first = u8_from_bytes(buffer, index) as u32;
    let rest = u16_from_bytes(buffer, index) as u32;
    let preamble = first * 65536 + rest;
    let packet_size = u32_from_bytes(buffer, index);
    // two bytes of port numbers carry nothing the tester needs
    *index = *index + 2;
    let msg_class_id = u32_from_bytes(buffer, index);
    let msg_size = u32_from_bytes(buffer, index);
    let encrypted = u8_from_bytes(buffer, index);
    let obj_size = u32_from_bytes(buffer, index);
    let obj_id = u32_from_bytes(buffer, index);
    let inner_size = u16_from_bytes(buffer, index);
    preamble == PREAMBLE && packet_size as usize == n && msg_class_id == class_id && msg_size
        as usize == n - 19 && encrypted == 0 && obj_size as usize == n - 26 && obj_id == object_id
        && inner_size as usize == n - 32
}

/// Decodes a temperature response.
pub fn decode_temperature(buffer: &[u8]) -> (r: Result<TempFrame, DecodeError>)
    ensures
        r == temp_decode_spec(buffer@),
{
    if buffer.len() != TEMP_FRAME_LEN {
        return Err(DecodeError::Rejected);
    }
    let mut index: usize = 0;
    if !check_header(buffer, TEMP_CLASS_ID, TEMP_OBJECT_ID, &mut index) {
        return Err(DecodeError::Rejected);
    }
    let obj_version = u16_from_bytes(buffer, &mut index);
    if obj_version > MAX_OBJECT_VERSION {
        return Err(DecodeError::Unsafe);
    }
    let obj_bitmask = u8_from_bytes(buffer, &mut index);
    if obj_bitmask != 0 {
        return Err(DecodeError::Rejected);
    }
    let static_size = u16_from_bytes(buffer, &mut index);
    if static_size != TEMP_STATIC_SIZE {
        return Err(DecodeError::Unsafe);
    }
    // time stamp, status and extended status of the static prelude
    index = index + 12;
    let source = u16_from_bytes(buffer, &mut index);
    let op_mode = u8_from_bytes(buffer, &mut index);
    let calc_method = u8_from_bytes(buffer, &mut index);
    let encapsulated_size = u32_from_bytes(buffer, &mut index);
    let encapsulated_id = u32_from_bytes(buffer, &mut index);
    if source != TYMPANIC || op_mode as u16 != TYMPANIC || (calc_method != CALC_UNADJUSTED
        && calc_method != CALC_LEFT_UNADJUSTED) || encapsulated_size as usize != buffer.len() - 59
        || encapsulated_id != ENCAPSULATED_FLOAT_ID {
        return Err(DecodeError::Rejected);
    }
    // the encapsulated object's internal size is not held to any value
    index = index + 2;
    let encapsulated_version = u16_from_bytes(buffer, &mut index);
    if encapsulated_version > MAX_ENCAPSULATED_VERSION {
        return Err(DecodeError::Unsafe);
    }
    let encapsulated_bitmask = u8_from_bytes(buffer, &mut index);
    if encapsulated_bitmask != 0 {
        return Err(DecodeError::Rejected);
    }
    let variable_size = u16_from_bytes(buffer, &mut index);
    if variable_size != ENCAPSULATED_FLOAT_SIZE {
        return Err(DecodeError::Rejected);
    }
    let kelvin = u32_from_bytes(buffer, &mut index);
    let status = u16_from_bytes(buffer, &mut index);
    if status == STATUS_VALID {
        Ok(TempFrame::Kelvin(kelvin))
    } else if status == STATUS_CALCULATING {
        Ok(TempFrame::Calculating)
    } else {
        Err(DecodeError::Unsafe)
    }
}

/// Decodes a serial-number response into the device's identifier, with
/// surrounding whitespace and trailing NULs removed.
pub fn decode_serial(buffer: &[u8]) -> (r: Result<String, DecodeError>)
    ensures
        match r {
            Ok(s) => serial_decode_spec(buffer@) == Ok::<Seq<char>, DecodeError>(s@),
            Err(e) => serial_decode_spec(buffer@) == Err::<Seq<char>, DecodeError>(e),
        },
{
    if buffer.len() != SERIAL_FRAME_LEN {
        return Err(DecodeError::Rejected);
    }
    let mut index: usize = 0;
    if !check_header(buffer, SERIAL_CLASS_ID, SERIAL_OBJECT_ID, &mut index) {
        return Err(DecodeError::Rejected);
    }
    let obj_version = u16_from_bytes(buffer, &mut index);
    if obj_version > MAX_OBJECT_VERSION {
        return Err(DecodeError::Unsafe);
    }
    let obj_bitmask = u8_from_bytes(buffer, &mut index);
    if obj_bitmask != 0 {
        return Err(DecodeError::Rejected);
    }
    let static_size = u16_from_bytes(buffer, &mut index);
    if static_size != SERIAL_STATIC_SIZE {
        return Err(DecodeError::Unsafe);
    }
    let raw = latin1_string(buffer, SERIAL_TEXT_START, SERIAL_TEXT_START + SERIAL_TEXT_LEN);
    let serial = clean_name(raw.as_str());
    Ok(serial)
}

/// The bytes of each fixed request, checksum included.
pub open spec fn request_bytes(kind: Request) -> Seq<u8> {
    match kind {
        Request::Temperature => seq![
            0x17u8, 0x01, 0x0c, 0x00, 0x00, 0x00, 0x1a, 0x01, 0x19, 0x00, 0x03, 0x0b, 0x00,
            0x00, 0x00, 0x00, 0x07, 0x00, 0x00, 0x00, 0x00, 0x00, 0xe9, 0x32, 0x94, 0xfe,
        ],
        Request::Serial => seq![
            0x17u8, 0x01, 0x0c, 0x00, 0x00, 0x00, 0x1a, 0x01, 0x19, 0x00, 0x18, 0x0b, 0x00,
            0x00, 0x00, 0x00, 0x07, 0x00, 0x00, 0x00, 0x00, 0x00, 0x71, 0xe8, 0x80, 0x3e,
        ],
    }
}

/// A request frame is recognised by its length and by every byte before
/// the checksum.
pub open spec fn request_decode_spec(b: Seq<u8>) -> Option<Request> {
    if b.len() == REQUEST_LEN && b.subrange(0, REQUEST_BODY_LEN as int) == request_bytes(
        Request::Temperature,
    ).subrange(0, REQUEST_BODY_LEN as int) {
        Some(Request::Temperature)
    } else if b.len() == REQUEST_LEN && b.subrange(0, REQUEST_BODY_LEN as int) == request_bytes(
        Request::Serial,
    ).subrange(0, REQUEST_BODY_LEN as int) {
        Some(Request::Serial)
    } else {
        None
    }
}

/// The frame that asks the device for `kind`.
pub fn encode_request(kind: Request) -> (r: Vec<u8>)
    ensures
        r@ == request_bytes(kind),
{
    let r = match kind {
        Request::Temperature => vec![
            0x17u8, 0x01, 0x0c, 0x00, 0x00, 0x00, 0x1a, 0x01, 0x19, 0x00, 0x03, 0x0b, 0x00,
            0x00, 0x00, 0x00, 0x07, 0x00, 0x00, 0x00, 0x00, 0x00, 0xe9, 0x32, 0x94, 0xfe,
        ],
        Request::Serial => vec![
            0x17u8, 0x01, 0x0c, 0x00, 0x00, 0x00, 0x1a, 0x01, 0x19, 0x00, 0x18, 0x0b, 0x00,
            0x00, 0x00, 0x00, 0x07, 0x00, 0x00, 0x00, 0x00, 0x00, 0x71, 0xe8, 0x80, 0x3e,
        ],
    };
    assert(r@ =~= request_bytes(kind));
    r
}

/// Whether the first `n` bytes of `a` and `b` agree.
fn same_prefix(a: &[u8], b: &Vec<u8>, n: usize) -> (r: bool)
    requires
        n <= a@.len(),
        n <= b@.len(),
    ensures
        r == (a@.subrange(0, n as int) == b@.subrange(0, n as int)),
{
    let mut i: usize = 0;
    while i < n
        invariant
            i <= n <= a@.len(),
            n <= b@.len(),
            a@.subrange(0, i as int) == b@.subrange(0, i as int),
        decreases n - i,
    {
        if a[i] != b[i] {
            assert(a@.subrange(0, n as int)[i as int] != b@.subrange(0, n as int)[i as int]);
            return false;
        }
        assert(a@.subrange(0, i + 1) =~= a@.subrange(0, i as int).push(a@[i as int]));
        assert(b@.subrange(0, i + 1) =~= b@.subrange(0, i as int).push(b@[i as int]));
        i = i + 1;
    }
    true
}

/// Recognises one of the fixed request frames, ignoring its checksum.
pub fn decode_request(frame: &[u8]) -> (r: Option<Request>)
    ensures
        r == request_decode_spec(frame@),
{
    if frame.len() != REQUEST_LEN {
        return None;
    }
    let temp = encode_request(Request::Temperature);
    if same_prefix(frame, &temp, REQUEST_BODY_LEN) {
        return Some(Request::Temperature);
    }
    let serial = encode_request(Request::Serial);
    if same_prefix(frame, &serial, REQUEST_BODY_LEN) {
        return Some(Request::Serial);
    }
    None
}

/// Encoding a request and decoding the frame gives the request back, and a
/// frame that decodes to a request agrees with that request's encoding on
/// every byte but the trailing checksum.
pub proof fn lemma_request_round_trip(kind: Request, frame: Seq<u8>)
    ensures
        request_decode_spec(request_bytes(kind)) == Some(kind),
        request_decode_spec(frame) == Some(kind) ==> frame.len() == request_bytes(kind).len()
            && frame.subrange(0, REQUEST_BODY_LEN as int) == request_bytes(kind).subrange(
            0,
            REQUEST_BODY_LEN as int,
        ),
{
    let t = request_bytes(Request::Temperature).subrange(0, REQUEST_BODY_LEN as int);
    let s = request_bytes(Request::Serial).subrange(0, REQUEST_BODY_LEN as int);
    assert(t[10] != s[10]);
}

/// A buffer of any length but the two response lengths yields no value from
/// either decoder, whatever it holds.
pub proof fn lemma_wrong_size_rejected(b: Seq<u8>)
    requires
        b.len() != TEMP_FRAME_LEN,
        b.len() != SERIAL_FRAME_LEN,
    ensures
        temp_decode_spec(b) == Err::<TempFrame, DecodeError>(DecodeError::Rejected),
        serial_decode_spec(b) == Err::<Seq<char>, DecodeError>(DecodeError::Rejected),
{
}

} // verus!
