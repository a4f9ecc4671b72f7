use disco_tester::codec::{
    decode_request, decode_serial, decode_temperature, encode_request, DecodeError, Request,
    TempFrame,
};
use disco_tester::session::{temperature_step, DeviceIdentity, ReadStep, MAX_TEMP_RETRIES};

fn put_u16(b: &mut [u8], at: usize, v: u16) {
    b[at..at + 2].copy_from_slice(&v.to_be_bytes());
}

fn put_u32(b: &mut [u8], at: usize, v: u32) {
    b[at..at + 4].copy_from_slice(&v.to_be_bytes());
}

fn temp_frame(kelvin: [u8; 4], status: u16) -> Vec<u8> {
    let mut b = vec![0u8; 78];
    b[0..3].copy_from_slice(&[0x17, 0x01, 0x0c]);
    put_u32(&mut b, 3, 78);
    put_u32(&mut b, 9, 0x00030f00);
    put_u32(&mut b, 13, 78 - 19);
    put_u32(&mut b, 18, 78 - 26);
    put_u32(&mut b, 22, 0x00030001);
    put_u16(&mut b, 26, 78 - 32);
    put_u16(&mut b, 28, 0x00cd);
    put_u16(&mut b, 31, 0x0010);
    put_u16(&mut b, 41, 0x0001);
    put_u16(&mut b, 45, 0x000f);
    b[47] = 0x0f;
    b[48] = 0x0c;
    put_u32(&mut b, 49, 78 - 59);
    put_u32(&mut b, 53, 0x0075001f);
    put_u16(&mut b, 57, 6);
    put_u16(&mut b, 59, 0x00c8);
    put_u16(&mut b, 62, 6);
    b[64..68].copy_from_slice(&kelvin);
    put_u16(&mut b, 68, status);
    b[74..78].copy_from_slice(&[0xde, 0xad, 0xbe, 0xef]);
    b
}

fn serial_frame(text: &[u8; 16]) -> Vec<u8> {
    let mut b = vec![0u8; 147];
    b[0..3].copy_from_slice(&[0x17, 0x01, 0x0c]);
    put_u32(&mut b, 3, 147);
    put_u32(&mut b, 9, 0x00180f00);
    put_u32(&mut b, 13, 147 - 19);
    put_u32(&mut b, 18, 147 - 26);
    put_u32(&mut b, 22, 0x00180000);
    put_u16(&mut b, 26, 147 - 32);
    put_u16(&mut b, 28, 0x00cd);
    put_u16(&mut b, 31, 0x006c);
    b[77..93].copy_from_slice(text);
    b
}

const KELVIN_302_16: [u8; 4] = [0x43, 0x97, 0x14, 0x7b];

#[test]
fn decodes_canonical_temperature_frame() {
    let frame = temp_frame(KELVIN_302_16, 0x0001);
    let bits = match decode_temperature(&frame) {
        Ok(TempFrame::Kelvin(bits)) => bits,
        other => panic!("unexpected {:?}", other),
    };
    assert_eq!(bits, 0x4397147b);
    let kelvin = f32::from_bits(bits);
    assert_eq!(kelvin, f32::from_be_bytes(KELVIN_302_16));
    let celsius = kelvin - 273.15;
    assert!((celsius - 29.01).abs() < 1e-3, "celsius {}", celsius);
}

#[test]
fn kelvin_bits_follow_the_float_bytes() {
    for bytes in [[0x43, 0x9a, 0x00, 0x00], [0x00, 0x00, 0x00, 0x00], [0xff, 0x7f, 0xff, 0xff]] {
        let frame = temp_frame(bytes, 0x0001);
        assert_eq!(decode_temperature(&frame), Ok(TempFrame::Kelvin(u32::from_be_bytes(bytes))));
    }
}

#[test]
fn calculating_status_asks_for_retry() {
    let frame = temp_frame(KELVIN_302_16, 0x0080);
    assert_eq!(decode_temperature(&frame), Ok(TempFrame::Calculating));
    assert_eq!(temperature_step(0, &frame), ReadStep::Retry);
    assert_eq!(temperature_step(MAX_TEMP_RETRIES, &frame), ReadStep::NoValue);
}

#[test]
fn three_retries_then_value() {
    let pending = temp_frame(KELVIN_302_16, 0x0080);
    let valid = temp_frame(KELVIN_302_16, 0x0001);
    let frames = [&pending, &pending, &pending, &valid];
    let mut retries: u32 = 0;
    let mut result = None;
    for frame in frames {
        match temperature_step(retries, frame) {
            ReadStep::Retry => retries += 1,
            ReadStep::Value(bits) => {
                result = Some(bits);
                break;
            }
            other => panic!("unexpected {:?}", other),
        }
    }
    assert_eq!(retries, 3);
    assert_eq!(result, Some(0x4397147b));
}

#[test]
fn unknown_status_is_unsafe() {
    let frame = temp_frame(KELVIN_302_16, 0x0002);
    assert_eq!(decode_temperature(&frame), Err(DecodeError::Unsafe));
    assert_eq!(temperature_step(0, &frame), ReadStep::Halt);
}

#[test]
fn newer_versions_are_unsafe() {
    let mut frame = temp_frame(KELVIN_302_16, 0x0001);
    put_u16(&mut frame, 28, 0x00ce);
    assert_eq!(decode_temperature(&frame), Err(DecodeError::Unsafe));
    let mut frame = temp_frame(KELVIN_302_16, 0x0001);
    put_u16(&mut frame, 59, 0x00c9);
    assert_eq!(decode_temperature(&frame), Err(DecodeError::Unsafe));
    let mut frame = temp_frame(KELVIN_302_16, 0x0001);
    put_u16(&mut frame, 31, 0x0011);
    assert_eq!(decode_temperature(&frame), Err(DecodeError::Unsafe));
}

#[test]
fn malformed_temperature_frames_are_rejected() {
    let cases: [(usize, u8); 6] = [(0, 0x18), (6, 0x4f), (12, 0x01), (17, 0x01), (47, 0x01), (48, 0x0e)];
    for (at, value) in cases {
        let mut frame = temp_frame(KELVIN_302_16, 0x0001);
        frame[at] = value;
        assert_eq!(decode_temperature(&frame), Err(DecodeError::Rejected), "byte {}", at);
        assert_eq!(temperature_step(0, &frame), ReadStep::NoValue);
    }
}

#[test]
fn left_unadjusted_mode_is_tolerated() {
    let mut frame = temp_frame(KELVIN_302_16, 0x0001);
    frame[48] = 0x0d;
    assert_eq!(decode_temperature(&frame), Ok(TempFrame::Kelvin(0x4397147b)));
}

#[test]
fn other_sizes_give_no_value() {
    for len in [0usize, 1, 26, 77, 79, 146, 148, 300] {
        let buffer = vec![0x17u8; len];
        assert_eq!(decode_temperature(&buffer), Err(DecodeError::Rejected));
        assert_eq!(decode_serial(&buffer), Err(DecodeError::Rejected));
        let id = DeviceIdentity::from_response(&buffer).ok().unwrap();
        assert_eq!(id.serial(), "Invalid device!");
    }
    let serial = serial_frame(b"SN-000123\0\0\0\0\0\0\0");
    assert_eq!(decode_temperature(&serial), Err(DecodeError::Rejected));
}

#[test]
fn decodes_serial_frame() {
    let frame = serial_frame(b"SN-000123\0\0\0\0\0\0\0");
    assert_eq!(decode_serial(&frame), Ok("SN-000123".to_string()));
    let id = DeviceIdentity::from_response(&frame).ok().unwrap();
    assert_eq!(id.serial(), "SN-000123");
    assert_eq!(id.serial(), id.serial());
    assert!(id.is_known());
}

#[test]
fn serial_is_trimmed() {
    let frame = serial_frame(b"  AB 12\t\0\0\0\0\0\0\0\0");
    assert_eq!(decode_serial(&frame), Ok("AB 12\t".to_string()));
    let frame = serial_frame(b" \0\0\0\0\0\0\0\0\0\0\0\0\0\0\0");
    assert_eq!(decode_serial(&frame), Ok("".to_string()));
    let id = DeviceIdentity::from_response(&frame).ok().unwrap();
    assert_eq!(id.serial(), "unknown");
    assert!(!id.is_known());
}

#[test]
fn malformed_serial_frame_gives_sentinel() {
    let mut frame = serial_frame(b"SN-000123\0\0\0\0\0\0\0");
    put_u32(&mut frame, 22, 0x00030001);
    assert_eq!(decode_serial(&frame), Err(DecodeError::Rejected));
    let id = DeviceIdentity::from_response(&frame).ok().unwrap();
    assert_eq!(id.serial(), "Invalid device!");
    let mut frame = serial_frame(b"SN-000123\0\0\0\0\0\0\0");
    put_u16(&mut frame, 28, 0x0100);
    assert_eq!(decode_serial(&frame), Err(DecodeError::Unsafe));
    assert!(DeviceIdentity::from_response(&frame).is_err());
}

#[test]
fn requests_round_trip() {
    let temp = encode_request(Request::Temperature);
    let serial = encode_request(Request::Serial);
    assert_eq!(temp.len(), 26);
    assert_eq!(
        temp,
        b"\x17\x01\x0c\x00\x00\x00\x1a\x01\x19\x00\x03\x0b\x00\x00\x00\x00\x07\x00\x00\x00\x00\x00\xe9\x32\x94\xfe".to_vec()
    );
    assert_eq!(
        serial,
        b"\x17\x01\x0c\x00\x00\x00\x1a\x01\x19\x00\x18\x0b\x00\x00\x00\x00\x07\x00\x00\x00\x00\x00\x71\xe8\x80\x3e".to_vec()
    );
    assert_eq!(decode_request(&temp), Some(Request::Temperature));
    assert_eq!(decode_request(&serial), Some(Request::Serial));
    let mut other_crc = temp.clone();
    other_crc[25] ^= 0xff;
    assert_eq!(decode_request(&other_crc), Some(Request::Temperature));
    let mut other_body = temp.clone();
    other_body[16] = 0x08;
    assert_eq!(decode_request(&other_body), None);
    assert_eq!(decode_request(&temp[..25]), None);
}

#[test]
fn wrong_encapsulated_variable_size_gives_no_value() {
    let mut frame = temp_frame(KELVIN_302_16, 0x0001);
    put_u16(&mut frame, 62, 7);
    assert_eq!(decode_temperature(&frame), Err(DecodeError::Rejected));
    assert_eq!(temperature_step(0, &frame), ReadStep::NoValue);
}
