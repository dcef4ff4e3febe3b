use lora_link::{build_frame, calculate_crc16, push_decimal};

#[test]
fn frame_of_four_byte_payload() {
    let payload = [0xDEu8, 0xAD, 0xBE, 0xEF];
    let crc = calculate_crc16(&payload);
    let frame = build_frame(2, &payload);
    assert!(frame.starts_with(b"AT+SEND=2,6,"));
    let n = frame.len();
    assert_eq!(&frame[12..16], &payload);
    assert_eq!(frame[n - 4], (crc >> 8) as u8);
    assert_eq!(frame[n - 3], (crc & 0xFF) as u8);
    assert_eq!(&frame[n - 2..], b"\r\n");
    assert_eq!(n, 12 + 4 + 2 + 2);
}

#[test]
fn frame_of_known_checksum() {
    let frame = build_frame(17, b"123456789");
    let mut expected = b"AT+SEND=17,11,123456789".to_vec();
    expected.extend_from_slice(&[0x29, 0xB1, b'\r', b'\n']);
    assert_eq!(frame, expected);
}

#[test]
fn frame_of_empty_payload() {
    assert_eq!(build_frame(0, &[]), b"AT+SEND=0,2,\xFF\xFF\r\n".to_vec());
}

#[test]
fn frame_with_large_address() {
    let frame = build_frame(65535, &[7u8; 10]);
    assert!(frame.starts_with(b"AT+SEND=65535,12,"));
}

#[test]
fn decimal_digits() {
    let mut out = vec![b'x'];
    push_decimal(&mut out, 0);
    push_decimal(&mut out, 1203);
    assert_eq!(out, b"x01203".to_vec());
}
