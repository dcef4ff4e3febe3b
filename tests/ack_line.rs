use lora_link::{parse_ack_message, AckPacket, MSG_TYPE_ACK, MSG_TYPE_NACK};

#[test]
fn ack_line_with_ack_payload() {
    let line = b"+RCV=2,3,\x01\x00\x01,-42,9\r\n";
    assert_eq!(parse_ack_message(line), Some(AckPacket { msg_type: MSG_TYPE_ACK, seq_num: 1 }));
}

#[test]
fn ack_line_with_nack_payload_holding_commas() {
    let line = b"+RCV=2,3,\x02,,,-42,9\r\n";
    assert_eq!(parse_ack_message(line), Some(AckPacket { msg_type: MSG_TYPE_NACK, seq_num: 0x2C2C }));
}

#[test]
fn ack_line_without_prefix() {
    assert_eq!(parse_ack_message(b"+RCX=2,3,\x01\x00\x01,-42,9\r\n"), None);
    assert_eq!(parse_ack_message(b"RCV=2,3,\x01\x00\x01,-42,9\r\n"), None);
}

#[test]
fn ack_line_length_beyond_buffer() {
    assert_eq!(parse_ack_message(b"+RCV=2,30,\x01\x00\x01,-42,9\r\n"), None);
    assert_eq!(parse_ack_message(b"+RCV=2,99999999999999999999999,\x01\x00\x01\r\n"), None);
}

#[test]
fn ack_line_length_exactly_to_end() {
    assert_eq!(parse_ack_message(b"+RCV=12,3,\x01\x00\x05"), Some(AckPacket { msg_type: MSG_TYPE_ACK, seq_num: 5 }));
    assert_eq!(parse_ack_message(b"+RCV=12,4,\x01\x00\x05"), None);
}

#[test]
fn ack_line_malformed_length_field() {
    assert_eq!(parse_ack_message(b"+RCV=2,x3,\x01\x00\x01,-42,9\r\n"), None);
    assert_eq!(parse_ack_message(b"+RCV=2,,\x01\x00\x01,-42,9\r\n"), None);
    assert_eq!(parse_ack_message(b"+RCV=2,-3,\x01\x00\x01,-42,9\r\n"), None);
    assert_eq!(parse_ack_message(b"+RCV=2,+,\x01\x00\x01,-42,9\r\n"), None);
}

#[test]
fn ack_line_plus_signed_length() {
    assert_eq!(parse_ack_message(b"+RCV=2,+3,\x01\x00\x01,-42,9\r\n"), Some(AckPacket { msg_type: MSG_TYPE_ACK, seq_num: 1 }));
}

#[test]
fn ack_line_missing_commas() {
    assert_eq!(parse_ack_message(b"+RCV=2;3;\x01\x00\x01\r\n"), None);
    assert_eq!(parse_ack_message(b"+RCV=23\x01\x00\x01,\r\n"), None);
}

#[test]
fn ack_line_too_short() {
    assert_eq!(parse_ack_message(b"+RCV=1,1,"), None);
    assert_eq!(parse_ack_message(b""), None);
}

#[test]
fn ack_line_bad_payload() {
    assert_eq!(parse_ack_message(b"+RCV=2,3,\x07\x00\x01,-42,9\r\n"), None);
    assert_eq!(parse_ack_message(b"+RCV=2,2,\x01\x00,-42,9\r\n"), None);
}

#[test]
fn ack_line_arbitrary_buffers_do_not_panic() {
    let mut seed: u32 = 12345;
    for len in 0..200usize {
        let mut buf = b"+RCV=".to_vec();
        for _ in 0..len {
            seed = seed.wrapping_mul(1_103_515_245).wrapping_add(12345);
            let pick = (seed >> 16) % 6;
            buf.push(match pick {
                0 => b',',
                1 => b'0' + ((seed >> 8) % 10) as u8,
                2 => b'+',
                _ => (seed >> 4) as u8,
            });
        }
        let _ = parse_ack_message(&buf);
        let _ = parse_ack_message(&buf[5..]);
    }
}
