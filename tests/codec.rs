use lora_link::{
    calculate_crc16, decode_ack, decode_reading, encode_ack, encode_reading, AckPacket,
    SensorDataPacket, MSG_TYPE_ACK, MSG_TYPE_NACK,
};

#[test]
fn reading_layout_is_big_endian() {
    let r = SensorDataPacket { seq_num: 0x0102, temperature: -2, humidity: 5600, gas_resistance: 0x0A0B0C0D };
    assert_eq!(encode_reading(r), vec![0x01, 0x02, 0xFF, 0xFE, 0x15, 0xE0, 0x0A, 0x0B, 0x0C, 0x0D]);
}

#[test]
fn reading_round_trip() {
    let cases = [
        SensorDataPacket { seq_num: 1, temperature: 2710, humidity: 5600, gas_resistance: 123_456 },
        SensorDataPacket { seq_num: 65535, temperature: i16::MIN, humidity: 0, gas_resistance: u32::MAX },
        SensorDataPacket { seq_num: 0, temperature: i16::MAX, humidity: 10000, gas_resistance: 0 },
        SensorDataPacket { seq_num: 300, temperature: -1, humidity: 1, gas_resistance: 256 },
    ];
    for r in cases {
        assert_eq!(decode_reading(&encode_reading(r)), Some(r));
    }
}

#[test]
fn reading_decode_rejects_bad_input() {
    assert_eq!(decode_reading(&[0u8; 9]), None);
    assert_eq!(decode_reading(&[0u8; 11]), None);
    // humidity 10001 basis points
    assert_eq!(decode_reading(&[0, 1, 0, 0, 0x27, 0x11, 0, 0, 0, 0]), None);
}

#[test]
fn ack_decoded_from_hand_built_bytes() {
    assert_eq!(decode_ack(&[1, 0, 1]), Some(AckPacket { msg_type: MSG_TYPE_ACK, seq_num: 1 }));
    assert_eq!(decode_ack(&[2, 0x12, 0x34]), Some(AckPacket { msg_type: MSG_TYPE_NACK, seq_num: 0x1234 }));
    assert_eq!(decode_ack(&[1, 0xFF, 0xFF, 9, 9]), Some(AckPacket { msg_type: MSG_TYPE_ACK, seq_num: 65535 }));
}

#[test]
fn ack_decode_rejects_bad_input() {
    assert_eq!(decode_ack(&[]), None);
    assert_eq!(decode_ack(&[1, 0]), None);
    assert_eq!(decode_ack(&[0, 0, 1]), None);
    assert_eq!(decode_ack(&[3, 0, 1]), None);
}

#[test]
fn ack_round_trip() {
    for m in [
        AckPacket { msg_type: MSG_TYPE_ACK, seq_num: 0 },
        AckPacket { msg_type: MSG_TYPE_NACK, seq_num: 7 },
        AckPacket { msg_type: MSG_TYPE_ACK, seq_num: 65535 },
    ] {
        let bytes = encode_ack(m);
        assert_eq!(bytes.len(), 3);
        assert_eq!(decode_ack(&bytes), Some(m));
    }
    assert_eq!(encode_ack(AckPacket { msg_type: MSG_TYPE_NACK, seq_num: 0x0102 }), vec![2, 1, 2]);
}

#[test]
fn checksum_known_vectors() {
    assert_eq!(calculate_crc16(b"123456789"), 0x29B1);
    assert_eq!(calculate_crc16(b""), 0xFFFF);
}

#[test]
fn checksum_is_deterministic() {
    let data = [0x10u8, 0x20, 0x30, 0x40, 0x50];
    assert_eq!(calculate_crc16(&data), calculate_crc16(&data.clone()));
}

#[test]
fn checksum_detects_single_bit_flips() {
    let data = encode_reading(SensorDataPacket { seq_num: 42, temperature: 2310, humidity: 4500, gas_resistance: 98_765 });
    let base = calculate_crc16(&data);
    for i in 0..data.len() {
        for bit in 0..8 {
            let mut flipped = data.clone();
            flipped[i] ^= 1 << bit;
            assert_ne!(calculate_crc16(&flipped), base);
        }
    }
}
