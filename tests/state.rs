use lora_link::{
    AckPacket, NodeController, RxBuffer, TxState, ACK_TIMEOUT_SECS, AUTO_TX_INTERVAL_SECS,
    MAX_RETRIES, MSG_TYPE_ACK, MSG_TYPE_NACK, RX_CAPACITY,
};

fn waiting(seq_num: u16, timeout_counter: u32, retry_count: u8) -> TxState {
    TxState::WaitingForAck { seq_num, timeout_counter, retry_count }
}

#[test]
fn unanswered_packet_is_abandoned_after_retries() {
    let mut s = TxState::Idle;
    assert!(s.is_idle());
    s.arm(5);
    assert_eq!(s, waiting(5, ACK_TIMEOUT_SECS, 0));
    let expected = [
        waiting(5, 1, 0),
        waiting(5, 0, 0),
        waiting(5, 2, 1),
        waiting(5, 1, 1),
        waiting(5, 0, 1),
        waiting(5, 2, 2),
        waiting(5, 1, 2),
        waiting(5, 0, 2),
        TxState::Idle,
    ];
    assert_eq!(expected.len(), ((ACK_TIMEOUT_SECS + 1) * MAX_RETRIES as u32) as usize);
    for e in expected {
        s.tick();
        assert_eq!(s, e);
    }
    s.tick();
    assert_eq!(s, TxState::Idle);
}

#[test]
fn matching_ack_ends_wait() {
    for retry in 0..=3u8 {
        let mut s = waiting(9, 1, retry);
        s.handle_ack(AckPacket { msg_type: MSG_TYPE_ACK, seq_num: 9 });
        assert_eq!(s, TxState::Idle);
    }
}

#[test]
fn mismatched_ack_is_ignored() {
    let mut s = waiting(9, 2, 1);
    s.handle_ack(AckPacket { msg_type: MSG_TYPE_ACK, seq_num: 8 });
    assert_eq!(s, waiting(9, 2, 1));
    s.handle_ack(AckPacket { msg_type: MSG_TYPE_NACK, seq_num: 10 });
    assert_eq!(s, waiting(9, 2, 1));
}

#[test]
fn matching_nack_forces_retry() {
    let mut s = waiting(4, 2, 0);
    s.handle_ack(AckPacket { msg_type: MSG_TYPE_NACK, seq_num: 4 });
    assert_eq!(s, waiting(4, 0, 1));
    s.tick();
    assert_eq!(s, waiting(4, ACK_TIMEOUT_SECS, 2));
}

#[test]
fn nack_with_retries_used_up_abandons() {
    let mut s = waiting(4, 2, MAX_RETRIES);
    s.handle_ack(AckPacket { msg_type: MSG_TYPE_NACK, seq_num: 4 });
    assert_eq!(s, TxState::Idle);
}

#[test]
fn ack_while_idle_is_ignored() {
    let mut s = TxState::Idle;
    s.handle_ack(AckPacket { msg_type: MSG_TYPE_ACK, seq_num: 0 });
    assert_eq!(s, TxState::Idle);
    s.handle_ack(AckPacket { msg_type: MSG_TYPE_NACK, seq_num: 0 });
    assert_eq!(s, TxState::Idle);
}

#[test]
fn rx_buffer_yields_ack_on_line_end() {
    let mut rx = RxBuffer::new();
    let line = b"+RCV=2,3,\x01\x00\x07,-40,11\r\n";
    for (i, &b) in line.iter().enumerate() {
        let r = rx.feed(b);
        if i + 1 < line.len() {
            assert_eq!(r, None);
            assert_eq!(rx.len(), i + 1);
        } else {
            assert_eq!(r, Some(AckPacket { msg_type: MSG_TYPE_ACK, seq_num: 7 }));
        }
    }
    assert_eq!(rx.len(), 0);
}

#[test]
fn rx_buffer_clears_on_malformed_line() {
    let mut rx = RxBuffer::new();
    for &b in b"+OK\r\n" {
        assert_eq!(rx.feed(b), None);
    }
    assert_eq!(rx.len(), 0);
}

#[test]
fn rx_buffer_overflow_clears() {
    let mut rx = RxBuffer::new();
    for i in 0..RX_CAPACITY {
        assert_eq!(rx.push(i as u8), Ok(()));
    }
    assert_eq!(rx.push(1), Err(1));
    assert_eq!(rx.len(), RX_CAPACITY);
    assert_eq!(rx.as_slice()[5], 5);
    assert_eq!(rx.feed(b'a'), None);
    assert_eq!(rx.len(), 0);
    assert_eq!(rx.feed(b'b'), None);
    assert_eq!(rx.as_slice(), b"b");
    rx.clear();
    assert_eq!(rx.len(), 0);
}

#[test]
fn node_transmits_on_countdown_and_button() {
    let mut node = NodeController::new();
    for _ in 0..AUTO_TX_INTERVAL_SECS - 1 {
        assert!(!node.on_tick(false));
    }
    assert!(node.on_tick(false));
    assert_eq!(node.tx_countdown, AUTO_TX_INTERVAL_SECS);
    let frame = node.begin_transmission(2310, 4500, 1000).unwrap();
    assert!(frame.starts_with(b"AT+SEND=2,12,\x00\x01\x09\x06\x11\x94\x00\x00\x03\xE8"));
    node.transmitted();
    assert_eq!(node.tx_state, TxState::WaitingForAck { seq_num: 1, timeout_counter: 2, retry_count: 0 });
    // a button press while the packet is in flight is dropped
    assert!(!node.on_tick(true));
    assert_eq!(node.begin_transmission(1, 1, 1), None);
    assert_eq!(node.packet_counter, 1);
    node.on_ack(AckPacket { msg_type: MSG_TYPE_ACK, seq_num: 1 });
    assert_eq!(node.tx_state, TxState::Idle);
    assert!(node.on_tick(true));
    let frame = node.begin_transmission(-5, 0, 0).unwrap();
    assert!(frame.starts_with(b"AT+SEND=2,12,\x00\x02\xFF\xFB"));
}

#[test]
fn node_abandoned_packet_frees_same_tick() {
    let mut node = NodeController::new();
    assert!(node.on_tick(true));
    node.begin_transmission(0, 0, 0).unwrap();
    node.transmitted();
    let mut sent_again = false;
    for _ in 0..8 {
        sent_again |= node.on_tick(true);
    }
    assert!(!sent_again);
    assert!(node.on_tick(true));
}
