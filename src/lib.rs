//! Reliable delivery of sensor readings over a half-duplex radio link.
//!
//! The library holds the transport core of a sensor node: the binary codec of
//! readings and acknowledgments, the CRC-16 checksum, the framing of outgoing
//! packets, the parser of the radio's receive lines, the fixed-capacity receive
//! accumulator, and the transmission state machine with its timeout and retry
//! counting. It also holds the log-line scraper used by the host-side gateway.

mod ack_line;
mod checksum;
mod codec;
mod frame;
mod log_line;
mod node;
mod rx_buffer;
mod tx_state;

pub use ack_line::{ack_line_of, parse_ack_message, MIN_LINE_LEN};
pub use checksum::{calculate_crc16, crc16_of, lemma_checksum_deterministic};
pub use codec::{
    ack_bytes, ack_of, be16, be32, decode_ack, decode_reading, encode_ack, encode_reading,
    lemma_ack_round_trip, lemma_reading_round_trip, reading_bytes, reading_of, AckPacket,
    SensorDataPacket, ACK_LEN, MAX_HUMIDITY, MSG_TYPE_ACK, MSG_TYPE_NACK, READING_LEN,
};
pub use frame::{build_frame, decimal, frame_bytes, push_decimal};
pub use log_line::{extract_json_from_log_line, json_of_line};
pub use node::{
    countdown_after, next_count, seq_of, triggered, NodeController, AUTO_TX_INTERVAL_SECS,
    GATEWAY_ADDRESS,
};
pub use rx_buffer::{after_byte, held_bytes, RxBuffer, RX_CAPACITY};
pub use tx_state::{
    after_ack, aged, aged_n, armed, lemma_ack_outcome, lemma_nack_outcome,
    lemma_unanswered_packet_abandoned, TxState, ACK_TIMEOUT_SECS, MAX_RETRIES,
};
