//! The decisions of the node's two interrupt paths, apart from the hardware.
//!
//! The periodic tick ages the wait for an acknowledgment, counts down to the
//! next automatic transmission, and decides whether a reading is to be sent.
//! The receive path hands each acknowledgment it reads to the same state. The
//! runtime performs what is decided: it samples the sensors, writes the frame
//! to the radio, and reports back.
use vstd::prelude::*;
use crate::codec::{encode_reading, reading_bytes, AckPacket, SensorDataPacket};
use crate::frame::{build_frame, frame_bytes};
use crate::tx_state::{after_ack, aged, armed, TxState};

verus! {

/// Ticks between automatic transmissions.
pub const AUTO_TX_INTERVAL_SECS: u32 = 10;

/// Radio address of the gateway node.
pub const GATEWAY_ADDRESS: u16 = 2;

/// A tick triggers a transmission when the button is held or the countdown
/// to the next automatic one runs out.
pub open spec fn triggered(countdown: u32, button_pressed: bool) -> bool {
    button_pressed || countdown <= 1
}

/// The countdown after a tick: restarted when the tick triggered a
/// transmission, else one less.
pub open spec fn countdown_after(countdown: u32, button_pressed: bool) -> u32 {
    if triggered(countdown, button_pressed) {
        AUTO_TX_INTERVAL_SECS
    } else {
        (countdown - 1) as u32
    }
}

/// The packet counter after one more packet, wrapping at 2^32.
pub open spec fn next_count(c: u32) -> u32 {
    ((c + 1) % 0x1_0000_0000) as u32
}

/// Sequence number of the packet with the given count, wrapping at 65536.
pub open spec fn seq_of(c: u32) -> u16 {
    (c % 0x1_0000) as u16
}

/// State shared by the node's tick and receive paths.
pub struct NodeController {
    /// Transmission state machine.
    pub tx_state: TxState,
    /// Ticks left until the next automatic transmission.
    pub tx_countdown: u32,
    /// Number of packets prepared so far.
    pub packet_counter: u32,
}

impl NodeController {
    /// A packet in flight is always the last one prepared.
    pub open spec fn wf(&self) -> bool {
        self.tx_state is WaitingForAck ==> self.tx_state->seq_num == seq_of(self.packet_counter)
    }

    /// The state at start-up: idle, no packet sent, a full countdown.
    pub fn new() -> (r: NodeController)
        ensures
            r.wf(),
            r.tx_state == TxState::Idle,
            r.tx_countdown == AUTO_TX_INTERVAL_SECS,
            r.packet_counter == 0,
    {
        NodeController { tx_state: TxState::Idle, tx_countdown: AUTO_TX_INTERVAL_SECS, packet_counter: 0 }
    }

    /// One periodic tick. The wait for an acknowledgment is aged first, so a
    /// packet abandoned on this tick lets a new one go out on the same tick.
    /// Returns whether a reading is to be taken and sent now: the tick
    /// triggered a transmission and no packet is in flight.
    pub fn on_tick(&mut self, button_pressed: bool) -> (transmit: bool)
        requires
            old(self).wf(),
        ensures
            final(self).wf(),
            final(self).tx_state == aged(old(self).tx_state),
            final(self).tx_countdown == countdown_after(old(self).tx_countdown, button_pressed),
            final(self).packet_counter == old(self).packet_counter,
            transmit == (triggered(old(self).tx_countdown, button_pressed) && aged(
                old(self).tx_state,
            ) is Idle),
    {
        self.tx_state.tick();
        let mut should_transmit = false;
        if button_pressed {
            should_transmit = true;
            self.tx_countdown = AUTO_TX_INTERVAL_SECS;
        } else {
            if self.tx_countdown > 0 {
                self.tx_countdown = self.tx_countdown - 1;
            }
            if self.tx_countdown == 0 {
                should_transmit = true;
                self.tx_countdown = AUTO_TX_INTERVAL_SECS;
            }
        }
        should_transmit && self.tx_state.is_idle()
    }

    /// Prepares the frame that carries a fresh reading, numbered with the next
    /// sequence number. While a packet is in flight the reading is dropped:
    /// nothing changes and `None` is returned.
    pub fn begin_transmission(&mut self, temperature: i16, humidity: u16, gas_resistance: u32) -> (r:
        Option<Vec<u8>>)
        requires
            old(self).wf(),
        ensures
            final(self).wf(),
            final(self).tx_state == old(self).tx_state,
            final(self).tx_countdown == old(self).tx_countdown,
            old(self).tx_state is WaitingForAck ==> r is None && final(self).packet_counter == old(
                self,
            ).packet_counter,
            old(self).tx_state is Idle ==> final(self).packet_counter == next_count(
                old(self).packet_counter,
            ),
            old(self).tx_state is Idle ==> (r matches Some(frame) && frame@ == frame_bytes(
                GATEWAY_ADDRESS,
                reading_bytes(
                    (SensorDataPacket {
                        seq_num: seq_of(final(self).packet_counter),
                        temperature,
                        humidity,
                        gas_resistance,
                    }),
                ),
            )),
    {
        if !self.tx_state.is_idle() {
            return None;
        }
        self.packet_counter = if self.packet_counter == u32::MAX {
            0
        } else {
            self.packet_counter + 1
        };
        let packet = SensorDataPacket {
            seq_num: (self.packet_counter % 0x1_0000) as u16,
            temperature,
            humidity,
            gas_resistance,
        };
        let payload = encode_reading(packet);
        Some(build_frame(GATEWAY_ADDRESS, payload.as_slice()))
    }

    /// Records that the frame of the last prepared packet was written to the
    /// channel: the node now waits for its acknowledgment.
    pub fn transmitted(&mut self)
        ensures
            final(self).wf(),
            final(self).tx_state == armed(seq_of(old(self).packet_counter)),
            final(self).tx_countdown == old(self).tx_countdown,
            final(self).packet_counter == old(self).packet_counter,
    {
        let seq = (self.packet_counter % 0x1_0000) as u16;
        self.tx_state.arm(seq);
    }

    /// Applies an acknowledgment read by the receive path.
    pub fn on_ack(&mut self, ack: AckPacket)
        requires
            old(self).wf(),
        ensures
            final(self).wf(),
            final(self).tx_state == after_ack(old(self).tx_state, ack),
            final(self).tx_countdown == old(self).tx_countdown,
            final(self).packet_counter == old(self).packet_counter,
    {
        self.tx_state.handle_ack(ack);
    }
}

} // verus!
