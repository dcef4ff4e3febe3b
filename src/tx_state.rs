//! The transmission state machine: one packet in flight, a timeout counted in
//! ticks, and a bounded number of retries.
use vstd::prelude::*;
use crate::codec::{AckPacket, MSG_TYPE_ACK, MSG_TYPE_NACK};

verus! {

/// Number of retries after which a packet is abandoned.
pub const MAX_RETRIES: u8 = 3;

/// Ticks to wait for an acknowledgment before counting a retry.
pub const ACK_TIMEOUT_SECS: u32 = 2;

/// Where the node stands with its latest packet.
#[derive(Debug, Clone, Copy, PartialEq, Eq, Structural)]
pub enum TxState {
    /// No packet in flight; a new transmission may start.
    Idle,
    /// A packet was sent and its acknowledgment has not come yet.
    WaitingForAck {
        /// Sequence number of the packet in flight.
        seq_num: u16,
        /// Ticks left before the wait times out.
        timeout_counter: u32,
        /// Retries counted so far.
        retry_count: u8,
    },
}

/// The state right after a packet with sequence `seq` was sent.
pub open spec fn armed(seq: u16) -> TxState {
    TxState::WaitingForAck { seq_num: seq, timeout_counter: ACK_TIMEOUT_SECS, retry_count: 0 }
}

/// The state after one tick: the timeout is counted down; once it has run
/// out a retry is counted and the timeout re-armed, or the packet is
/// abandoned when the retries reach `MAX_RETRIES`.
pub open spec fn aged(s: TxState) -> TxState {
    match s {
        TxState::Idle => TxState::Idle,
        TxState::WaitingForAck { seq_num, timeout_counter, retry_count } => {
            if timeout_counter > 0 {
                TxState::WaitingForAck {
                    seq_num,
                    timeout_counter: (timeout_counter - 1) as u32,
                    retry_count,
                }
            } else if retry_count + 1 < MAX_RETRIES {
                TxState::WaitingForAck {
                    seq_num,
                    timeout_counter: ACK_TIMEOUT_SECS,
                    retry_count: (retry_count + 1) as u8,
                }
            } else {
                TxState::Idle
            }
        },
    }
}

/// The state after `n` ticks with no acknowledgment.
pub open spec fn aged_n(s: TxState, n: nat) -> TxState
    decreases n,
{
    if n == 0 {
        s
    } else {
        aged(aged_n(s, (n - 1) as nat))
    }
}

/// The state after an acknowledgment arrives. Only one that names the packet
/// in flight has an effect: a positive one ends the wait; a negative one
/// forces the timeout to expire on the next tick and counts a retry, or
/// abandons the packet when the retries are used up.
pub open spec fn after_ack(s: TxState, ack: AckPacket) -> TxState {
    match s {
        TxState::Idle => TxState::Idle,
        TxState::WaitingForAck { seq_num, timeout_counter, retry_count } => {
            if ack.seq_num != seq_num {
                s
            } else if ack.msg_type == MSG_TYPE_ACK {
                TxState::Idle
            } else if ack.msg_type == MSG_TYPE_NACK {
                if retry_count < MAX_RETRIES {
                    TxState::WaitingForAck {
                        seq_num,
                        timeout_counter: 0,
                        retry_count: (retry_count + 1) as u8,
                    }
                } else {
                    TxState::Idle
                }
            } else {
                s
            }
        },
    }
}

impl TxState {
    /// No packet is in flight.
    pub fn is_idle(&self) -> (r: bool)
        ensures
            r == (*self is Idle),
    {
        match self {
            TxState::Idle => true,
            TxState::WaitingForAck { .. } => false,
        }
    }

    /// Records that the packet with sequence `seq` was written to the channel.
    pub fn arm(&mut self, seq: u16)
        ensures
            *final(self) == armed(seq),
    {
        *self = TxState::WaitingForAck {
            seq_num: seq,
            timeout_counter: ACK_TIMEOUT_SECS,
            retry_count: 0,
        };
    }

    /// Advances the wait by one tick.
    pub fn tick(&mut self)
        ensures
            *final(self) == aged(*old(self)),
    {
        match *self {
            TxState::Idle => {},
            TxState::WaitingForAck { seq_num, timeout_counter, retry_count } => {
                if timeout_counter > 0 {
                    *self = TxState::WaitingForAck {
                        seq_num,
                        timeout_counter: timeout_counter - 1,
                        retry_count,
                    };
                } else if retry_count < MAX_RETRIES - 1 {
                    *self = TxState::WaitingForAck {
                        seq_num,
                        timeout_counter: ACK_TIMEOUT_SECS,
                        retry_count: retry_count + 1,
                    };
                } else {
                    *self = TxState::Idle;
                }
            },
        }
    }

    /// Applies a received acknowledgment.
    pub fn handle_ack(&mut self, ack: AckPacket)
        ensures
            *final(self) == after_ack(*old(self), ack),
    {
        match *self {
            TxState::Idle => {},
            TxState::WaitingForAck { seq_num, timeout_counter, retry_count } => {
                if ack.seq_num != seq_num {
                } else if ack.msg_type == MSG_TYPE_ACK {
                    *self = TxState::Idle;
                } else if ack.msg_type == MSG_TYPE_NACK {
                    if retry_count < MAX_RETRIES {
                        *self = TxState::WaitingForAck {
                            seq_num,
                            timeout_counter: 0,
                            retry_count: retry_count + 1,
                        };
                    } else {
                        *self = TxState::Idle;
                    }
                }
            },
        }
    }
}

/// A packet that is never acknowledged stays in flight for
/// `(ACK_TIMEOUT_SECS + 1) * MAX_RETRIES` ticks: after `n` of them its retry
/// count is `n / (ACK_TIMEOUT_SECS + 1)` and its timeout has counted down by
/// `n % (ACK_TIMEOUT_SECS + 1)`; on the last of them the node becomes idle.
pub proof fn lemma_unanswered_packet_abandoned(seq: u16, n: nat)
    requires
        n <= (ACK_TIMEOUT_SECS + 1) * MAX_RETRIES,
    ensures
        n < (ACK_TIMEOUT_SECS + 1) * MAX_RETRIES ==> aged_n(armed(seq), n) == (
        TxState::WaitingForAck {
            seq_num: seq,
            timeout_counter: (ACK_TIMEOUT_SECS - n as int % (ACK_TIMEOUT_SECS + 1)) as u32,
            retry_count: (n as int / (ACK_TIMEOUT_SECS + 1)) as u8,
        }),
        n == (ACK_TIMEOUT_SECS + 1) * MAX_RETRIES ==> aged_n(armed(seq), n) == TxState::Idle,
    decreases n,
{
    if n > 0 {
        lemma_unanswered_packet_abandoned(seq, (n - 1) as nat);
    }
}

/// A positive acknowledgment of the packet in flight always ends the wait;
/// one that names another packet leaves the state as it was.
pub proof fn lemma_ack_outcome(s: TxState, ack: AckPacket)
    requires
        s is WaitingForAck,
        ack.msg_type == MSG_TYPE_ACK,
    ensures
        ack.seq_num == s->seq_num ==> after_ack(s, ack) == TxState::Idle,
        ack.seq_num != s->seq_num ==> after_ack(s, ack) == s,
{
}

/// A negative acknowledgment of the packet in flight, while retries remain,
/// keeps the node waiting with the timeout at zero and one more retry counted.
pub proof fn lemma_nack_outcome(s: TxState, ack: AckPacket)
    requires
        s is WaitingForAck,
        s->retry_count < MAX_RETRIES,
        ack.msg_type == MSG_TYPE_NACK,
        ack.seq_num == s->seq_num,
    ensures
        after_ack(s, ack) == (TxState::WaitingForAck {
            seq_num: s->seq_num,
            timeout_counter: 0,
            retry_count: (s->retry_count + 1) as u8,
        }),
{
}

} // verus!
