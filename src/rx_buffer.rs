//! The receive accumulator: a fixed-capacity line buffer that collects the
//! bytes of one radio line between interrupts.
use vstd::prelude::*;
use crate::ack_line::{ack_line_of, parse_ack_message};
use crate::codec::AckPacket;

verus! {

/// Capacity of the receive accumulator, in bytes.
pub const RX_CAPACITY: usize = 128;

/// `heapless::Vec`, the fixed-capacity vector that stores the line; opaque,
/// and described through `held_bytes`.
#[verifier::external_type_specification]
#[verifier::external_body]
#[verifier::reject_recursive_types(T)]
pub struct ExHeaplessVec<T, const N: usize>(heapless::Vec<T, N>);

/// The bytes held by a fixed-capacity vector, in order of insertion.
pub uninterp spec fn held_bytes(v: heapless::Vec<u8, RX_CAPACITY>) -> Seq<u8>;

/// Relies on `heapless::Vec::new`: the vector starts empty.
#[verifier::external_body]
fn bounded_new() -> (v: heapless::Vec<u8, RX_CAPACITY>)
    ensures
        held_bytes(v) == Seq::<u8>::empty(),
{
    heapless::Vec::new()
}

/// Relies on `heapless::Vec::push`: below capacity the byte is appended and
/// `Ok` returned; at capacity nothing changes and the byte comes back in `Err`.
#[verifier::external_body]
fn bounded_push(v: &mut heapless::Vec<u8, RX_CAPACITY>, byte: u8) -> (r: Result<(), u8>)
    ensures
        held_bytes(*old(v)).len() < RX_CAPACITY ==> r is Ok
            && held_bytes(*final(v)) == held_bytes(*old(v)).push(byte),
        held_bytes(*old(v)).len() >= RX_CAPACITY ==> r is Err && r->Err_0 == byte
            && held_bytes(*final(v)) == held_bytes(*old(v)),
        held_bytes(*final(v)).len() <= RX_CAPACITY,
{
    v.push(byte)
}

/// Relies on `heapless::Vec::clear`: the vector becomes empty.
#[verifier::external_body]
fn bounded_clear(v: &mut heapless::Vec<u8, RX_CAPACITY>)
    ensures
        held_bytes(*final(v)) == Seq::<u8>::empty(),
{
    v.clear()
}

/// Relies on `heapless::Vec::as_slice`: the held bytes, in order.
#[verifier::external_body]
fn bounded_as_slice(v: &heapless::Vec<u8, RX_CAPACITY>) -> (s: &[u8])
    ensures
        s@ == held_bytes(*v),
{
    v.as_slice()
}

/// What the accumulator holds after `byte` arrives, and the acknowledgment
/// read from the line that the byte completes, if any. A byte that finds the
/// accumulator full is dropped together with what it held; a line ends with
/// CR LF and is parsed and cleared.
pub open spec fn after_byte(held: Seq<u8>, byte: u8) -> (Seq<u8>, Option<AckPacket>) {
    let pushed = if held.len() < RX_CAPACITY {
        held.push(byte)
    } else {
        Seq::<u8>::empty()
    };
    if byte == 10 && pushed.len() >= 2 && pushed[pushed.len() - 2] == 13 {
        (Seq::<u8>::empty(), ack_line_of(pushed))
    } else {
        (pushed, None)
    }
}

/// Bytes of a radio line received so far.
pub struct RxBuffer {
    buf: heapless::Vec<u8, RX_CAPACITY>,
}

impl View for RxBuffer {
    type V = Seq<u8>;

    closed spec fn view(&self) -> Seq<u8> {
        held_bytes(self.buf)
    }
}

impl RxBuffer {
    /// The accumulator never holds more than its capacity.
    pub open spec fn wf(&self) -> bool {
        self@.len() <= RX_CAPACITY
    }

    /// An empty accumulator.
    pub fn new() -> (r: RxBuffer)
        ensures
            r.wf(),
            r@ == Seq::<u8>::empty(),
    {
        RxBuffer { buf: bounded_new() }
    }

    /// Number of bytes held.
    pub fn len(&self) -> (n: usize)
        ensures
            n == self@.len(),
    {
        bounded_as_slice(&self.buf).len()
    }

    /// The bytes held, in order of arrival.
    pub fn as_slice(&self) -> (s: &[u8])
        ensures
            s@ == self@,
    {
        bounded_as_slice(&self.buf)
    }

    /// Appends a byte; when the accumulator is full it is left as it is and the
    /// byte is handed back as the error.
    pub fn push(&mut self, byte: u8) -> (r: Result<(), u8>)
        ensures
            old(self)@.len() < RX_CAPACITY ==> r is Ok && final(self)@ == old(self)@.push(byte),
            old(self)@.len() >= RX_CAPACITY ==> r is Err && r->Err_0 == byte && final(self)@ == old(self)@,
            final(self).wf(),
    {
        bounded_push(&mut self.buf, byte)
    }

    /// Drops every byte held.
    pub fn clear(&mut self)
        ensures
            final(self).wf(),
            final(self)@ == Seq::<u8>::empty(),
    {
        bounded_clear(&mut self.buf)
    }

    /// Takes one received byte. When it completes a line, the line is parsed
    /// for an acknowledgment and the accumulator is cleared for the next one.
    pub fn feed(&mut self, byte: u8) -> (r: Option<AckPacket>)
        requires
            old(self).wf(),
        ensures
            final(self).wf(),
            (final(self)@, r) == after_byte(old(self)@, byte),
    {
        if self.push(byte).is_err() {
            self.clear();
        }
        let n = self.len();
        if byte == 10 && n >= 2 {
            let line = self.as_slice();
            if line[n - 2] == 13 {
                let ack = parse_ack_message(line);
                self.clear();
                return ack;
            }
        }
        None
    }
}

} // verus!
