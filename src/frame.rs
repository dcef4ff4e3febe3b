//! Transport framing of an encoded payload as a radio send command.
//!
//! A frame reads `AT+SEND=<dest>,<len>,<payload><crc_hi><crc_lo>\r\n`, where
//! `<len>` counts the payload and the two checksum bytes.
use vstd::prelude::*;
use crate::checksum::{calculate_crc16, crc16_of};
use crate::codec::be16;

verus! {

/// Decimal ASCII digits of `n`, without leading zeros (`"0"` for zero).
pub open spec fn decimal(n: nat) -> Seq<u8>
    decreases n,
{
    if n < 10 {
        seq![(n + 48) as u8]
    } else {
        decimal(n / 10).push((n % 10 + 48) as u8)
    }
}

/// The bytes of `AT+SEND=`.
pub open spec fn send_prefix() -> Seq<u8> {
    seq![65u8, 84, 43, 83, 69, 78, 68, 61]
}

/// Carriage return and line feed.
pub open spec fn crlf() -> Seq<u8> {
    seq![13u8, 10]
}

/// The frame that sends `payload` to the radio node at `dest`.
pub open spec fn frame_bytes(dest: u16, payload: Seq<u8>) -> Seq<u8> {
    send_prefix() + decimal(dest as nat) + seq![44u8] + decimal(payload.len() + 2) + seq![44u8]
        + payload + be16(crc16_of(payload)) + crlf()
}

/// Appends the decimal digits of `n`.
pub fn push_decimal(out: &mut Vec<u8>, n: usize)
    ensures
        final(out)@ == old(out)@ + decimal(n as nat),
    decreases n,
{
    if n >= 10 {
        push_decimal(out, n / 10);
    }
    out.push((n % 10) as u8 + 48);
    assert(final(out)@ =~= old(out)@ + decimal(n as nat));
}

/// Builds the frame that sends `payload` to the node at `dest`: the command
/// prefix, the destination and the total length (payload and checksum) in
/// decimal, the payload, its checksum high byte first, and CRLF.
pub fn build_frame(dest: u16, payload: &[u8]) -> (frame: Vec<u8>)
    requires
        payload@.len() + 2 <= usize::MAX,
    ensures
        frame@ == frame_bytes(dest, payload@),
{
    let mut frame: Vec<u8> = Vec::new();
    frame.push(65);
    frame.push(84);
    frame.push(43);
    frame.push(83);
    frame.push(69);
    frame.push(78);
    frame.push(68);
    frame.push(61);
    assert(frame@ =~= send_prefix());
    push_decimal(&mut frame, dest as usize);
    frame.push(44);
    push_decimal(&mut frame, payload.len() + 2);
    frame.push(44);
    let ghost head = frame@;
    let mut i: usize = 0;
    while i < payload.len()
        invariant
            i <= payload@.len(),
            frame@ == head + payload@.subrange(0, i as int),
        decreases payload@.len() - i,
    {
        frame.push(payload[i]);
        i = i + 1;
        assert(frame@ =~= head + payload@.subrange(0, i as int));
    }
    assert(payload@.subrange(0, i as int) =~= payload@);
    let crc = calculate_crc16(payload);
    frame.push((crc / 256) as u8);
    frame.push((crc % 256) as u8);
    frame.push(13);
    frame.push(10);
    assert(frame@ =~= frame_bytes(dest, payload@));
    frame
}

} // verus!
