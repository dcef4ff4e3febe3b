//! The 16-bit integrity code carried by every data frame.
use vstd::prelude::*;

verus! {

/// The CRC-16/IBM-3740 value of a byte sequence (polynomial 0x1021, initial
/// register 0xFFFF, no reflection, no final xor).
pub uninterp spec fn crc16_of(data: Seq<u8>) -> u16;

/// Relies on `crc::Crc::<u16>::checksum` with the catalogue algorithm
/// `CRC_16_IBM_3740`: the result is a function of the bytes alone.
#[verifier::external_body]
fn crc16_ibm_3740(data: &[u8]) -> (r: u16)
    ensures
        r == crc16_of(data@),
{
    let engine = crc::Crc::<u16>::new(&crc::CRC_16_IBM_3740);
    engine.checksum(data)
}

/// Checksum of a data payload.
pub fn calculate_crc16(data: &[u8]) -> (r: u16)
    ensures
        r == crc16_of(data@),
{
    crc16_ibm_3740(data)
}

/// The checksum is deterministic: equal byte sequences have equal checksums.
pub proof fn lemma_checksum_deterministic(a: Seq<u8>, b: Seq<u8>)
    requires
        a == b,
    ensures
        crc16_of(a) == crc16_of(b),
{
}

} // verus!
