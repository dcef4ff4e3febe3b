//! Binary layouts of the two records carried over the link.
//!
//! Every multi-byte field is big-endian (high byte first). A reading is ten
//! bytes: sequence (2), temperature as two's complement (2), humidity (2), gas
//! resistance (4). An acknowledgment is three bytes: the kind tag (1) followed
//! by the sequence it acknowledges (2).
use vstd::prelude::*;

verus! {

/// Kind tag of a positive acknowledgment.
pub const MSG_TYPE_ACK: u8 = 1;

/// Kind tag of a negative acknowledgment.
pub const MSG_TYPE_NACK: u8 = 2;

/// Number of bytes of an encoded reading.
pub const READING_LEN: usize = 10;

/// Number of bytes of an encoded acknowledgment.
pub const ACK_LEN: usize = 3;

/// Largest humidity, in basis points (100.00 %).
pub const MAX_HUMIDITY: u16 = 10000;

/// One sensor reading, as it travels in a data packet.
#[derive(Debug, Clone, Copy, PartialEq, Eq, Structural)]
pub struct SensorDataPacket {
    /// Sequence number of the packet, starting at 1 and wrapping at 65536.
    pub seq_num: u16,
    /// Temperature in centidegrees Celsius.
    pub temperature: i16,
    /// Relative humidity in basis points (0 to 10000).
    pub humidity: u16,
    /// Gas resistance in ohms.
    pub gas_resistance: u32,
}

impl SensorDataPacket {
    /// The reading lies within its declared ranges.
    pub open spec fn valid(self) -> bool {
        self.humidity <= MAX_HUMIDITY
    }
}

/// A positive or negative acknowledgment of one data packet.
#[derive(Debug, Clone, Copy, PartialEq, Eq, Structural)]
pub struct AckPacket {
    /// `MSG_TYPE_ACK` or `MSG_TYPE_NACK`.
    pub msg_type: u8,
    /// Sequence number of the acknowledged packet.
    pub seq_num: u16,
}

impl AckPacket {
    /// The kind tag is one of the two known kinds.
    pub open spec fn valid(self) -> bool {
        self.msg_type == MSG_TYPE_ACK || self.msg_type == MSG_TYPE_NACK
    }
}

/// Big-endian bytes of a 16-bit value.
pub open spec fn be16(v: u16) -> Seq<u8> {
    seq![(v / 256) as u8, (v % 256) as u8]
}

/// Big-endian bytes of a 32-bit value.
pub open spec fn be32(v: u32) -> Seq<u8> {
    seq![(v / 0x100_0000) as u8, ((v / 0x1_0000) % 256) as u8, ((v / 256) % 256) as u8, (v % 256) as u8]
}

/// Two's complement bit pattern of a signed 16-bit value.
pub open spec fn i16_bits(t: i16) -> u16 {
    if t < 0 {
        (t + 0x1_0000) as u16
    } else {
        t as u16
    }
}

/// Signed 16-bit value of a two's complement bit pattern.
pub open spec fn i16_from_bits(u: u16) -> i16 {
    if u >= 0x8000 {
        (u - 0x1_0000) as i16
    } else {
        u as i16
    }
}

/// The big-endian 16-bit value at `i` and `i + 1`.
pub open spec fn read_be16(b: Seq<u8>, i: int) -> u16 {
    (b[i] as int * 256 + b[i + 1] as int) as u16
}

/// The big-endian 32-bit value at `i` to `i + 3`.
pub open spec fn read_be32(b: Seq<u8>, i: int) -> u32 {
    (b[i] as int * 0x100_0000 + b[i + 1] as int * 0x1_0000 + b[i + 2] as int * 256
        + b[i + 3] as int) as u32
}

/// The encoding of a reading.
pub open spec fn reading_bytes(r: SensorDataPacket) -> Seq<u8> {
    be16(r.seq_num) + be16(i16_bits(r.temperature)) + be16(r.humidity) + be32(r.gas_resistance)
}

/// What a byte sequence decodes to as a reading: the ten-byte layout, with a
/// humidity within range.
pub open spec fn reading_of(b: Seq<u8>) -> Option<SensorDataPacket> {
    if b.len() == READING_LEN && read_be16(b, 4) <= MAX_HUMIDITY {
        Some(
            SensorDataPacket {
                seq_num: read_be16(b, 0),
                temperature: i16_from_bits(read_be16(b, 2)),
                humidity: read_be16(b, 4),
                gas_resistance: read_be32(b, 6),
            },
        )
    } else {
        None
    }
}

/// The encoding of an acknowledgment.
pub open spec fn ack_bytes(m: AckPacket) -> Seq<u8> {
    seq![m.msg_type] + be16(m.seq_num)
}

/// What a byte sequence decodes to as an acknowledgment: a known kind tag and
/// a sequence number in the first three bytes; bytes after them are ignored.
pub open spec fn ack_of(b: Seq<u8>) -> Option<AckPacket> {
    if b.len() >= ACK_LEN && (b[0] == MSG_TYPE_ACK || b[0] == MSG_TYPE_NACK) {
        Some(AckPacket { msg_type: b[0], seq_num: read_be16(b, 1) })
    } else {
        None
    }
}

fn push_be16(out: &mut Vec<u8>, v: u16)
    ensures
        final(out)@ == old(out)@ + be16(v),
{
    out.push((v / 256) as u8);
    out.push((v % 256) as u8);
    assert(final(out)@ =~= old(out)@ + be16(v));
}

fn push_be32(out: &mut Vec<u8>, v: u32)
    ensures
        final(out)@ == old(out)@ + be32(v),
{
    out.push((v / 0x100_0000) as u8);
    out.push(((v / 0x1_0000) % 256) as u8);
    out.push(((v / 256) % 256) as u8);
    out.push((v % 256) as u8);
    assert(final(out)@ =~= old(out)@ + be32(v));
}

fn get_be16(b: &[u8], i: usize) -> (r: u16)
    requires
        i + 2 <= b@.len(),
    ensures
        r == read_be16(b@, i as int),
{
    (b[i] as u16) * 256 + (b[i + 1] as u16)
}

fn get_be32(b: &[u8], i: usize) -> (r: u32)
    requires
        i + 4 <= b@.len(),
    ensures
        r == read_be32(b@, i as int),
{
    (b[i] as u32) * 0x100_0000 + (b[i + 1] as u32) * 0x1_0000 + (b[i + 2] as u32) * 256
        + (b[i + 3] as u32)
}

/// Encodes a reading into its ten-byte layout.
pub fn encode_reading(r: SensorDataPacket) -> (bytes: Vec<u8>)
    ensures
        bytes@ == reading_bytes(r),
        bytes@.len() == READING_LEN,
{
    let mut bytes: Vec<u8> = Vec::new();
    push_be16(&mut bytes, r.seq_num);
    let bits: u16 = if r.temperature < 0 {
        (r.temperature as i32 + 0x1_0000) as u16
    } else {
        r.temperature as u16
    };
    push_be16(&mut bytes, bits);
    push_be16(&mut bytes, r.humidity);
    push_be32(&mut bytes, r.gas_resistance);
    assert(bytes@ =~= reading_bytes(r));
    bytes
}

/// Decodes a reading; `None` unless the input is exactly ten bytes with a
/// humidity of at most 10000 basis points.
pub fn decode_reading(bytes: &[u8]) -> (r: Option<SensorDataPacket>)
    ensures
        r == reading_of(bytes@),
{
    if bytes.len() != READING_LEN {
        return None;
    }
    let humidity = get_be16(bytes, 4);
    if humidity > MAX_HUMIDITY {
        return None;
    }
    let bits = get_be16(bytes, 2);
    let temperature: i16 = if bits >= 0x8000 {
        (bits as i32 - 0x1_0000) as i16
    } else {
        bits as i16
    };
    Some(
        SensorDataPacket {
            seq_num: get_be16(bytes, 0),
            temperature,
            humidity,
            gas_resistance: get_be32(bytes, 6),
        },
    )
}

/// Encodes an acknowledgment into its three-byte layout.
pub fn encode_ack(m: AckPacket) -> (bytes: Vec<u8>)
    ensures
        bytes@ == ack_bytes(m),
{
    let mut bytes: Vec<u8> = Vec::new();
    bytes.push(m.msg_type);
    push_be16(&mut bytes, m.seq_num);
    assert(bytes@ =~= ack_bytes(m));
    bytes
}

/// Decodes an acknowledgment; `None` when fewer than three bytes are given or
/// the kind tag is neither `MSG_TYPE_ACK` nor `MSG_TYPE_NACK`.
pub fn decode_ack(bytes: &[u8]) -> (r: Option<AckPacket>)
    ensures
        r == ack_of(bytes@),
        r matches Some(m) ==> m.valid(),
{
    if bytes.len() < ACK_LEN {
        return None;
    }
    let tag = bytes[0];
    if tag != MSG_TYPE_ACK && tag != MSG_TYPE_NACK {
        return None;
    }
    Some(AckPacket { msg_type: tag, seq_num: get_be16(bytes, 1) })
}

proof fn lemma_be16_round_trip(v: u16)
    ensures
        read_be16(be16(v), 0) == v,
{
    assert(v == (v / 256) * 256 + v % 256) by (nonlinear_arith);
}

proof fn lemma_be32_round_trip(v: u32)
    ensures
        read_be32(be32(v), 0) == v,
{
    let a = v / 0x100_0000;
    let b = (v / 0x1_0000) % 256;
    let c = (v / 256) % 256;
    let d = v % 256;
    assert(v == a * 0x100_0000 + b * 0x1_0000 + c * 256 + d) by (nonlinear_arith)
        requires
            a == v / 0x100_0000,
            b == (v / 0x1_0000) % 256,
            c == (v / 256) % 256,
            d == v % 256,
    ;
}

/// Decoding the encoding of a reading within its declared ranges gives the
/// reading back.
pub proof fn lemma_reading_round_trip(r: SensorDataPacket)
    requires
        r.valid(),
    ensures
        reading_of(reading_bytes(r)) == Some(r),
{
    let b = reading_bytes(r);
    lemma_be16_round_trip(r.seq_num);
    lemma_be16_round_trip(i16_bits(r.temperature));
    lemma_be16_round_trip(r.humidity);
    lemma_be32_round_trip(r.gas_resistance);
    assert(b.subrange(0, 2) =~= be16(r.seq_num));
    assert(b.subrange(2, 4) =~= be16(i16_bits(r.temperature)));
    assert(b.subrange(4, 6) =~= be16(r.humidity));
    assert(b.subrange(6, 10) =~= be32(r.gas_resistance));
    assert(read_be16(b, 0) == read_be16(b.subrange(0, 2), 0));
    assert(read_be16(b, 2) == read_be16(b.subrange(2, 4), 0));
    assert(read_be16(b, 4) == read_be16(b.subrange(4, 6), 0));
    assert(read_be32(b, 6) == read_be32(b.subrange(6, 10), 0));
}

/// Decoding the encoding of an acknowledgment with a known kind tag gives the
/// acknowledgment back.
pub proof fn lemma_ack_round_trip(m: AckPacket)
    requires
        m.valid(),
    ensures
        ack_of(ack_bytes(m)) == Some(m),
{
    let b = ack_bytes(m);
    lemma_be16_round_trip(m.seq_num);
    assert(b.subrange(1, 3) =~= be16(m.seq_num));
    assert(read_be16(b, 1) == read_be16(b.subrange(1, 3), 0));
}

} // verus!
