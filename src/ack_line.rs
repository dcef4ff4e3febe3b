//! Extraction of an acknowledgment from a radio receive line.
//!
//! A receive line reads `+RCV=<address>,<length>,<payload>,<rssi>,<snr>\r\n`.
//! The payload is binary and may itself hold commas, so it is located by the
//! declared length alone; the signal-quality fields after it are not read.
use vstd::prelude::*;
use crate::codec::{ack_of, decode_ack, AckPacket};

verus! {

/// Shortest buffer that is considered at all.
pub const MIN_LINE_LEN: usize = 10;

/// The bytes of `+RCV=`.
pub open spec fn rcv_prefix() -> Seq<u8> {
    seq![43u8, 82, 67, 86, 61]
}

/// Index of the first comma at or after `i`.
pub open spec fn first_comma_from(b: Seq<u8>, i: int) -> Option<int>
    decreases b.len() - i,
{
    if i < 0 || i >= b.len() {
        None
    } else if b[i] == 44 {
        Some(i)
    } else {
        first_comma_from(b, i + 1)
    }
}

pub open spec fn is_digit(c: u8) -> bool {
    48 <= c <= 57
}

/// Every byte is an ASCII digit.
pub open spec fn all_digits(s: Seq<u8>) -> bool {
    forall|k: int| 0 <= k < s.len() ==> is_digit(#[trigger] s[k])
}

/// Value of a run of decimal digits.
pub open spec fn digits_value(s: Seq<u8>) -> nat
    decreases s.len(),
{
    if s.len() == 0 {
        0
    } else {
        digits_value(s.drop_last()) * 10 + (s.last() - 48) as nat
    }
}

/// Text accepted as an unsigned decimal number: an optional `+` followed by
/// one or more digits.
pub open spec fn is_unsigned_text(s: Seq<u8>) -> bool {
    if s.len() > 0 && s[0] == 43 {
        s.len() > 1 && all_digits(s.drop_first())
    } else {
        s.len() > 0 && all_digits(s)
    }
}

/// Value of text accepted by `is_unsigned_text`.
pub open spec fn unsigned_value(s: Seq<u8>) -> nat {
    if s.len() > 0 && s[0] == 43 {
        digits_value(s.drop_first())
    } else {
        digits_value(s)
    }
}

/// What a receive line yields: the acknowledgment decoded from the `L` bytes
/// after the second comma, where `L` is the decimal text between the first
/// two commas after the prefix.
pub open spec fn ack_line_of(b: Seq<u8>) -> Option<AckPacket> {
    if b.len() < MIN_LINE_LEN || b.subrange(0, 5) != rcv_prefix() {
        None
    } else {
        match first_comma_from(b, 5) {
            None => None,
            Some(c1) => match first_comma_from(b, c1 + 1) {
                None => None,
                Some(c2) => {
                    let field = b.subrange(c1 + 1, c2);
                    let start = c2 + 1;
                    if !is_unsigned_text(field) || start + unsigned_value(field) > b.len() {
                        None
                    } else {
                        ack_of(b.subrange(start, start + unsigned_value(field)))
                    }
                },
            },
        }
    }
}

proof fn lemma_first_comma_bounds(b: Seq<u8>, i: int)
    ensures
        first_comma_from(b, i) matches Some(c) ==> i <= c < b.len() && b[c] == 44,
    decreases b.len() - i,
{
    if 0 <= i < b.len() && b[i] != 44 {
        lemma_first_comma_bounds(b, i + 1);
    }
}

proof fn lemma_digits_value_grows(s: Seq<u8>, i: int, j: int)
    requires
        0 <= i <= j <= s.len(),
    ensures
        digits_value(s.subrange(0, i)) <= digits_value(s.subrange(0, j)),
    decreases j - i,
{
    if i < j {
        lemma_digits_value_grows(s, i, j - 1);
        assert(s.subrange(0, j).drop_last() =~= s.subrange(0, j - 1));
    }
}

/// Index of the first comma at or after `i`.
fn find_comma(b: &[u8], i: usize) -> (r: Option<usize>)
    ensures
        r matches Some(c) ==> first_comma_from(b@, i as int) == Some(c as int),
        r is None ==> first_comma_from(b@, i as int) is None,
{
    let mut k: usize = i;
    while k < b.len()
        invariant
            i <= k,
            first_comma_from(b@, i as int) == first_comma_from(b@, k as int),
        decreases b@.len() - k,
    {
        if b[k] == 44 {
            return Some(k);
        }
        k = k + 1;
    }
    None
}

/// Value of the decimal text `b[from..to]` when it is well formed and at most
/// `limit`; `None` when it is malformed or larger than `limit`.
fn parse_length(b: &[u8], from: usize, to: usize, limit: usize) -> (r: Option<usize>)
    requires
        from <= to <= b@.len(),
    ensures
        ({
            let field = b@.subrange(from as int, to as int);
            match r {
                Some(v) => is_unsigned_text(field) && unsigned_value(field) == v && v <= limit,
                None => !is_unsigned_text(field) || unsigned_value(field) > limit,
            }
        }),
{
    let ghost field = b@.subrange(from as int, to as int);
    let signed = from < to && b[from] == 43;
    let start: usize = if signed { from + 1 } else { from };
    let ghost digits = b@.subrange(start as int, to as int);
    proof {
        if signed {
            assert(digits =~= field.drop_first());
        } else {
            assert(digits =~= field);
        }
    }
    if start >= to {
        return None;
    }
    let mut v: usize = 0;
    let mut k: usize = start;
    while k < to
        invariant
            from <= start <= k <= to <= b@.len(),
            start < to,
            field == b@.subrange(from as int, to as int),
            digits == b@.subrange(start as int, to as int),
            is_unsigned_text(field) <==> all_digits(digits),
            unsigned_value(field) == digits_value(digits),
            all_digits(digits.subrange(0, k - start)),
            v == digits_value(digits.subrange(0, k - start)),
            v <= limit,
        decreases to - k,
    {
        let c = b[k];
        if c < 48 || c > 57 {
            assert(!is_digit(digits[k - start]));
            return None;
        }
        let d: usize = (c - 48) as usize;
        assert(digits.subrange(0, k + 1 - start).drop_last() =~= digits.subrange(0, k - start));
        if d > limit || v > (limit - d) / 10 {
            proof {
                assert(v * 10 + d > limit) by (nonlinear_arith)
                    requires
                        d > limit || v > (limit - d) / 10,
                ;
                if all_digits(digits) {
                    lemma_digits_value_grows(digits, k + 1 - start, digits.len() as int);
                    assert(digits.subrange(0, digits.len() as int) =~= digits);
                }
            }
            return None;
        }
        v = v * 10 + d;
        k = k + 1;
        assert(all_digits(digits.subrange(0, k - start)));
    }
    assert(digits.subrange(0, k - start) =~= digits);
    Some(v)
}

/// Parses one complete receive line into the acknowledgment it carries.
///
/// Returns `None` when the buffer is shorter than `MIN_LINE_LEN`, does not
/// start with `+RCV=`, lacks the two commas after the prefix, has a length
/// field that is not decimal, declares more payload than the buffer holds, or
/// carries a payload that does not decode as an acknowledgment. Only bytes
/// inside the buffer are read, and the scan ends on every input.
pub fn parse_ack_message(buffer: &[u8]) -> (r: Option<AckPacket>)
    ensures
        r == ack_line_of(buffer@),
{
    if buffer.len() < MIN_LINE_LEN || buffer[0] != 43 || buffer[1] != 82 || buffer[2] != 67
        || buffer[3] != 86 || buffer[4] != 61 {
        proof {
            if buffer@.len() >= MIN_LINE_LEN {
                assert(buffer@.subrange(0, 5) != rcv_prefix()) by {
                    let p = buffer@.subrange(0, 5);
                    assert(p[0] == buffer@[0] && p[1] == buffer@[1] && p[2] == buffer@[2]
                        && p[3] == buffer@[3] && p[4] == buffer@[4]);
                }
            }
        }
        return None;
    }
    assert(buffer@.subrange(0, 5) =~= rcv_prefix());
    let comma1 = match find_comma(buffer, 5) {
        Some(c) => c,
        None => return None,
    };
    proof { lemma_first_comma_bounds(buffer@, 5); }
    let comma2 = match find_comma(buffer, comma1 + 1) {
        Some(c) => c,
        None => return None,
    };
    proof { lemma_first_comma_bounds(buffer@, comma1 + 1); }
    let start = comma2 + 1;
    let len = match parse_length(buffer, comma1 + 1, comma2, buffer.len() - start) {
        Some(v) => v,
        None => return None,
    };
    let payload = vstd::slice::slice_subrange(buffer, start, start + len);
    decode_ack(payload)
}

} // verus!
