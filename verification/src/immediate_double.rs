//! Doubles held in the payload of a word.
//!
//! A double is handled here as its 64-bit IEEE-754 pattern. The pattern is
//! turned left by one bit, which brings the sign to the low end, and moved
//! down by a fixed offset, which empties the top three bits for every
//! exponent of the safe window. The two patterns that the turn maps to 0 and
//! 1, the two zeros, are kept as they are.

use vstd::prelude::*;

verus! {

pub const IMMEDIATE_OFFSET: u64 = 0x7000_0000_0000_0000;
pub const ROTATE_AMOUNT: u32 = 1;
pub const PAYLOAD_SHIFT: u32 = 3;
pub const IM_DOUBLE_RANGE_MIN: u64 = 0x380;
pub const IM_DOUBLE_RANGE_MAX: u64 = 0x47F;

/// The eleven exponent bits of a pattern.
pub open spec fn spec_exponent(bits: u64) -> u64 {
    (bits >> 52) & 0x7FF
}

/// The pattern of the double zero with the sign set.
pub const NEGATIVE_ZERO: u64 = 0x8000_0000_0000_0000;

/// The least double of the safe window, without its sign: its payload
/// would be that of a zero.
pub const WINDOW_FLOOR: u64 = 0x3800_0000_0000_0000;

/// The patterns that a word can hold and give back bit for bit: the two
/// zeros, and those with an exponent inside the safe window, but for the
/// least double of the window and its negative, whose payloads would be
/// those of the zeros. Every other double belongs on the heap.
pub open spec fn spec_is_immediate(bits: u64) -> bool {
    bits == 0 || bits == NEGATIVE_ZERO || (IM_DOUBLE_RANGE_MIN <= spec_exponent(bits)
        && spec_exponent(bits) <= IM_DOUBLE_RANGE_MAX && (bits & 0x7FFF_FFFF_FFFF_FFFF)
        != WINDOW_FLOOR)
}

pub open spec fn spec_rotate_left(x: u64) -> u64 {
    (x << 1) | (x >> 63)
}

pub open spec fn spec_rotate_right(x: u64) -> u64 {
    (x >> 1) | (x << 63)
}

/// `x - IMMEDIATE_OFFSET`, wrapping.
pub open spec fn spec_lower(x: u64) -> u64 {
    if x >= IMMEDIATE_OFFSET {
        (x - IMMEDIATE_OFFSET) as u64
    } else {
        (x + 0x9000_0000_0000_0000) as u64
    }
}

/// `x + IMMEDIATE_OFFSET`, wrapping.
pub open spec fn spec_raise(x: u64) -> u64 {
    if x < 0x9000_0000_0000_0000 {
        (x + IMMEDIATE_OFFSET) as u64
    } else {
        (x - 0x9000_0000_0000_0000) as u64
    }
}

/// The payload that stands for a pattern.
pub open spec fn spec_encode_payload(bits: u64) -> u64 {
    let rolled = spec_rotate_left(bits);
    if rolled <= 1 {
        rolled
    } else {
        spec_lower(rolled)
    }
}

/// The pattern that a payload stands for.
pub open spec fn spec_decode_payload(payload: u64) -> u64 {
    let rebased = if payload <= 1 {
        payload
    } else {
        spec_raise(payload)
    };
    spec_rotate_right(rebased)
}

/// Whether a double with this pattern can be held in a word. Whoever makes a
/// new double asks this first, and puts the double on the heap otherwise.
pub fn is_immediate(bits: u64) -> (r: bool)
    ensures
        r == spec_is_immediate(bits),
{
    let exponent: u64 = (bits >> 52) & 0x7FF;
    bits == 0 || bits == NEGATIVE_ZERO || (exponent >= IM_DOUBLE_RANGE_MIN && exponent
        <= IM_DOUBLE_RANGE_MAX && (bits & 0x7FFF_FFFF_FFFF_FFFF) != WINDOW_FLOOR)
}

pub fn encode_payload(bits: u64) -> (payload: u64)
    ensures
        payload == spec_encode_payload(bits),
{
    let rolled: u64 = (bits << 1) | (bits >> 63);
    if rolled <= 1 {
        rolled
    } else {
        rolled.wrapping_sub(IMMEDIATE_OFFSET)
    }
}

pub fn decode_payload(payload: u64) -> (bits: u64)
    ensures
        bits == spec_decode_payload(payload),
{
    let rebased: u64 = if payload <= 1 {
        payload
    } else {
        payload.wrapping_add(IMMEDIATE_OFFSET)
    };
    (rebased >> 1) | (rebased << 63)
}

/// The payload of a pattern that a word can hold leaves the top three
/// bits of the word free, carries the sign in its lowest bit, and decodes
/// to the pattern.
pub proof fn lemma_payload_round_trip(bits: u64)
    by (bit_vector)
    requires
        spec_is_immediate(bits),
    ensures
        spec_encode_payload(bits) >> 61 == 0,
        spec_encode_payload(bits) & 1 == bits >> 63,
        spec_decode_payload(spec_encode_payload(bits)) == bits,
{
}

/// A payload with its top three bits free comes back from under its tag,
/// and the tag comes back too: a tag of three bits in any case, a tag of
/// four bits where its high bit is the payload's lowest, the sign.
pub(crate) proof fn lemma_tagged_payload(payload: u64, sign: u64)
    by (bit_vector)
    requires
        payload >> 61 == 0,
        payload & 1 == sign,
    ensures
        sign <= 1,
        sign == 0 ==> ((payload << 3) | 0b0100) >> 3 == payload && ((payload << 3) | 0b0100)
            & 0b1111 == 0b0100,
        sign == 1 ==> ((payload << 3) | 0b1100) >> 3 == payload && ((payload << 3) | 0b1100)
            & 0b1111 == 0b1100,
        ((payload << 3) | 0b100) >> 3 == payload && ((payload << 3) | 0b100) & 0b111 == 0b100,
        ((payload << 3) | 0b110) >> 3 == payload && ((payload << 3) | 0b110) & 0b111 == 0b110,
{
}

} // verus!
