//! Doubles as their 64-bit IEEE-754 patterns: how they are ordered among
//! themselves, and what they are worth beside an integer.
//!
//! The highest bit of a pattern is the sign, the next eleven are the
//! exponent, the low 52 the fraction. What lies below the sign is the
//! magnitude; it grows with the absolute value of the double.

use crate::bigint::big_from_i64;
use crate::bigint::big_shl;
use crate::convert::IntegerLike;
use crate::convert::demote;
use vstd::arithmetic::power2::pow2;
use vstd::prelude::*;

verus! {

pub const SIGN_BIT: u64 = 0x8000_0000_0000_0000;
pub const MAGNITUDE_MASK: u64 = 0x7FFF_FFFF_FFFF_FFFF;
pub const INFINITY: u64 = 0x7FF0_0000_0000_0000;
pub const FRACTION_MASK: u64 = 0x000F_FFFF_FFFF_FFFF;
pub const HIDDEN_BIT: u64 = 0x0010_0000_0000_0000;

/// The exponent of the doubles from 1 up to 2.
pub const EXPONENT_BIAS: u64 = 1023;

/// The least exponent of the doubles that have no bit behind the point.
pub const EXPONENT_WHOLE: u64 = 1075;

pub open spec fn spec_is_negative(bits: u64) -> bool {
    bits & SIGN_BIT != 0
}

pub open spec fn spec_magnitude(bits: u64) -> u64 {
    bits & MAGNITUDE_MASK
}

pub open spec fn spec_exponent(bits: u64) -> u64 {
    (bits >> 52) & 0x7FF
}

/// Not a number: the highest exponent with a fraction that is not zero.
pub open spec fn spec_is_nan(bits: u64) -> bool {
    spec_magnitude(bits) > INFINITY
}

/// A number that is not infinite either.
pub open spec fn spec_is_finite(bits: u64) -> bool {
    spec_magnitude(bits) < INFINITY
}

/// The magnitude with the sign: a number that is ordered as the doubles
/// are, and that is 0 for both zeros.
pub open spec fn spec_key(bits: u64) -> int {
    if spec_is_negative(bits) {
        -(spec_magnitude(bits) as int)
    } else {
        spec_magnitude(bits) as int
    }
}

/// Equality of two doubles: no double equals one that is not a number, and
/// the two zeros are equal.
pub open spec fn spec_eq(a: u64, b: u64) -> bool {
    !spec_is_nan(a) && !spec_is_nan(b) && spec_key(a) == spec_key(b)
}

/// Order of two doubles: one that is not a number is neither less nor
/// greater than any.
pub open spec fn spec_lt(a: u64, b: u64) -> bool {
    !spec_is_nan(a) && !spec_is_nan(b) && spec_key(a) < spec_key(b)
}

/// The 53 bits of a double's digits: the fraction, under the hidden bit
/// where the exponent is not zero.
pub open spec fn spec_significand(bits: u64) -> u64 {
    if spec_exponent(bits) == 0 {
        bits & FRACTION_MASK
    } else {
        (bits & FRACTION_MASK) | HIDDEN_BIT
    }
}

/// The whole part of the absolute value of a finite double: its digits,
/// moved by its exponent.
pub open spec fn spec_whole_part(bits: u64) -> int {
    let exponent = spec_exponent(bits);
    if exponent < EXPONENT_BIAS {
        0
    } else if exponent <= EXPONENT_WHOLE {
        (spec_significand(bits) >> ((EXPONENT_WHOLE - exponent) as u64)) as int
    } else {
        spec_significand(bits) * pow2((exponent - EXPONENT_WHOLE) as nat)
    }
}

/// A finite double cut off at the point: the integer next to it on the
/// side of zero.
pub open spec fn spec_truncated(bits: u64) -> int {
    if spec_is_negative(bits) {
        -spec_whole_part(bits)
    } else {
        spec_whole_part(bits)
    }
}

/// Whether a finite double has digits behind the point that are not zero.
pub open spec fn spec_has_fraction(bits: u64) -> bool {
    let exponent = spec_exponent(bits);
    if exponent < EXPONENT_BIAS {
        spec_magnitude(bits) != 0
    } else if exponent < EXPONENT_WHOLE {
        spec_significand(bits) & (((1u64 << ((EXPONENT_WHOLE - exponent) as u64)) - 1) as u64) != 0
    } else {
        false
    }
}

/// Whether a double is the integer `n`.
pub open spec fn spec_eq_integer(bits: u64, n: int) -> bool {
    spec_is_finite(bits) && !spec_has_fraction(bits) && spec_truncated(bits) == n
}

/// Whether the integer `n` is less than a double.
pub open spec fn spec_integer_lt(n: int, bits: u64) -> bool {
    if spec_is_nan(bits) {
        false
    } else if !spec_is_finite(bits) {
        !spec_is_negative(bits)
    } else {
        n < spec_truncated(bits) || (n == spec_truncated(bits) && spec_has_fraction(bits)
            && !spec_is_negative(bits))
    }
}

/// Whether the integer `n` is greater than a double.
pub open spec fn spec_integer_gt(n: int, bits: u64) -> bool {
    if spec_is_nan(bits) {
        false
    } else if !spec_is_finite(bits) {
        spec_is_negative(bits)
    } else {
        n > spec_truncated(bits) || (n == spec_truncated(bits) && spec_has_fraction(bits)
            && spec_is_negative(bits))
    }
}

/// The power of two that the digits of a double are multiplied by, counted
/// from that of the least double.
pub open spec fn spec_scale(bits: u64) -> nat {
    if spec_exponent(bits) == 0 {
        0
    } else {
        (spec_exponent(bits) - 1) as nat
    }
}

/// The absolute value of a finite double, counted in the least double
/// above zero: the digits times their power of two.
pub open spec fn spec_units(bits: u64) -> int {
    spec_significand(bits) * pow2(spec_scale(bits))
}

/// The value of a finite double, counted in the least double above zero.
pub open spec fn spec_signed_units(bits: u64) -> int {
    if spec_is_negative(bits) {
        -spec_units(bits)
    } else {
        spec_units(bits)
    }
}

/// The number of least doubles in 1: two to the power of 1074.
pub open spec fn spec_units_of_one() -> int {
    pow2(1074) as int
}

/// A magnitude is ordered by its exponent, and under one exponent by its
/// fraction.
proof fn lemma_magnitude_order(a: u64, b: u64)
    by (bit_vector)
    ensures
        (a & 0x7FFF_FFFF_FFFF_FFFF) < (b & 0x7FFF_FFFF_FFFF_FFFF) <==> ((a >> 52) & 0x7FF) < ((b
            >> 52) & 0x7FF) || (((a >> 52) & 0x7FF) == ((b >> 52) & 0x7FF) && (a
            & 0x000F_FFFF_FFFF_FFFF) < (b & 0x000F_FFFF_FFFF_FFFF)),
        (a & 0x7FFF_FFFF_FFFF_FFFF) == (b & 0x7FFF_FFFF_FFFF_FFFF) <==> (((a >> 52) & 0x7FF) == ((b
            >> 52) & 0x7FF) && (a & 0x000F_FFFF_FFFF_FFFF) == (b & 0x000F_FFFF_FFFF_FFFF)),
        (a & 0x000F_FFFF_FFFF_FFFF) | 0x0010_0000_0000_0000 == (a & 0x000F_FFFF_FFFF_FFFF)
            + 0x0010_0000_0000_0000,
        (a & 0x000F_FFFF_FFFF_FFFF) < 0x0010_0000_0000_0000,
        (a & 0x7FFF_FFFF_FFFF_FFFF) == 0 <==> (((a >> 52) & 0x7FF) == 0 && (a
            & 0x000F_FFFF_FFFF_FFFF) == 0),
{
}

/// A double with the lesser exponent, or with the same exponent and the
/// lesser fraction, is worth less.
proof fn lemma_units_increase(a: u64, b: u64)
    requires
        spec_exponent(a) < spec_exponent(b) || (spec_exponent(a) == spec_exponent(b) && (a
            & FRACTION_MASK) < (b & FRACTION_MASK)),
    ensures
        spec_units(a) < spec_units(b),
{
    lemma_magnitude_order(a, b);
    lemma_magnitude_order(b, a);
    let sa = spec_significand(a) as int;
    let sb = spec_significand(b) as int;
    let ka = spec_scale(a);
    let kb = spec_scale(b);
    vstd::arithmetic::power2::lemma_pow2_pos(ka);
    vstd::arithmetic::power2::lemma_pow2_pos(kb);
    if ka == kb {
        // the same power of two: the digits decide
        assert(sa < sb);
        assert(sa * pow2(ka) < sb * pow2(ka)) by (nonlinear_arith)
            requires
                sa < sb,
                pow2(ka) > 0,
        ;
    } else {
        // a greater power of two outweighs the digits
        assert(ka < kb);
        assert(sa < 0x0020_0000_0000_0000);
        assert(sb >= 0x0010_0000_0000_0000);
        vstd::arithmetic::power2::lemma_pow2_unfold(ka + 1);
        if ka + 1 < kb {
            vstd::arithmetic::power2::lemma_pow2_strictly_increases(ka + 1, kb);
        }
        assert(sa * pow2(ka) < sb * pow2(kb)) by (nonlinear_arith)
            requires
                0 <= sa < 0x0020_0000_0000_0000,
                sb >= 0x0010_0000_0000_0000,
                pow2(ka) > 0,
                2 * pow2(ka) <= pow2(kb),
        ;
    }
}

/// The magnitudes of two doubles are ordered as what the doubles are
/// worth.
pub proof fn lemma_magnitude_orders_units(a: u64, b: u64)
    ensures
        spec_magnitude(a) < spec_magnitude(b) <==> spec_units(a) < spec_units(b),
        spec_magnitude(a) == spec_magnitude(b) <==> spec_units(a) == spec_units(b),
        spec_magnitude(a) == 0 <==> spec_units(a) == 0,
{
    lemma_magnitude_order(a, b);
    lemma_magnitude_order(b, a);
    if spec_magnitude(a) < spec_magnitude(b) {
        lemma_units_increase(a, b);
    } else if spec_magnitude(b) < spec_magnitude(a) {
        lemma_units_increase(b, a);
    }
    vstd::arithmetic::power2::lemma_pow2_pos(spec_scale(a));
    assert(spec_magnitude(a) == 0 <==> spec_units(a) == 0) by {
        let sa = spec_significand(a) as int;
        let p = pow2(spec_scale(a)) as int;
        assert(sa * p == 0 <==> sa == 0) by (nonlinear_arith)
            requires
                p > 0,
                sa >= 0,
        ;
    }
}

/// The keys of two doubles are ordered as the values of the doubles.
pub proof fn lemma_key_orders_units(a: u64, b: u64)
    ensures
        spec_key(a) < spec_key(b) <==> spec_signed_units(a) < spec_signed_units(b),
        spec_key(a) == spec_key(b) <==> spec_signed_units(a) == spec_signed_units(b),
{
    lemma_magnitude_orders_units(a, b);
    lemma_magnitude_orders_units(b, a);
    vstd::arithmetic::power2::lemma_pow2_pos(spec_scale(a));
    vstd::arithmetic::power2::lemma_pow2_pos(spec_scale(b));
    assert(spec_units(a) >= 0) by (nonlinear_arith)
        requires
            spec_units(a) == spec_significand(a) * pow2(spec_scale(a)),
            pow2(spec_scale(a)) > 0,
    ;
    assert(spec_units(b) >= 0) by (nonlinear_arith)
        requires
            spec_units(b) == spec_significand(b) * pow2(spec_scale(b)),
            pow2(spec_scale(b)) > 0,
    ;
}

/// The digits of a double split at a place: what lies above the place,
/// times the power of two of the place, and what lies below.
proof fn lemma_split_digits(digits: u64, place: u64)
    requires
        place <= 52,
        digits <= 0x001F_FFFF_FFFF_FFFF,
    ensures
        digits == (digits >> place) * pow2(place as nat) + (digits & (((1u64 << place) - 1) as u64)),
        0 <= (digits & (((1u64 << place) - 1) as u64)) < pow2(place as nat),
{
    vstd::arithmetic::power2::lemma2_to64();
    vstd::arithmetic::power2::lemma2_to64_rest();
    vstd::arithmetic::power2::lemma_pow2_pos(place as nat);
    if place < 52 {
        vstd::arithmetic::power2::lemma_pow2_strictly_increases(place as nat, 52);
    }
    assert(1 * pow2(place as nat) <= u64::MAX);
    vstd::bits::lemma_u64_shl_is_mul(1, place);
    vstd::bits::lemma_u64_shr_is_div(digits, place);
    vstd::bits::lemma_u64_low_bits_mask_is_mod(digits, place as nat);
    let p = pow2(place as nat);
    assert((1u64 << place) == p);
    assert(((1u64 << place) - 1) as u64 == vstd::bits::low_bits_mask(place as nat) as u64);
    assert((digits & (((1u64 << place) - 1) as u64)) == digits % (p as u64));
    vstd::arithmetic::div_mod::lemma_fundamental_div_mod(digits as int, p as int);
    vstd::arithmetic::div_mod::lemma_mod_bound(digits as int, p as int);
    assert(p * (digits as int / p as int) == (digits as int / p as int) * p) by (nonlinear_arith);
}

/// What a finite double is worth is its whole part, and below one what
/// is left: nothing, where the double has no digits behind the point.
pub proof fn lemma_units_of_parts(bits: u64)
    requires
        spec_is_finite(bits),
    ensures
        0 <= spec_units(bits) - spec_whole_part(bits) * spec_units_of_one() < spec_units_of_one(),
        spec_units(bits) == spec_whole_part(bits) * spec_units_of_one() <==> !spec_has_fraction(
            bits,
        ),
        spec_whole_part(bits) >= 0,
{
    lemma_parts(bits);
    lemma_magnitude_order(bits, bits);
    lemma_magnitude_orders_units(bits, bits);
    let e = spec_exponent(bits);
    let digits = spec_significand(bits);
    let scale = spec_scale(bits);
    let one = spec_units_of_one();
    vstd::arithmetic::power2::lemma_pow2_pos(scale);
    vstd::arithmetic::power2::lemma_pow2_pos(1074);
    vstd::arithmetic::power2::lemma2_to64_rest();
    if e < EXPONENT_BIAS {
        // all of it lies below one
        assert(scale <= 1021);
        if scale < 1021 {
            vstd::arithmetic::power2::lemma_pow2_strictly_increases(scale, 1021);
        }
        vstd::arithmetic::power2::lemma_pow2_adds(53, 1021);
        assert(digits * pow2(scale) < pow2(53) * pow2(1021)) by (nonlinear_arith)
            requires
                0 <= digits < pow2(53),
                0 < pow2(scale) <= pow2(1021),
        ;
        assert(digits * pow2(scale) >= 0) by (nonlinear_arith)
            requires
                0 <= digits,
                0 < pow2(scale),
        ;
    } else if e <= EXPONENT_WHOLE {
        let place = (EXPONENT_WHOLE - e) as u64;
        lemma_split_digits(digits, place);
        let high = (digits >> place) as int;
        let low = (digits & (((1u64 << place) - 1) as u64)) as int;
        let p = pow2(place as nat) as int;
        let q = pow2(scale) as int;
        vstd::arithmetic::power2::lemma_pow2_adds(place as nat, scale);
        assert(place + scale == 1074);
        assert(p * q == one);
        assert((high * p + low) * q == high * (p * q) + low * q) by (nonlinear_arith);
        assert(0 <= low * q < p * q) by (nonlinear_arith)
            requires
                0 <= low < p,
                q > 0,
        ;
        assert(low * q == 0 <==> low == 0) by (nonlinear_arith)
            requires
                0 <= low,
                q > 0,
        ;
        assert(high >= 0);
        if e == EXPONENT_WHOLE {
            assert(low == 0) by {
                assert(digits & (((1u64 << 0u64) - 1) as u64) == 0) by (bit_vector);
            }
        }
    } else {
        // the double is whole
        let up = (e - EXPONENT_WHOLE) as nat;
        vstd::arithmetic::power2::lemma_pow2_adds(up, 1074);
        vstd::arithmetic::power2::lemma_pow2_pos(up);
        assert(up + 1074 == scale);
        assert(digits * (pow2(up) * pow2(1074)) == (digits * pow2(up)) * pow2(1074))
            by (nonlinear_arith);
        assert(digits * pow2(up) >= 0) by (nonlinear_arith)
            requires
                digits >= 0,
                pow2(up) > 0,
        ;
    }
}

/// An integer is ordered beside a finite double as what the two are
/// worth: the integer counts as many least doubles as there are in 1 for
/// each of its units.
pub proof fn lemma_integer_order_is_by_units(n: int, bits: u64)
    requires
        spec_is_finite(bits),
    ensures
        spec_integer_lt(n, bits) <==> n * spec_units_of_one() < spec_signed_units(bits),
        spec_integer_gt(n, bits) <==> n * spec_units_of_one() > spec_signed_units(bits),
        spec_eq_integer(bits, n) <==> n * spec_units_of_one() == spec_signed_units(bits),
{
    lemma_parts(bits);
    lemma_units_of_parts(bits);
    vstd::arithmetic::power2::lemma_pow2_pos(1074);
    let one = spec_units_of_one();
    let whole = spec_whole_part(bits);
    let rest = spec_units(bits) - whole * one;
    assert(0 <= rest < one);
    assert(rest == 0 <==> !spec_has_fraction(bits));
    if spec_is_negative(bits) {
        let d = n + whole;
        assert(n * one - (-(whole * one + rest)) == d * one + rest) by (nonlinear_arith)
            requires
                d == n + whole,
        ;
        assert(d <= -1 ==> d * one + rest < 0) by (nonlinear_arith)
            requires
                0 <= rest < one,
        ;
        assert(d >= 1 ==> d * one + rest > 0) by (nonlinear_arith)
            requires
                0 <= rest < one,
        ;
        assert(d == 0 ==> d * one + rest == rest) by (nonlinear_arith);
    } else {
        let d = n - whole;
        assert(n * one - (whole * one + rest) == d * one - rest) by (nonlinear_arith)
            requires
                d == n - whole,
        ;
        assert(d <= -1 ==> d * one - rest < 0) by (nonlinear_arith)
            requires
                0 <= rest < one,
        ;
        assert(d >= 1 ==> d * one - rest > 0) by (nonlinear_arith)
            requires
                0 <= rest < one,
        ;
        assert(d == 0 ==> d * one - rest == -rest) by (nonlinear_arith);
    }
}

/// The key of a double that is a number lies between those of the two
/// infinite doubles, and strictly where the double is finite.
pub proof fn lemma_key_bounds(bits: u64)
    ensures
        spec_is_finite(bits) ==> -(INFINITY as int) < spec_key(bits) < INFINITY as int,
        !spec_is_finite(bits) && !spec_is_nan(bits) ==> spec_key(bits) == (if spec_is_negative(
            bits,
        ) {
            -(INFINITY as int)
        } else {
            INFINITY as int
        }),
{
    lemma_parts(bits);
}

proof fn lemma_parts(bits: u64)
    by (bit_vector)
    ensures
        bits & 0x7FFF_FFFF_FFFF_FFFF <= 0x7FFF_FFFF_FFFF_FFFF,
        (bits >> 52) & 0x7FF <= 0x7FF,
        (bits & 0x000F_FFFF_FFFF_FFFF) | 0x0010_0000_0000_0000 <= 0x001F_FFFF_FFFF_FFFF,
        bits & 0x000F_FFFF_FFFF_FFFF <= 0x000F_FFFF_FFFF_FFFF,
        (bits & 0x7FFF_FFFF_FFFF_FFFF < 0x7FF0_0000_0000_0000) == ((bits >> 52) & 0x7FF < 0x7FF),
{
}

pub fn is_nan(bits: u64) -> (r: bool)
    ensures
        r == spec_is_nan(bits),
{
    bits & MAGNITUDE_MASK > INFINITY
}

pub fn is_finite(bits: u64) -> (r: bool)
    ensures
        r == spec_is_finite(bits),
{
    bits & MAGNITUDE_MASK < INFINITY
}

pub fn is_negative(bits: u64) -> (r: bool)
    ensures
        r == spec_is_negative(bits),
{
    bits & SIGN_BIT != 0
}

/// The magnitude with the sign.
pub fn key(bits: u64) -> (r: i64)
    ensures
        r == spec_key(bits),
{
    proof {
        lemma_parts(bits);
    }
    let magnitude: u64 = bits & MAGNITUDE_MASK;
    if bits & SIGN_BIT != 0 {
        -(magnitude as i64)
    } else {
        magnitude as i64
    }
}

/// Equality of two doubles.
pub fn eq(a: u64, b: u64) -> (r: bool)
    ensures
        r == spec_eq(a, b),
{
    !is_nan(a) && !is_nan(b) && key(a) == key(b)
}

/// Whether the first double is less than the second.
pub fn lt(a: u64, b: u64) -> (r: bool)
    ensures
        r == spec_lt(a, b),
{
    !is_nan(a) && !is_nan(b) && key(a) < key(b)
}

/// Whether a finite double has digits behind the point that are not zero.
pub fn has_fraction(bits: u64) -> (r: bool)
    ensures
        r == spec_has_fraction(bits),
{
    proof {
        lemma_parts(bits);
    }
    let exponent: u64 = (bits >> 52) & 0x7FF;
    if exponent < EXPONENT_BIAS {
        bits & MAGNITUDE_MASK != 0
    } else if exponent < EXPONENT_WHOLE {
        let significand: u64 = (bits & FRACTION_MASK) | HIDDEN_BIT;
        let low: u64 = EXPONENT_WHOLE - exponent;
        assert((1u64 << low) >= 1) by (bit_vector)
            requires
                low < 64,
        ;
        significand & ((1u64 << low) - 1) != 0
    } else {
        false
    }
}

/// A finite double cut off at the point, as an integer in canonical form.
pub fn truncated(bits: u64) -> (r: IntegerLike)
    requires
        spec_is_finite(bits),
    ensures
        r.spec_value() == spec_truncated(bits),
        r.spec_is_canonical(),
{
    proof {
        lemma_parts(bits);
    }
    let exponent: u64 = (bits >> 52) & 0x7FF;
    let significand: u64 = if exponent == 0 {
        bits & FRACTION_MASK
    } else {
        (bits & FRACTION_MASK) | HIDDEN_BIT
    };
    let negative: bool = bits & SIGN_BIT != 0;
    if exponent < EXPONENT_BIAS {
        IntegerLike::Integer(0)
    } else if exponent <= EXPONENT_WHOLE {
        let whole: u64 = significand >> (EXPONENT_WHOLE - exponent);
        assert(whole <= 0x001F_FFFF_FFFF_FFFF) by (bit_vector)
            requires
                whole == significand >> ((1075 - exponent) as u64),
                significand <= 0x001F_FFFF_FFFF_FFFF,
                exponent <= 1075,
        ;
        let signed: i64 = if negative { -(whole as i64) } else { whole as i64 };
        demote(big_from_i64(signed))
    } else {
        let signed: i64 = if negative { -(significand as i64) } else { significand as i64 };
        let r = demote(big_shl(&big_from_i64(signed), (exponent - EXPONENT_WHOLE) as u32));
        proof {
            let p = pow2((exponent - EXPONENT_WHOLE) as nat) as int;
            assert((-(significand as int)) * p == -(significand * p)) by (nonlinear_arith);
        }
        r
    }
}

/// Whether a double is the integer `n`.
pub fn eq_integer(bits: u64, n: &IntegerLike) -> (r: bool)
    ensures
        r == spec_eq_integer(bits, n.spec_value()),
{
    if !is_finite(bits) || has_fraction(bits) {
        false
    } else {
        n.eq_value(&truncated(bits))
    }
}

/// Whether the integer `n` is less than a double.
pub fn integer_lt(n: &IntegerLike, bits: u64) -> (r: bool)
    ensures
        r == spec_integer_lt(n.spec_value(), bits),
{
    if is_nan(bits) {
        false
    } else if !is_finite(bits) {
        !is_negative(bits)
    } else {
        let whole = truncated(bits);
        n.lt(&whole) || (n.eq_value(&whole) && has_fraction(bits) && !is_negative(bits))
    }
}

/// Whether the integer `n` is greater than a double.
pub fn integer_gt(n: &IntegerLike, bits: u64) -> (r: bool)
    ensures
        r == spec_integer_gt(n.spec_value(), bits),
{
    if is_nan(bits) {
        false
    } else if !is_finite(bits) {
        is_negative(bits)
    } else {
        let whole = truncated(bits);
        n.gt(&whole) || (n.eq_value(&whole) && has_fraction(bits) && is_negative(bits))
    }
}

} // verus!
