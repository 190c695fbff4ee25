//! The numeric tower on integers: arithmetic that moves to arbitrary
//! precision when a machine integer overflows, and back when the result
//! fits in one again.

use crate::bigint::big_abs;
use crate::bigint::big_add;
use crate::bigint::big_bitand;
use crate::bigint::big_bitxor;
use crate::bigint::big_div;
use crate::bigint::big_eq;
use crate::bigint::big_from_i64;
use crate::bigint::big_from_signed_bytes_le;
use crate::bigint::big_mul;
use crate::bigint::big_parse;
use crate::bigint::big_rem;
use crate::bigint::big_shl;
use crate::bigint::big_sqrt;
use crate::bigint::big_sub;
use crate::bigint::big_to_signed_bytes_le;
use crate::bigint::big_to_string;
use crate::bigint::biguint_from_bytes_le;
use crate::bigint::biguint_shr;
use crate::bigint::biguint_to_bytes_le;
use crate::bigint::i32_to_string;
use crate::bigint::parse_i32;
use crate::bigint::spec_big_value;
use crate::bigint::spec_bitand;
use crate::bigint::spec_bitxor;
use crate::bigint::spec_decimal;
use crate::bigint::spec_is_shortest_signed;
use crate::bigint::spec_is_shortest_unsigned;
use crate::bigint::spec_le_signed;
use crate::bigint::spec_le_unsigned;
use crate::bigint::spec_parse_decimal;
use crate::bigint::spec_parse_i32;
use crate::bigint::spec_trunc_div;
use crate::bigint::spec_trunc_rem;
use crate::bigint::utf8_text;
use crate::convert::IntegerLike;
use crate::convert::StringLike;
use crate::convert::demote;
use crate::interned::SymbolTable;
use crate::string::compact;
use crate::tiny_str;
use num_bigint::BigInt;
use rand::Rng;
use vstd::arithmetic::power2::pow2;
use vstd::prelude::*;
use vstd::string::StrSliceExecFns;
use vstd::utf8::decode_utf8;
use vstd::utf8::encode_utf8;
use vstd::utf8::valid_utf8;

verus! {

/// The operand as an arbitrary-precision integer.
pub fn promote(a: &IntegerLike) -> (r: BigInt)
    ensures
        spec_big_value(r) == a.spec_value(),
{
    match a {
        IntegerLike::Integer(value) => big_from_i64(*value as i64),
        IntegerLike::BigInteger(value) => value.clone(),
    }
}

/// Sum of two integers. It never wraps: a sum that leaves the machine
/// range is held as a big integer.
pub fn plus(a: &IntegerLike, b: &IntegerLike) -> (r: IntegerLike)
    ensures
        r.spec_value() == a.spec_value() + b.spec_value(),
        r.spec_is_canonical(),
{
    match (a, b) {
        (IntegerLike::Integer(x), IntegerLike::Integer(y)) => match x.checked_add(*y) {
            Some(value) => IntegerLike::Integer(value),
            None => demote(big_add(&big_from_i64(*x as i64), &big_from_i64(*y as i64))),
        },
        (IntegerLike::BigInteger(x), IntegerLike::BigInteger(y)) => demote(big_add(x, y)),
        (IntegerLike::BigInteger(x), IntegerLike::Integer(y)) => demote(
            big_add(x, &big_from_i64(*y as i64)),
        ),
        (IntegerLike::Integer(x), IntegerLike::BigInteger(y)) => demote(
            big_add(y, &big_from_i64(*x as i64)),
        ),
    }
}

/// Difference of two integers. It never wraps.
pub fn minus(a: &IntegerLike, b: &IntegerLike) -> (r: IntegerLike)
    ensures
        r.spec_value() == a.spec_value() - b.spec_value(),
        r.spec_is_canonical(),
{
    match (a, b) {
        (IntegerLike::Integer(x), IntegerLike::Integer(y)) => match x.checked_sub(*y) {
            Some(value) => IntegerLike::Integer(value),
            None => demote(big_sub(&big_from_i64(*x as i64), &big_from_i64(*y as i64))),
        },
        (IntegerLike::BigInteger(x), IntegerLike::BigInteger(y)) => demote(big_sub(x, y)),
        (IntegerLike::BigInteger(x), IntegerLike::Integer(y)) => demote(
            big_sub(x, &big_from_i64(*y as i64)),
        ),
        (IntegerLike::Integer(x), IntegerLike::BigInteger(y)) => demote(
            big_sub(&big_from_i64(*x as i64), y),
        ),
    }
}

/// Product of two integers. It never wraps.
pub fn times(a: &IntegerLike, b: &IntegerLike) -> (r: IntegerLike)
    ensures
        r.spec_value() == a.spec_value() * b.spec_value(),
        r.spec_is_canonical(),
{
    match (a, b) {
        (IntegerLike::Integer(x), IntegerLike::Integer(y)) => match x.checked_mul(*y) {
            Some(value) => IntegerLike::Integer(value),
            None => demote(big_mul(&big_from_i64(*x as i64), &big_from_i64(*y as i64))),
        },
        (IntegerLike::BigInteger(x), IntegerLike::BigInteger(y)) => demote(big_mul(x, y)),
        (IntegerLike::BigInteger(x), IntegerLike::Integer(y)) => demote(
            big_mul(x, &big_from_i64(*y as i64)),
        ),
        (IntegerLike::Integer(x), IntegerLike::BigInteger(y)) => {
            let r = demote(big_mul(y, &big_from_i64(*x as i64)));
            assert(spec_big_value(*y) * (*x) == (*x) * spec_big_value(*y)) by (nonlinear_arith);
            r
        },
    }
}

/// Quotient of two integers, rounded toward zero. The one quotient of
/// machine integers that leaves the machine range is held as a big integer.
pub fn divide(a: &IntegerLike, b: &IntegerLike) -> (r: IntegerLike)
    requires
        b.spec_value() != 0,
    ensures
        r.spec_value() == spec_trunc_div(a.spec_value(), b.spec_value()),
        r.spec_is_canonical(),
{
    match (a, b) {
        (IntegerLike::Integer(x), IntegerLike::Integer(y)) => match x.checked_div(*y) {
            Some(value) => IntegerLike::Integer(value),
            None => demote(big_div(&big_from_i64(*x as i64), &big_from_i64(*y as i64))),
        },
        (IntegerLike::BigInteger(x), IntegerLike::BigInteger(y)) => demote(big_div(x, y)),
        (IntegerLike::BigInteger(x), IntegerLike::Integer(y)) => demote(
            big_div(x, &big_from_i64(*y as i64)),
        ),
        (IntegerLike::Integer(x), IntegerLike::BigInteger(y)) => demote(
            big_div(&big_from_i64(*x as i64), y),
        ),
    }
}

/// Remainder of the division that rounds toward negative infinity: it has
/// the sign of the divisor.
pub open spec fn spec_floor_mod(a: int, b: int) -> int
    recommends
        b != 0,
{
    if b > 0 {
        a % b
    } else {
        -((-a) % (-b))
    }
}

pub open spec fn spec_abs(a: int) -> int {
    if a < 0 {
        -a
    } else {
        a
    }
}

/// The remainder of the division that rounds toward zero is the remainder
/// of the absolute values, with the sign of the dividend.
proof fn lemma_trunc_rem_is_signed_mod(a: int, b: int)
    requires
        b != 0,
    ensures
        spec_trunc_rem(a, b) == (if a < 0 {
            -(spec_abs(a) % spec_abs(b))
        } else {
            spec_abs(a) % spec_abs(b)
        }),
        0 <= spec_abs(a) % spec_abs(b) < spec_abs(b),
{
    let n = spec_abs(b);
    let m = spec_abs(a);
    let q = m / n;
    let e = m % n;
    vstd::arithmetic::div_mod::lemma_fundamental_div_mod(m, n);
    vstd::arithmetic::div_mod::lemma_mod_bound(m, n);
    assert(spec_trunc_div(a, b) == (if (a >= 0) == (b > 0) { q } else { -q }));
    assert(a - b * spec_trunc_div(a, b) == (if a < 0 { -e } else { e })) by (nonlinear_arith)
        requires
            m == n * q + e,
            n == (if b < 0 { -b } else { b }),
            m == (if a < 0 { -a } else { a }),
            b != 0,
            spec_trunc_div(a, b) == (if (a >= 0) == (b > 0) { q } else { -q }),
    ;
}

/// A number below `n` that differs from `a` by a multiple of `n` is the
/// remainder of `a` by `n`.
proof fn lemma_mod_unique(a: int, n: int, f: int, k: int)
    requires
        n > 0,
        f - a == n * k,
        0 <= f < n,
    ensures
        a % n == f,
{
    let q = a / n;
    let e = a % n;
    vstd::arithmetic::div_mod::lemma_fundamental_div_mod(a, n);
    vstd::arithmetic::div_mod::lemma_mod_bound(a, n);
    assert(k + q == 0) by (nonlinear_arith)
        requires
            f - a == n * k,
            a == n * q + e,
            0 <= e < n,
            0 <= f < n,
            n > 0,
    ;
    assert(f == e) by (nonlinear_arith)
        requires
            f - a == n * k,
            a == n * q + e,
            k + q == 0,
    ;
}

/// From the remainder that has the sign of the dividend to the one that
/// has the sign of the divisor.
proof fn lemma_floor_mod_from_trunc(a: int, b: int, r: int)
    requires
        b != 0,
        r == spec_trunc_rem(a, b),
    ensures
        spec_floor_mod(a, b) == (if r != 0 && ((r < 0) != (b < 0)) {
            r + b
        } else {
            r
        }),
        r != 0 && ((r < 0) != (b < 0)) ==> spec_abs(r + b) < spec_abs(b),
        spec_abs(r) < spec_abs(b),
{
    lemma_trunc_rem_is_signed_mod(a, b);
    let f: int = if r != 0 && ((r < 0) != (b < 0)) {
        r + b
    } else {
        r
    };
    let q = spec_trunc_div(a, b);
    assert(r == a - b * q);
    let t: int = if f == r { 0 } else { 1 };
    assert(b * t == (if t == 0 { 0 } else { b })) by (nonlinear_arith)
        requires
            t == 0 || t == 1,
    ;
    if b > 0 {
        let k: int = t - q;
        assert(f - a == b * k) by (nonlinear_arith)
            requires
                r == a - b * q,
                f == r + b * t,
                k == t - q,
        ;
        lemma_mod_unique(a, b, f, k);
    } else {
        let n = -b;
        let k: int = t - q;
        assert((-f) - (-a) == n * k) by (nonlinear_arith)
            requires
                r == a - b * q,
                f == r + b * t,
                k == t - q,
                n == -b,
        ;
        lemma_mod_unique(-a, n, -f, k);
    }
}

/// Remainder of an integer by a machine integer, with the sign of the
/// divisor.
pub fn modulo(a: &IntegerLike, b: i32) -> (r: IntegerLike)
    requires
        b != 0,
    ensures
        r.spec_value() == spec_floor_mod(a.spec_value(), b as int),
        r.spec_is_canonical(),
{
    match a {
        IntegerLike::Integer(x) => {
            match x.checked_rem(b) {
                Some(result) => {
                    proof {
                        lemma_trunc_rem_matches(*x as int, b as int);
                        lemma_floor_mod_from_trunc(*x as int, b as int, result as int);
                    }
                    if result != 0 && ((result < 0) != (b < 0)) {
                        IntegerLike::Integer(result + b)
                    } else {
                        IntegerLike::Integer(result)
                    }
                },
                None => {
                    // the least integer by -1: the machine has no remainder, and it is 0
                    proof {
                        lemma_mod_unique(-(*x as int), 1, 0, *x as int);
                    }
                    IntegerLike::Integer(0)
                },
            }
        },
        IntegerLike::BigInteger(x) => {
            let divisor = big_from_i64(b as i64);
            let result = big_rem(x, &divisor);
            let zero = big_from_i64(0);
            proof {
                lemma_floor_mod_from_trunc(spec_big_value(*x), b as int, spec_big_value(result));
            }
            let negative: bool = crate::bigint::big_lt(&result, &zero);
            let is_zero: bool = crate::bigint::big_eq(&result, &zero);
            if !is_zero && (negative != (b < 0)) {
                demote(big_add(&result, &divisor))
            } else {
                demote(result)
            }
        },
    }
}

/// The remainder as the machine computes it is the one of the division
/// that rounds toward zero.
proof fn lemma_trunc_rem_matches(x: int, d: int)
    requires
        d != 0,
    ensures
        spec_trunc_rem(x, d) == (if x == 0 {
            0
        } else if x > 0 && d > 0 {
            x % d
        } else if x < 0 && d < 0 {
            ((x * -1) % (d * -1)) * -1
        } else if x < 0 {
            ((x * -1) % d) * -1
        } else {
            x % (d * -1)
        }),
{
    lemma_trunc_rem_is_signed_mod(x, d);
    if x == 0 {
        vstd::arithmetic::div_mod::lemma_small_mod(0, spec_abs(d) as nat);
    }
}

/// Remainder of two machine integers, with the sign of the dividend.
pub fn remainder(a: i32, b: i32) -> (r: i32)
    requires
        b != 0,
    ensures
        r as int == spec_trunc_rem(a as int, b as int),
{
    proof {
        lemma_trunc_rem_matches(a as int, b as int);
        lemma_trunc_rem_is_signed_mod(a as int, b as int);
    }
    match a.checked_rem(b) {
        Some(value) => value,
        None => {
            proof {
                lemma_mod_unique(-(a as int), 1, 0, a as int);
            }
            0
        },
    }
}

/// One step of a bit operation on machine integers: the low bit, and the
/// rest moved down by one.
proof fn lemma_bit_step(a: i32, b: i32)
    by (bit_vector)
    ensures
        a == 2 * (a >> 1) + (a & 1),
        0 <= (a & 1) <= 1,
        (a & b) == 2 * ((a >> 1) & (b >> 1)) + (a & 1) * (b & 1),
        (a ^ b) == 2 * ((a >> 1) ^ (b >> 1)) + (if (a & 1) == (b & 1) { 0int } else { 1int }),
        0i32 & b == 0 && a & 0i32 == 0 && (-1i32) & b == b && a & (-1i32) == a,
        0i32 ^ b == b && a ^ 0i32 == a && (-1i32) ^ b == -b - 1 && a ^ (-1i32) == -a - 1,
{
}

/// The bit operations of the machine are those of the integers.
pub proof fn lemma_machine_bits(a: i32, b: i32)
    ensures
        spec_bitand(a as int, b as int) == (a & b) as int,
        spec_bitxor(a as int, b as int) == (a ^ b) as int,
    decreases spec_abs(a as int),
{
    lemma_bit_step(a, b);
    lemma_bit_step(b, a);
    if a != 0 && b != 0 && a != -1 && b != -1 {
        lemma_machine_bits(a >> 1, b >> 1);
    }
}

/// Bitwise and of two integers, each taken in two's complement with as
/// many sign bits as it takes.
pub fn bitand(a: &IntegerLike, b: &IntegerLike) -> (r: IntegerLike)
    ensures
        r.spec_value() == spec_bitand(a.spec_value(), b.spec_value()),
        r.spec_is_canonical(),
{
    match (a, b) {
        (IntegerLike::Integer(x), IntegerLike::Integer(y)) => {
            proof {
                lemma_machine_bits(*x, *y);
            }
            IntegerLike::Integer(*x & *y)
        },
        (IntegerLike::BigInteger(x), IntegerLike::BigInteger(y)) => demote(big_bitand(x, y)),
        (IntegerLike::BigInteger(x), IntegerLike::Integer(y)) => demote(
            big_bitand(x, &big_from_i64(*y as i64)),
        ),
        (IntegerLike::Integer(x), IntegerLike::BigInteger(y)) => demote(
            big_bitand(&big_from_i64(*x as i64), y),
        ),
    }
}

/// Bitwise exclusive or of two integers, each taken in two's complement
/// with as many sign bits as it takes.
pub fn bitxor(a: &IntegerLike, b: &IntegerLike) -> (r: IntegerLike)
    ensures
        r.spec_value() == spec_bitxor(a.spec_value(), b.spec_value()),
        r.spec_is_canonical(),
{
    match (a, b) {
        (IntegerLike::Integer(x), IntegerLike::Integer(y)) => {
            proof {
                lemma_machine_bits(*x, *y);
            }
            IntegerLike::Integer(*x ^ *y)
        },
        (IntegerLike::BigInteger(x), IntegerLike::BigInteger(y)) => demote(big_bitxor(x, y)),
        (IntegerLike::BigInteger(x), IntegerLike::Integer(y)) => demote(
            big_bitxor(x, &big_from_i64(*y as i64)),
        ),
        (IntegerLike::Integer(x), IntegerLike::BigInteger(y)) => demote(
            big_bitxor(&big_from_i64(*x as i64), y),
        ),
    }
}

/// Square root of a big integer that is not negative, rounded down.
pub fn sqrt(a: &BigInt) -> (r: IntegerLike)
    requires
        spec_big_value(*a) >= 0,
    ensures
        r.spec_is_canonical(),
        r.spec_value() >= 0,
        r.spec_value() * r.spec_value() <= spec_big_value(*a),
        spec_big_value(*a) < (r.spec_value() + 1) * (r.spec_value() + 1),
{
    demote(big_sqrt(a))
}

/// Absolute value of an integer. The least machine integer has none
/// among the machine integers: its absolute value is held as a big
/// integer.
pub fn abs(a: &IntegerLike) -> (r: IntegerLike)
    ensures
        r.spec_value() == spec_abs(a.spec_value()),
        r.spec_is_canonical(),
{
    match a {
        IntegerLike::Integer(x) => {
            if *x >= 0 {
                IntegerLike::Integer(*x)
            } else if *x == i32::MIN {
                demote(big_abs(&big_from_i64(*x as i64)))
            } else {
                IntegerLike::Integer(-*x)
            }
        },
        IntegerLike::BigInteger(x) => demote(big_abs(x)),
    }
}

/// The greater of two integers; the second where they are equal.
pub fn max(a: &IntegerLike, b: &IntegerLike) -> (r: IntegerLike)
    ensures
        r.spec_value() == (if a.spec_value() > b.spec_value() {
            a.spec_value()
        } else {
            b.spec_value()
        }),
        (r is BigInteger) == (if a.spec_value() > b.spec_value() {
            *a is BigInteger
        } else {
            *b is BigInteger
        }),
{
    if a.gt(b) {
        a.duplicate()
    } else {
        b.duplicate()
    }
}

/// The lesser of two integers; the first where they are equal.
pub fn min(a: &IntegerLike, b: &IntegerLike) -> (r: IntegerLike)
    ensures
        r.spec_value() == (if a.spec_value() > b.spec_value() {
            b.spec_value()
        } else {
            a.spec_value()
        }),
        (r is BigInteger) == (if a.spec_value() > b.spec_value() {
            *b is BigInteger
        } else {
            *a is BigInteger
        }),
{
    if a.gt(b) {
        b.duplicate()
    } else {
        a.duplicate()
    }
}

pub fn lt(a: &IntegerLike, b: &IntegerLike) -> (r: bool)
    ensures
        r == (a.spec_value() < b.spec_value()),
{
    a.lt(b)
}

pub fn lt_or_eq(a: &IntegerLike, b: &IntegerLike) -> (r: bool)
    ensures
        r == (a.spec_value() <= b.spec_value()),
{
    a.lt_or_eq(b)
}

pub fn gt(a: &IntegerLike, b: &IntegerLike) -> (r: bool)
    ensures
        r == (a.spec_value() > b.spec_value()),
{
    a.gt(b)
}

pub fn gt_or_eq(a: &IntegerLike, b: &IntegerLike) -> (r: bool)
    ensures
        r == (a.spec_value() >= b.spec_value()),
{
    a.gt_or_eq(b)
}

/// Equality of integers: by what they stand for, not by how they are held.
pub fn eq(a: &IntegerLike, b: &IntegerLike) -> (r: bool)
    ensures
        r == (a.spec_value() == b.spec_value()),
{
    a.eq_value(b)
}

/// Identity of integers: equal, and held in the same way.
pub fn eq_eq(a: &IntegerLike, b: &IntegerLike) -> (r: bool)
    ensures
        r == ((*a is BigInteger) == (*b is BigInteger) && a.spec_value() == b.spec_value()),
{
    match (a, b) {
        (IntegerLike::Integer(x), IntegerLike::Integer(y)) => *x == *y,
        (IntegerLike::BigInteger(x), IntegerLike::BigInteger(y)) => big_eq(x, y),
        _ => false,
    }
}

pub fn uneq(a: &IntegerLike, b: &IntegerLike) -> (r: bool)
    ensures
        r == (a.spec_value() != b.spec_value()),
{
    !a.eq_value(b)
}

/// An integer brought into the 32 bits of the machine, read as unsigned.
pub open spec fn spec_wrap_unsigned(value: int) -> int {
    value % 0x1_0000_0000
}

/// An integer brought into the 32 bits of the machine, read as signed.
pub open spec fn spec_wrap_signed(value: int) -> int {
    if value % 0x1_0000_0000 >= 0x8000_0000 {
        value % 0x1_0000_0000 - 0x1_0000_0000
    } else {
        value % 0x1_0000_0000
    }
}

/// The 32 bits of a machine integer, read as unsigned, are the integer
/// brought into 32 bits.
proof fn lemma_bits_of_integer(x: i32)
    ensures
        (x as u32) == spec_wrap_unsigned(x as int),
{
    assert((x as u32) == (if x < 0 {
        x + 0x1_0000_0000
    } else {
        x as int
    })) by (bit_vector);
}

/// An unsigned result as an operand in canonical form.
pub fn from_unsigned(value: u64) -> (r: IntegerLike)
    requires
        value <= i64::MAX,
    ensures
        r.spec_value() == value,
        r.spec_is_canonical(),
{
    if value <= 0x7FFF_FFFF {
        IntegerLike::Integer(value as i32)
    } else {
        IntegerLike::BigInteger(big_from_i64(value as i64))
    }
}

/// Logical shift to the left by `b` taken as an unsigned number. A machine
/// integer is taken as the unsigned number of its 32 bits. No bit is lost:
/// a result that leaves the machine range is held as a big integer.
pub fn shift_left(a: &IntegerLike, b: i32) -> (r: IntegerLike)
    ensures
        r.spec_is_canonical(),
        match *a {
            IntegerLike::Integer(x) => r.spec_value() == spec_wrap_unsigned(x as int) * pow2(
                spec_wrap_unsigned(b as int) as nat,
            ),
            IntegerLike::BigInteger(x) => r.spec_value() == spec_big_value(x) * pow2(
                spec_wrap_unsigned(b as int) as nat,
            ),
        },
{
    let shift: u32 = #[verifier::truncate]
    (b as u32);
    proof {
        lemma_bits_of_integer(b);
        if let IntegerLike::Integer(x) = *a {
            lemma_bits_of_integer(x);
        }
    }
    match a {
        IntegerLike::Integer(x) => {
            let bits: u32 = #[verifier::truncate]
            (*x as u32);
            if shift < 32 {
                proof {
                    vstd::arithmetic::power2::lemma2_to64();
                    if shift < 31 {
                        vstd::arithmetic::power2::lemma_pow2_strictly_increases(shift as nat, 31);
                    }
                    assert(bits * pow2(shift as nat) <= 0xFFFF_FFFF * 0x8000_0000) by (nonlinear_arith)
                        requires
                            bits <= 0xFFFF_FFFF,
                            pow2(shift as nat) <= 0x8000_0000,
                    ;
                    vstd::bits::lemma_u64_shl_is_mul(bits as u64, shift as u64);
                }
                from_unsigned((bits as u64) << (shift as u64))
            } else {
                demote(big_shl(&big_from_i64(bits as i64), shift))
            }
        },
        IntegerLike::BigInteger(x) => demote(big_shl(x, shift)),
    }
}

/// Logical shift to the right by `b` taken as an unsigned number. A
/// machine integer is taken as the unsigned number of its 32 bits, and a
/// shift by its width or more leaves 0. A big integer is taken as the
/// unsigned number of its shortest two's complement; the digits that are
/// left of it after the shift are read as a two's complement again.
pub fn shift_right(a: &IntegerLike, b: i32) -> (r: IntegerLike)
    ensures
        r.spec_is_canonical(),
        match *a {
            IntegerLike::Integer(x) => r.spec_value() == spec_wrap_unsigned(x as int) / pow2(
                spec_wrap_unsigned(b as int) as nat,
            ) as int,
            IntegerLike::BigInteger(x) => exists|from: Seq<u8>, to: Seq<u8>|
                {
                    &&& spec_is_shortest_signed(from, spec_big_value(x))
                    &&& spec_is_shortest_unsigned(
                        to,
                        spec_le_unsigned(from) / pow2(spec_wrap_unsigned(b as int) as nat),
                    )
                    &&& r.spec_value() == spec_le_signed(to)
                },
        },
{
    let shift: u32 = #[verifier::truncate]
    (b as u32);
    proof {
        lemma_bits_of_integer(b);
        if let IntegerLike::Integer(x) = *a {
            lemma_bits_of_integer(x);
        }
    }
    match a {
        IntegerLike::Integer(x) => {
            let bits: u32 = #[verifier::truncate]
            (*x as u32);
            if shift < 32 {
                proof {
                    vstd::bits::lemma_u32_shr_is_div(bits, shift);
                }
                from_unsigned((bits >> shift) as u64)
            } else {
                proof {
                    vstd::arithmetic::power2::lemma2_to64();
                    if shift > 32 {
                        vstd::arithmetic::power2::lemma_pow2_strictly_increases(32, shift as nat);
                    }
                    vstd::arithmetic::div_mod::lemma_basic_div(
                        bits as int,
                        pow2(shift as nat) as int,
                    );
                }
                IntegerLike::Integer(0)
            }
        },
        IntegerLike::BigInteger(x) => {
            let from = big_to_signed_bytes_le(x);
            let unsigned = biguint_from_bytes_le(from.as_slice());
            let shifted = biguint_shr(&unsigned, shift);
            let to = biguint_to_bytes_le(&shifted);
            let r = demote(big_from_signed_bytes_le(to.as_slice()));
            proof {
                let from_bytes = from@;
                let to_bytes = to@;
                assert(spec_is_shortest_signed(from_bytes, spec_big_value(*x))
                    && spec_is_shortest_unsigned(
                    to_bytes,
                    spec_le_unsigned(from_bytes) / pow2(spec_wrap_unsigned(b as int) as nat),
                ) && r.spec_value() == spec_le_signed(to_bytes));
            }
            r
        },
    }
}

/// The number that bytes stand for is that of the first `k`, and above
/// them that of the rest.
proof fn lemma_le_unsigned_split(bytes: Seq<u8>, k: int)
    requires
        0 <= k <= bytes.len(),
    ensures
        spec_le_unsigned(bytes) == spec_le_unsigned(bytes.subrange(0, k)) + vstd::arithmetic::power::pow(
            256,
            k as nat,
        ) * spec_le_unsigned(bytes.subrange(k, bytes.len() as int)),
    decreases k,
{
    let rest = bytes.subrange(k, bytes.len() as int);
    if k == 0 {
        assert(bytes.subrange(0, 0).len() == 0);
        assert(rest =~= bytes);
        assert(vstd::arithmetic::power::pow(256, 0) == 1) by {
            vstd::arithmetic::power::lemma_pow0(256);
        }
    } else {
        let tail = bytes.drop_first();
        lemma_le_unsigned_split(tail, k - 1);
        assert(tail.subrange(k - 1, tail.len() as int) =~= rest);
        assert(bytes.subrange(0, k).drop_first() =~= tail.subrange(0, k - 1));
        assert(bytes.subrange(0, k)[0] == bytes[0]);
        let low = spec_le_unsigned(tail.subrange(0, k - 1));
        let high = spec_le_unsigned(rest);
        let p = vstd::arithmetic::power::pow(256, (k - 1) as nat);
        assert(vstd::arithmetic::power::pow(256, k as nat) == 256 * p) by {
            reveal(vstd::arithmetic::power::pow);
        }
        assert(spec_le_unsigned(bytes) == bytes[0] + 256 * (low + p * high));
        assert(spec_le_unsigned(bytes.subrange(0, k)) == bytes[0] + 256 * low);
        assert(256 * (low + p * high) == 256 * low + (256 * p) * high) by (nonlinear_arith);
    }
}

/// The number that bytes stand for lies below the power of 256 of their
/// count.
proof fn lemma_le_unsigned_bound(bytes: Seq<u8>)
    ensures
        spec_le_unsigned(bytes) < vstd::arithmetic::power::pow(256, bytes.len()),
    decreases bytes.len(),
{
    if bytes.len() == 0 {
        vstd::arithmetic::power::lemma_pow0(256);
    } else {
        lemma_le_unsigned_bound(bytes.drop_first());
        let p = vstd::arithmetic::power::pow(256, (bytes.len() - 1) as nat);
        assert(vstd::arithmetic::power::pow(256, bytes.len()) == 256 * p) by {
            reveal(vstd::arithmetic::power::pow);
        }
        assert(bytes[0] + 256 * spec_le_unsigned(bytes.drop_first()) < 256 * p) by (nonlinear_arith)
            requires
                bytes[0] < 256,
                spec_le_unsigned(bytes.drop_first()) < p,
        ;
    }
}

/// Four bytes put together with shifts are worth what they are worth as
/// digits.
proof fn lemma_word_of_bytes(b0: u8, b1: u8, b2: u8, b3: u8)
    by (bit_vector)
    ensures
        ((b0 as u32) | ((b1 as u32) << 8) | ((b2 as u32) << 16) | ((b3 as u32) << 24)) == b0 + 256
            * b1 + 65536 * b2 + 16777216 * b3,
{
}

/// The powers of 256 up to the fourth.
proof fn lemma_powers_of_256()
    ensures
        vstd::arithmetic::power::pow(256, 0) == 1,
        vstd::arithmetic::power::pow(256, 1) == 256,
        vstd::arithmetic::power::pow(256, 2) == 65536,
        vstd::arithmetic::power::pow(256, 3) == 16777216,
        vstd::arithmetic::power::pow(256, 4) == 0x1_0000_0000,
{
    reveal_with_fuel(vstd::arithmetic::power::pow, 5);
}

/// The two's complement of an integer that does not fit in 32 bits, in as
/// few bytes as it takes, holds in its first four bytes the integer
/// brought into 32 bits.
proof fn lemma_low_word_wraps(bytes: Seq<u8>, value: int)
    requires
        spec_is_shortest_signed(bytes, value),
        !(i32::MIN <= value <= i32::MAX),
    ensures
        spec_low_word(bytes) == spec_wrap_unsigned(value),
        spec_low_word(bytes) as i32 == spec_wrap_signed(value),
{
    lemma_powers_of_256();
    lemma_le_unsigned_bound(bytes);
    let n = bytes.len();
    let whole = spec_le_unsigned(bytes);
    if n < 4 {
        // too few bytes for an integer of this size
        if n > 1 {
            vstd::arithmetic::power::lemma_pow_increases(256, n, 3);
        } else {
            vstd::arithmetic::power::lemma_pow_increases(256, 1, 3);
        }
        assert(false);
    }
    lemma_le_unsigned_split(bytes, 4);
    let first = bytes.subrange(0, 4);
    let rest = bytes.subrange(4, n as int);
    let low = spec_le_unsigned(first);
    let high = spec_le_unsigned(rest);
    assert(low == first[0] + 256 * first[1] + 65536 * first[2] + 16777216 * first[3]) by {
        reveal_with_fuel(spec_le_unsigned, 5);
        assert(first.drop_first()[0] == first[1]);
        assert(first.drop_first().drop_first()[0] == first[2]);
        assert(first.drop_first().drop_first().drop_first()[0] == first[3]);
        assert(first.drop_first().drop_first().drop_first().drop_first().len() == 0);
    }
    lemma_word_of_bytes(bytes[0], bytes[1], bytes[2], bytes[3]);
    assert(spec_low_word(bytes) == low);
    // above the first four bytes everything is a multiple of 2^32
    let above = vstd::arithmetic::power::pow(256, (n - 4) as nat);
    assert(vstd::arithmetic::power::pow(256, n) == 0x1_0000_0000 * above) by {
        vstd::arithmetic::power::lemma_pow_adds(256, 4, (n - 4) as nat);
    }
    let k: int = if bytes.last() > 0x7f {
        high - above
    } else {
        high as int
    };
    assert(value - low == 0x1_0000_0000 * k) by (nonlinear_arith)
        requires
            whole == low + 0x1_0000_0000 * high,
            value == (if bytes.last() > 0x7f {
                whole - 0x1_0000_0000 * above
            } else {
                whole as int
            }),
            k == (if bytes.last() > 0x7f {
                high - above
            } else {
                high as int
            }),
    ;
    lemma_mod_unique(value, 0x1_0000_0000, low as int, -k);
    let word = spec_low_word(bytes);
    assert(word as i32 == (if word >= 0x8000_0000u32 {
        word - 0x1_0000_0000
    } else {
        word as int
    })) by (bit_vector);
}

/// The byte at a place, or zero behind the last.
pub open spec fn spec_byte_or_zero(bytes: Seq<u8>, i: int) -> u8 {
    if 0 <= i < bytes.len() {
        bytes[i]
    } else {
        0
    }
}

/// The 32 bits that the first four bytes hold, the lowest byte first;
/// bytes that are missing count as zero.
pub open spec fn spec_low_word(bytes: Seq<u8>) -> u32 {
    (spec_byte_or_zero(bytes, 0) as u32) | ((spec_byte_or_zero(bytes, 1) as u32) << 8) | ((
    spec_byte_or_zero(bytes, 2) as u32) << 16) | ((spec_byte_or_zero(bytes, 3) as u32) << 24)
}

/// The 32 bits that the first four bytes hold.
pub fn low_word(bytes: &[u8]) -> (r: u32)
    ensures
        r == spec_low_word(bytes@),
{
    let b0: u8 = if bytes.len() > 0 { bytes[0] } else { 0 };
    let b1: u8 = if bytes.len() > 1 { bytes[1] } else { 0 };
    let b2: u8 = if bytes.len() > 2 { bytes[2] } else { 0 };
    let b3: u8 = if bytes.len() > 3 { bytes[3] } else { 0 };
    (b0 as u32) | ((b1 as u32) << 8) | ((b2 as u32) << 16) | ((b3 as u32) << 24)
}

/// The integer as a signed 32-bit value: a machine integer as it is, a big
/// integer by the low 32 bits of its shortest two's complement. For an
/// integer in canonical form that is the integer brought into 32 bits.
pub fn as_32bit_signed_value(receiver: &IntegerLike) -> (r: i32)
    ensures
        receiver.spec_is_canonical() ==> r == spec_wrap_signed(receiver.spec_value()),
        match *receiver {
            IntegerLike::Integer(x) => r == x,
            IntegerLike::BigInteger(x) => exists|bytes: Seq<u8>|
                spec_is_shortest_signed(bytes, spec_big_value(x)) && r == spec_low_word(bytes) as i32,
        },
{
    match receiver {
        IntegerLike::Integer(x) => *x,
        IntegerLike::BigInteger(x) => {
            let bytes = big_to_signed_bytes_le(x);
            let word: u32 = low_word(bytes.as_slice());
            let r: i32 = #[verifier::truncate]
            (word as i32);
            proof {
                let shown = bytes@;
                assert(spec_is_shortest_signed(shown, spec_big_value(*x)) && r == spec_low_word(
                    shown,
                ) as i32);
                if receiver.spec_is_canonical() {
                    lemma_low_word_wraps(shown, spec_big_value(*x));
                }
            }
            r
        },
    }
}

/// The integer as an unsigned 32-bit value: the 32 bits of a machine
/// integer, the low 32 bits of the shortest two's complement of a big one.
/// For an integer in canonical form that is the integer brought into 32
/// bits.
pub fn as_32bit_unsigned_value(receiver: &IntegerLike) -> (r: IntegerLike)
    ensures
        r.spec_is_canonical(),
        receiver.spec_is_canonical() ==> r.spec_value() == spec_wrap_unsigned(
            receiver.spec_value(),
        ),
        match *receiver {
            IntegerLike::Integer(x) => r.spec_value() == spec_wrap_unsigned(x as int),
            IntegerLike::BigInteger(x) => exists|bytes: Seq<u8>|
                spec_is_shortest_signed(bytes, spec_big_value(x)) && r.spec_value()
                    == spec_low_word(bytes),
        },
{
    match receiver {
        IntegerLike::Integer(x) => {
            let word: u32 = #[verifier::truncate]
            (*x as u32);
            proof {
                lemma_bits_of_integer(*x);
            }
            from_unsigned(word as u64)
        },
        IntegerLike::BigInteger(x) => {
            let bytes = big_to_signed_bytes_le(x);
            let word: u32 = low_word(bytes.as_slice());
            let r = from_unsigned(word as u64);
            proof {
                let shown = bytes@;
                assert(spec_is_shortest_signed(shown, spec_big_value(*x)) && r.spec_value()
                    == spec_low_word(shown));
                if receiver.spec_is_canonical() {
                    lemma_low_word_wraps(shown, spec_big_value(*x));
                }
            }
            r
        },
    }
}

/// The integers from `a` to `b`, both counted in, in rising order.
pub fn to(a: i32, b: i32) -> (r: Vec<i32>)
    ensures
        r@.len() == (if a <= b { b - a + 1 } else { 0 }),
        forall|i: int| 0 <= i < r@.len() ==> r@[i] == a + i,
{
    let mut out: Vec<i32> = Vec::new();
    if a > b {
        return out;
    }
    let mut next: i32 = a;
    while next < b
        invariant
            a <= next <= b,
            out@.len() == next - a,
            forall|i: int| 0 <= i < out@.len() ==> out@[i] == a + i,
        decreases b - next,
    {
        out.push(next);
        next = next + 1;
    }
    out.push(b);
    out
}

/// The decimal digits of an integer as a text, in the most compact form.
pub fn as_string(receiver: &IntegerLike) -> (r: StringLike)
    ensures
        crate::string::spec_is_compact(r, encode_utf8(spec_decimal(receiver.spec_value()))),
        (r is TinyStr) == tiny_str::spec_fits(encode_utf8(spec_decimal(receiver.spec_value()))),
        forall|any: SymbolTable|
            r.spec_content(any) == encode_utf8(spec_decimal(receiver.spec_value())),
{
    let digits: String = match receiver {
        IntegerLike::Integer(value) => i32_to_string(*value),
        IntegerLike::BigInteger(value) => big_to_string(value),
    };
    compact(digits.as_str().as_bytes_vec())
}

/// The integer that a text of bytes stands for, if it stands for one: the
/// bytes have to be UTF-8; a machine integer is read where the text is one,
/// and an integer of any size otherwise.
pub open spec fn spec_from_string(bytes: Seq<u8>) -> Option<int> {
    if !valid_utf8(bytes) {
        None
    } else {
        match spec_parse_i32(decode_utf8(bytes)) {
            Some(value) => Some(value as int),
            None => spec_parse_decimal(decode_utf8(bytes)),
        }
    }
}

/// Reads an integer from a text in decimal notation. The result is in
/// canonical form; there is none where the text is no integer.
pub fn from_string(string: &StringLike, table: &SymbolTable) -> (r: Option<IntegerLike>)
    requires
        string.spec_resolves(*table),
    ensures
        r is Some == spec_from_string(string.spec_content(*table)) is Some,
        r matches Some(value) ==> value.spec_is_canonical() && Some(value.spec_value())
            == spec_from_string(string.spec_content(*table)),
{
    let content = string.as_str(table);
    match utf8_text(content.as_slice()) {
        None => None,
        Some(text) => match parse_i32(text) {
            Some(value) => Some(IntegerLike::Integer(value)),
            None => match big_parse(text) {
                Ok(value) => Some(demote(value)),
                Err(_) => None,
            },
        },
    }
}

/// Why an integer primitive gave no result.
#[derive(Debug, PartialEq, Eq, Clone, Copy, Structural)]
pub enum IntegerError {
    /// The range that a random integer was asked from reaches beyond the
    /// machine integers.
    RangeTooBig,
}

/// `Rng::random_range` on `rand::rng()` and the range from 0 to `bound`,
/// both counted in: some integer of that range. It panics on an empty
/// range.
#[verifier::external_body]
fn random_up_to(bound: i32) -> (r: i32)
    requires
        bound >= 0,
    ensures
        0 <= r <= bound,
{
    rand::rng().random_range(0..=bound)
}

/// A random integer between 0 and the receiver, both counted in. There is
/// none for a big integer.
pub fn at_random(receiver: &IntegerLike) -> (r: Result<i32, IntegerError>)
    requires
        *receiver matches IntegerLike::Integer(bound) ==> bound >= 0,
    ensures
        match *receiver {
            IntegerLike::Integer(bound) => r matches Ok(chosen) && 0 <= chosen <= bound,
            IntegerLike::BigInteger(_) => r == Err::<i32, IntegerError>(IntegerError::RangeTooBig),
        },
{
    match receiver {
        IntegerLike::Integer(bound) => Ok(random_up_to(*bound)),
        IntegerLike::BigInteger(_) => Err(IntegerError::RangeTooBig),
    }
}

} // verus!
