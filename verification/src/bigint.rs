//! Arbitrary-precision integers and decimal notation: the contracts under
//! which this library calls `num_bigint`, and the standard library where
//! it turns integers into text and back.
//!
//! No function of this file is proved. Each holds one call, and its
//! contract says what the rest of the library takes that call to do.

use num_bigint::BigInt;
use num_bigint::BigUint;
use num_bigint::ParseBigIntError;
use num_traits::Signed;
use num_traits::ToPrimitive;
use vstd::arithmetic::power2::pow2;
use vstd::arithmetic::power::pow;
use vstd::prelude::*;

verus! {

/// `num_bigint::BigInt`, a signed integer of any size. What it holds is
/// spoken of through `spec_big_value` only.
#[verifier::external_type_specification]
#[verifier::external_body]
pub struct ExBigInt(BigInt);

/// `num_bigint::ParseBigIntError`, the error of a text that is no integer.
/// Nothing is said of what it holds.
#[verifier::external_type_specification]
#[verifier::external_body]
pub struct ExParseBigIntError(ParseBigIntError);

/// `num_bigint::BigUint`, an unsigned integer of any size. What it holds
/// is spoken of through `spec_biguint_value` only.
#[verifier::external_type_specification]
#[verifier::external_body]
pub struct ExBigUint(BigUint);

/// The number that a `BigUint` holds.
pub uninterp spec fn spec_biguint_value(n: BigUint) -> nat;

/// The integer that a `BigInt` holds.
pub uninterp spec fn spec_big_value(n: BigInt) -> int;

/// Bitwise and of two integers, each taken in two's complement with as
/// many sign bits as it takes: bit by bit from the low end, until one of
/// the two is all zeros or all ones.
pub open spec fn spec_bitand(a: int, b: int) -> int
    decreases (if a < 0 { -a } else { a }),
{
    if a == 0 || b == 0 {
        0
    } else if a == -1 {
        b
    } else if b == -1 {
        a
    } else {
        2 * spec_bitand(a / 2, b / 2) + (a % 2) * (b % 2)
    }
}

/// Bitwise exclusive or of two integers, each taken in two's complement
/// with as many sign bits as it takes: bit by bit from the low end, until
/// one of the two is all zeros or all ones.
pub open spec fn spec_bitxor(a: int, b: int) -> int
    decreases (if a < 0 { -a } else { a }),
{
    if a == 0 {
        b
    } else if b == 0 {
        a
    } else if a == -1 {
        -b - 1
    } else if b == -1 {
        -a - 1
    } else {
        2 * spec_bitxor(a / 2, b / 2) + (if a % 2 == b % 2 { 0int } else { 1int })
    }
}


/// The character of a decimal digit.
pub open spec fn spec_digit(digit: int) -> char
    recommends
        0 <= digit < 10,
{
    (48 + digit) as char
}

/// The decimal digits of a number, the highest first.
pub open spec fn spec_decimal_digits(value: nat) -> Seq<char>
    decreases value,
{
    if value < 10 {
        seq![spec_digit(value as int)]
    } else {
        spec_decimal_digits(value / 10).push(spec_digit(value as int % 10))
    }
}

/// The decimal digits of an integer, with a minus sign in front of a
/// negative one.
pub open spec fn spec_decimal(value: int) -> Seq<char> {
    if value < 0 {
        seq!['-'] + spec_decimal_digits((-value) as nat)
    } else {
        spec_decimal_digits(value as nat)
    }
}

/// The number that a text of decimal digits stands for; no number where
/// the text is empty or holds anything else.
pub open spec fn spec_digits_value(text: Seq<char>) -> Option<nat>
    decreases text.len(),
{
    if text.len() == 0 {
        None
    } else if !('0' <= text.last() <= '9') {
        None
    } else if text.len() == 1 {
        Some((text.last() as int - 48) as nat)
    } else {
        match spec_digits_value(text.drop_last()) {
            Some(high) => Some((high * 10 + (text.last() as int - 48)) as nat),
            None => None,
        }
    }
}

/// The integer of any size that a text stands for: one sign at most, then
/// a decimal digit, then decimal digits and underscores; the underscores
/// do not count.
pub open spec fn spec_parse_decimal(text: Seq<char>) -> Option<int> {
    let negative = text.len() > 0 && text[0] == '-';
    let signed = text.len() > 0 && (text[0] == '-' || text[0] == '+');
    let body = if signed {
        text.drop_first()
    } else {
        text
    };
    if body.len() == 0 || body[0] == '_' {
        None
    } else {
        match spec_digits_value(body.filter(|c: char| c != '_')) {
            Some(magnitude) => Some(
                if negative {
                    -(magnitude as int)
                } else {
                    magnitude as int
                },
            ),
            None => None,
        }
    }
}

/// The machine integer that a text stands for: one sign at most, then
/// decimal digits, and a value that a machine integer can hold.
pub open spec fn spec_parse_i32(text: Seq<char>) -> Option<i32> {
    let negative = text.len() > 0 && text[0] == '-';
    let signed = text.len() > 0 && (text[0] == '-' || text[0] == '+');
    let digits = if signed {
        text.drop_first()
    } else {
        text
    };
    match spec_digits_value(digits) {
        Some(magnitude) => {
            let value: int = if negative {
                -(magnitude as int)
            } else {
                magnitude as int
            };
            if i32::MIN <= value <= i32::MAX {
                Some(value as i32)
            } else {
                None
            }
        },
        None => None,
    }
}

/// Quotient of a division that rounds toward zero.
pub open spec fn spec_trunc_div(a: int, b: int) -> int
    recommends
        b != 0,
{
    if a >= 0 && b > 0 {
        a / b
    } else if a >= 0 {
        -(a / (-b))
    } else if b > 0 {
        -((-a) / b)
    } else {
        (-a) / (-b)
    }
}

/// Remainder of a division that rounds toward zero: it has the sign of the
/// dividend.
pub open spec fn spec_trunc_rem(a: int, b: int) -> int
    recommends
        b != 0,
{
    a - b * spec_trunc_div(a, b)
}

/// The number that bytes stand for, the lowest byte first.
pub open spec fn spec_le_unsigned(bytes: Seq<u8>) -> nat
    decreases bytes.len(),
{
    if bytes.len() == 0 {
        0
    } else {
        bytes[0] as nat + 256 * spec_le_unsigned(bytes.drop_first())
    }
}

/// The integer that bytes stand for in two's complement, the lowest byte
/// first: the high bit of the last byte is the sign.
pub open spec fn spec_le_signed(bytes: Seq<u8>) -> int {
    if bytes.len() == 0 {
        0
    } else if bytes.last() > 0x7f {
        spec_le_unsigned(bytes) - pow(256, bytes.len())
    } else {
        spec_le_unsigned(bytes) as int
    }
}

/// `bytes` is the two's complement of `value` in as few bytes as it
/// takes, and in one at least.
pub open spec fn spec_is_shortest_signed(bytes: Seq<u8>, value: int) -> bool {
    &&& bytes.len() >= 1
    &&& spec_le_signed(bytes) == value
    &&& bytes.len() > 1 ==> spec_le_signed(bytes.drop_last()) != value
}

/// `bytes` are the digits of `value` to the base 256 in as few bytes as
/// it takes, and in one at least.
pub open spec fn spec_is_shortest_unsigned(bytes: Seq<u8>, value: nat) -> bool {
    &&& bytes.len() >= 1
    &&& spec_le_unsigned(bytes) == value
    &&& bytes.len() > 1 ==> bytes.last() != 0
}

/// `BigInt::to_signed_bytes_le`: the two's complement of the integer, the
/// lowest byte first, in as few bytes as it takes.
#[verifier::external_body]
pub(crate) fn big_to_signed_bytes_le(a: &BigInt) -> (r: Vec<u8>)
    ensures
        spec_is_shortest_signed(r@, spec_big_value(*a)),
{
    a.to_signed_bytes_le()
}

/// `BigInt::from_signed_bytes_le`: the integer that the bytes stand for in
/// two's complement, the lowest byte first.
#[verifier::external_body]
pub(crate) fn big_from_signed_bytes_le(bytes: &[u8]) -> (r: BigInt)
    ensures
        spec_big_value(r) == spec_le_signed(bytes@),
{
    BigInt::from_signed_bytes_le(bytes)
}

/// `BigUint::from_bytes_le`: the number that the bytes stand for, the
/// lowest byte first.
#[verifier::external_body]
pub(crate) fn biguint_from_bytes_le(bytes: &[u8]) -> (r: BigUint)
    ensures
        spec_biguint_value(r) == spec_le_unsigned(bytes@),
{
    BigUint::from_bytes_le(bytes)
}

/// `>>` on a `&BigUint` and a `u32`: the number divided by that power of
/// two, rounded down.
#[verifier::external_body]
pub(crate) fn biguint_shr(a: &BigUint, n: u32) -> (r: BigUint)
    ensures
        spec_biguint_value(r) == spec_biguint_value(*a) / pow2(n as nat),
{
    a >> n
}

/// `BigUint::to_bytes_le`: the digits of the number to the base 256, the
/// lowest first, without zeros at the high end: one zero for the number 0.
#[verifier::external_body]
pub(crate) fn biguint_to_bytes_le(a: &BigUint) -> (r: Vec<u8>)
    ensures
        spec_is_shortest_unsigned(r@, spec_biguint_value(*a)),
{
    a.to_bytes_le()
}

/// `BigInt::from` on an `i64`: the same integer.
#[verifier::external_body]
pub(crate) fn big_from_i64(value: i64) -> (r: BigInt)
    ensures
        spec_big_value(r) == value,
{
    BigInt::from(value)
}

/// `+` on two `&BigInt`: the sum.
#[verifier::external_body]
pub(crate) fn big_add(a: &BigInt, b: &BigInt) -> (r: BigInt)
    ensures
        spec_big_value(r) == spec_big_value(*a) + spec_big_value(*b),
{
    a + b
}

/// `-` on two `&BigInt`: the difference.
#[verifier::external_body]
pub(crate) fn big_sub(a: &BigInt, b: &BigInt) -> (r: BigInt)
    ensures
        spec_big_value(r) == spec_big_value(*a) - spec_big_value(*b),
{
    a - b
}

/// `*` on two `&BigInt`: the product.
#[verifier::external_body]
pub(crate) fn big_mul(a: &BigInt, b: &BigInt) -> (r: BigInt)
    ensures
        spec_big_value(r) == spec_big_value(*a) * spec_big_value(*b),
{
    a * b
}

/// `/` on two `&BigInt`: the quotient, rounded toward zero. It panics on a
/// zero divisor.
#[verifier::external_body]
pub(crate) fn big_div(a: &BigInt, b: &BigInt) -> (r: BigInt)
    requires
        spec_big_value(*b) != 0,
    ensures
        spec_big_value(r) == spec_trunc_div(spec_big_value(*a), spec_big_value(*b)),
{
    a / b
}

/// `%` on two `&BigInt`: the remainder of the division that rounds toward
/// zero. It panics on a zero divisor.
#[verifier::external_body]
pub(crate) fn big_rem(a: &BigInt, b: &BigInt) -> (r: BigInt)
    requires
        spec_big_value(*b) != 0,
    ensures
        spec_big_value(r) == spec_trunc_rem(spec_big_value(*a), spec_big_value(*b)),
{
    a % b
}

/// `ToPrimitive::to_i32` on a `BigInt`: the integer, where an `i32` can
/// hold it.
#[verifier::external_body]
pub(crate) fn big_to_i32(a: &BigInt) -> (r: Option<i32>)
    ensures
        r == (if i32::MIN <= spec_big_value(*a) <= i32::MAX {
            Some(spec_big_value(*a) as i32)
        } else {
            None
        }),
{
    a.to_i32()
}

/// `<<` on a `&BigInt` and a `u32`: the integer times that power of two.
#[verifier::external_body]
pub(crate) fn big_shl(a: &BigInt, n: u32) -> (r: BigInt)
    ensures
        spec_big_value(r) == spec_big_value(*a) * pow2(n as nat),
{
    a << n
}

/// `&` on two `&BigInt`: the bitwise and of the two integers in two's
/// complement.
#[verifier::external_body]
pub(crate) fn big_bitand(a: &BigInt, b: &BigInt) -> (r: BigInt)
    ensures
        spec_big_value(r) == spec_bitand(spec_big_value(*a), spec_big_value(*b)),
{
    a & b
}

/// `^` on two `&BigInt`: the bitwise exclusive or of the two integers in
/// two's complement.
#[verifier::external_body]
pub(crate) fn big_bitxor(a: &BigInt, b: &BigInt) -> (r: BigInt)
    ensures
        spec_big_value(r) == spec_bitxor(spec_big_value(*a), spec_big_value(*b)),
{
    a ^ b
}

/// `BigInt::sqrt`: the square root, rounded down. It panics on a negative
/// integer.
#[verifier::external_body]
pub(crate) fn big_sqrt(a: &BigInt) -> (r: BigInt)
    requires
        spec_big_value(*a) >= 0,
    ensures
        spec_big_value(r) >= 0,
        spec_big_value(r) * spec_big_value(r) <= spec_big_value(*a),
        spec_big_value(*a) < (spec_big_value(r) + 1) * (spec_big_value(r) + 1),
{
    a.sqrt()
}

/// `Signed::abs` on a `BigInt`: the absolute value.
#[verifier::external_body]
pub(crate) fn big_abs(a: &BigInt) -> (r: BigInt)
    ensures
        spec_big_value(r) == (if spec_big_value(*a) < 0 {
            -spec_big_value(*a)
        } else {
            spec_big_value(*a)
        }),
{
    a.abs()
}

/// `==` on two `&BigInt`: whether they hold the same integer.
#[verifier::external_body]
pub(crate) fn big_eq(a: &BigInt, b: &BigInt) -> (r: bool)
    ensures
        r == (spec_big_value(*a) == spec_big_value(*b)),
{
    a == b
}

/// `<` on two `&BigInt`: whether the first holds the lesser integer.
#[verifier::external_body]
pub(crate) fn big_lt(a: &BigInt, b: &BigInt) -> (r: bool)
    ensures
        r == (spec_big_value(*a) < spec_big_value(*b)),
{
    a < b
}

/// `Clone::clone` on a `BigInt`: the same integer.
pub assume_specification[ <BigInt as Clone>::clone ](a: &BigInt) -> (r: BigInt)
    ensures
        spec_big_value(r) == spec_big_value(*a),
;

/// `ToString::to_string` on an `i32`: its decimal digits, behind a minus
/// sign where it is negative.
#[verifier::external_body]
pub(crate) fn i32_to_string(value: i32) -> (r: String)
    ensures
        r@ == spec_decimal(value as int),
{
    value.to_string()
}

/// `str::parse::<i32>`: the machine integer that the text stands for, if
/// it stands for one.
#[verifier::external_body]
pub(crate) fn parse_i32(text: &str) -> (r: Option<i32>)
    ensures
        r == spec_parse_i32(text@),
{
    text.parse::<i32>().ok()
}

/// `std::str::from_utf8`: the bytes as a text, where they are UTF-8.
#[verifier::external_body]
pub(crate) fn utf8_text(bytes: &[u8]) -> (r: Option<&str>)
    ensures
        r.is_some() == vstd::utf8::valid_utf8(bytes@),
        r.is_some() ==> r.unwrap()@ == vstd::utf8::decode_utf8(bytes@),
{
    std::str::from_utf8(bytes).ok()
}

/// `ToString::to_string` on a `BigInt`: its decimal digits, behind a minus
/// sign where it is negative.
#[verifier::external_body]
pub(crate) fn big_to_string(a: &BigInt) -> (r: String)
    ensures
        r@ == spec_decimal(spec_big_value(*a)),
{
    a.to_string()
}

/// `str::parse::<BigInt>`: the integer that the text stands for in decimal
/// notation, or the crate's error where it stands for none.
#[verifier::external_body]
pub(crate) fn big_parse(text: &str) -> (r: Result<BigInt, ParseBigIntError>)
    ensures
        r.is_ok() == spec_parse_decimal(text@).is_some(),
        r.is_ok() ==> Some(spec_big_value(r.unwrap())) == spec_parse_decimal(text@),
{
    text.parse::<BigInt>()
}

} // verus!
