use num_bigint::BigInt;
use som_value::convert::IntegerLike;
use som_value::convert::StringLike;
use som_value::convert::demote;
use som_value::integer::IntegerError;
use som_value::integer::abs;
use som_value::integer::as_32bit_signed_value;
use som_value::integer::as_32bit_unsigned_value;
use som_value::integer::as_string;
use som_value::integer::at_random;
use som_value::integer::bitand;
use som_value::integer::bitxor;
use som_value::integer::divide;
use som_value::integer::eq;
use som_value::integer::eq_eq;
use som_value::integer::from_string;
use som_value::integer::gt;
use som_value::integer::gt_or_eq;
use som_value::integer::lt;
use som_value::integer::lt_or_eq;
use som_value::integer::max;
use som_value::integer::min;
use som_value::integer::minus;
use som_value::integer::modulo;
use som_value::integer::plus;
use som_value::integer::promote;
use som_value::integer::remainder;
use som_value::integer::shift_left;
use som_value::integer::shift_right;
use som_value::integer::sqrt;
use som_value::integer::times;
use som_value::integer::to;
use som_value::integer::uneq;
use som_value::interned::SymbolTable;
use som_value::tiny_str::unpack;

fn small(value: i32) -> IntegerLike {
    IntegerLike::Integer(value)
}

fn big(text: &str) -> IntegerLike {
    IntegerLike::BigInteger(text.parse::<BigInt>().unwrap())
}

fn is_small(value: &IntegerLike, expected: i32) -> bool {
    matches!(value, IntegerLike::Integer(v) if *v == expected)
}

fn is_big(value: &IntegerLike, expected: &str) -> bool {
    matches!(value, IntegerLike::BigInteger(v) if *v == expected.parse::<BigInt>().unwrap())
}

fn text_of(value: &StringLike) -> Vec<u8> {
    match value {
        StringLike::TinyStr(word) => unpack(*word),
        StringLike::String(bytes) => bytes.clone(),
        StringLike::Symbol(_) => panic!("no symbol expected"),
    }
}

#[test]
fn overflow_promotion() {
    let sum = plus(&small(i32::MAX), &small(1));
    assert!(is_big(&sum, "2147483648"));
}

#[test]
fn addition_stays_small_where_it_fits() {
    assert!(is_small(&plus(&small(2), &small(3)), 5));
    assert!(is_small(&plus(&small(i32::MAX), &small(0)), i32::MAX));
    assert!(is_small(&plus(&small(i32::MIN), &small(i32::MAX)), -1));
    assert!(is_big(&plus(&small(i32::MIN), &small(-1)), "-2147483649"));
}

#[test]
fn demotion_canonical_form() {
    let difference = minus(&big("18446744073709551616"), &big("18446744073709551611"));
    assert!(is_small(&difference, 5));
}

#[test]
fn mixed_addition_demotes() {
    assert!(is_small(&plus(&big("2147483648"), &small(-1)), i32::MAX));
    assert!(is_small(&plus(&small(-1), &big("2147483648")), i32::MAX));
    assert!(is_big(&plus(&big("2147483648"), &big("2147483648")), "4294967296"));
    assert!(is_small(&plus(&big("2147483648"), &big("-2147483648")), 0));
}

#[test]
fn subtraction_promotes_and_demotes() {
    assert!(is_small(&minus(&small(7), &small(9)), -2));
    assert!(is_big(&minus(&small(i32::MIN), &small(1)), "-2147483649"));
    assert!(is_big(&minus(&small(0), &small(i32::MIN)), "2147483648"));
    assert!(is_big(&minus(&small(5), &big("4294967296")), "-4294967291"));
    assert!(is_big(&minus(&big("4294967296"), &small(i32::MAX)), "2147483649"));
}

#[test]
fn multiplication_promotes_and_demotes() {
    assert!(is_small(&times(&small(6), &small(7)), 42));
    assert!(is_big(&times(&small(65536), &small(65536)), "4294967296"));
    assert!(is_big(&times(&small(i32::MIN), &small(-1)), "2147483648"));
    assert!(is_small(&times(&big("4294967296"), &small(0)), 0));
    assert!(is_big(&times(&small(-2), &big("4294967296")), "-8589934592"));
    assert!(is_big(&times(&big("4294967296"), &big("4294967296")), "18446744073709551616"));
}

#[test]
fn division_rounds_toward_zero() {
    assert!(is_small(&divide(&small(7), &small(2)), 3));
    assert!(is_small(&divide(&small(-7), &small(2)), -3));
    assert!(is_small(&divide(&small(7), &small(-2)), -3));
    assert!(is_small(&divide(&small(-7), &small(-2)), 3));
    assert!(is_big(&divide(&small(i32::MIN), &small(-1)), "2147483648"));
    assert!(is_big(&divide(&big("4294967296"), &small(2)), "2147483648"));
    assert!(is_small(&divide(&big("4294967296"), &small(-4)), -1073741824));
    assert!(is_small(&divide(&small(5), &big("4294967296")), 0));
    assert!(is_big(&divide(&big("-18446744073709551616"), &big("4294967296")), "-4294967296"));
}

#[test]
fn modulo_has_the_sign_of_the_divisor() {
    assert!(is_small(&modulo(&small(7), 3), 1));
    assert!(is_small(&modulo(&small(-7), 3), 2));
    assert!(is_small(&modulo(&small(7), -3), -2));
    assert!(is_small(&modulo(&small(-7), -3), -1));
    assert!(is_small(&modulo(&small(6), 3), 0));
    assert!(is_small(&modulo(&small(-6), 3), 0));
    assert!(is_small(&modulo(&small(6), -3), 0));
    assert!(is_small(&modulo(&small(i32::MIN), -1), 0));
    assert!(is_small(&modulo(&big("4294967297"), 2), 1));
    assert!(is_small(&modulo(&big("-4294967297"), 2), 1));
    assert!(is_small(&modulo(&big("4294967297"), -2), -1));
    assert!(is_small(&modulo(&big("-4294967297"), -2), -1));
    assert!(is_small(&modulo(&big("4294967296"), -2), 0));
}

#[test]
fn remainder_has_the_sign_of_the_dividend() {
    assert_eq!(remainder(7, 3), 1);
    assert_eq!(remainder(-7, 3), -1);
    assert_eq!(remainder(7, -3), 1);
    assert_eq!(remainder(-7, -3), -1);
    assert_eq!(remainder(6, 3), 0);
    assert_eq!(remainder(0, 5), 0);
    assert_eq!(remainder(i32::MIN, -1), 0);
}

#[test]
fn bit_operations() {
    assert!(is_small(&bitand(&small(0b1100), &small(0b1010)), 0b1000));
    assert!(is_small(&bitand(&small(-1), &small(0x7FFF)), 0x7FFF));
    assert!(is_small(&bitxor(&small(0b1100), &small(0b1010)), 0b0110));
    assert!(is_small(&bitand(&big("4294967297"), &small(0xFF)), 1));
    assert!(is_small(&bitand(&small(0xFF), &big("4294967297")), 1));
    assert!(is_big(&bitand(&big("4294967297"), &big("4294967296")), "4294967296"));
    assert!(is_small(&bitxor(&big("4294967297"), &big("4294967296")), 1));
    assert!(is_big(&bitxor(&big("4294967296"), &small(1)), "4294967297"));
}

#[test]
fn shift_left_never_drops_a_bit() {
    assert!(is_small(&shift_left(&small(1), 4), 16));
    assert!(is_small(&shift_left(&small(1), 30), 1 << 30));
    assert!(is_big(&shift_left(&small(1), 31), "2147483648"));
    assert!(is_big(&shift_left(&small(1), 40), "1099511627776"));
    assert!(is_big(&shift_left(&small(3), 63), "27670116110564327424"));
    assert!(is_big(&shift_left(&small(1), 100), "1267650600228229401496703205376"));
    assert!(is_small(&shift_left(&small(0), 100), 0));
    assert!(is_big(&shift_left(&big("4294967296"), 1), "8589934592"));
}

#[test]
fn shift_left_takes_a_negative_integer_as_unsigned() {
    assert!(is_big(&shift_left(&small(-1), 0), "4294967295"));
    assert!(is_big(&shift_left(&small(-1), 1), "8589934590"));
}

#[test]
fn shift_right_is_logical() {
    assert!(is_small(&shift_right(&small(16), 4), 1));
    assert!(is_small(&shift_right(&small(1), 1), 0));
    assert!(is_small(&shift_right(&small(-1), 1), i32::MAX));
    assert!(is_small(&shift_right(&small(-1), 31), 1));
    assert!(is_big(&shift_right(&small(-1), 0), "4294967295"));
    assert!(is_small(&shift_right(&small(12345), 32), 0));
    assert!(is_small(&shift_right(&small(-1), 64), 0));
    assert!(is_small(&shift_right(&small(i32::MAX), 1000), 0));
}

#[test]
fn shift_right_of_a_big_integer_reads_its_bytes_as_unsigned() {
    // 2^32 >> 1 = 2^31, whose shortest unsigned form 00 00 00 80 reads as a
    // negative two's complement
    assert!(is_small(&shift_right(&big("4294967296"), 1), i32::MIN));
    assert!(is_small(&shift_right(&big("4294967296"), 2), 1 << 30));
    assert!(is_small(&shift_right(&big("4294967296"), 33), 0));
    // -2^32 is 00 00 00 00 ff in two's complement; as unsigned that is
    // 0xff00000000
    assert!(is_small(&shift_right(&big("-4294967296"), 32), -1));
    assert!(is_small(&shift_right(&big("-4294967296"), 36), 0x0f));
}

#[test]
fn absolute_value() {
    assert!(is_big(&abs(&big("-4294967296")), "4294967296"));
    assert!(is_big(&abs(&big("4294967296")), "4294967296"));
    assert!(is_small(&abs(&small(5)), 5));
    assert!(is_small(&abs(&small(-5)), 5));
    assert!(is_small(&abs(&small(0)), 0));
    assert!(is_small(&abs(&small(i32::MAX)), i32::MAX));
    assert!(is_small(&abs(&small(i32::MIN + 1)), i32::MAX));
    assert!(is_big(&abs(&small(i32::MIN)), "2147483648"));
    assert!(is_small(&abs(&big("-7")), 7));
}

#[test]
fn square_root_rounds_down() {
    let n = "18446744073709551616".parse::<BigInt>().unwrap();
    assert!(is_big(&sqrt(&n), "4294967296"));
    let m = "4294967296".parse::<BigInt>().unwrap();
    assert!(is_small(&sqrt(&m), 65536));
    let k = "4294967299".parse::<BigInt>().unwrap();
    assert!(is_small(&sqrt(&k), 65536));
    assert!(is_small(&sqrt(&BigInt::from(0)), 0));
}

#[test]
fn maximum_and_minimum() {
    assert!(is_small(&max(&small(3), &small(4)), 4));
    assert!(is_small(&min(&small(3), &small(4)), 3));
    assert!(is_big(&max(&small(3), &big("4294967296")), "4294967296"));
    assert!(is_small(&min(&small(3), &big("4294967296")), 3));
    assert!(is_small(&max(&small(3), &big("-4294967296")), 3));
    assert!(is_big(&min(&big("-4294967296"), &small(3)), "-4294967296"));
}

#[test]
fn ordering_across_sizes() {
    assert!(lt(&small(3), &small(4)));
    assert!(!lt(&small(4), &small(4)));
    assert!(lt(&small(i32::MAX), &big("2147483648")));
    assert!(lt(&big("-2147483649"), &small(i32::MIN)));
    assert!(gt(&big("2147483648"), &small(i32::MAX)));
    assert!(!gt(&small(1), &big("2147483648")));
    assert!(lt_or_eq(&small(4), &small(4)));
    assert!(gt_or_eq(&small(4), &small(4)));
    assert!(lt_or_eq(&big("4294967296"), &big("4294967296")));
    assert!(!lt_or_eq(&big("4294967297"), &big("4294967296")));
    assert!(gt_or_eq(&big("4294967297"), &big("4294967296")));
}

#[test]
fn equality_is_by_value_identity_also_by_size() {
    assert!(eq(&small(3), &small(3)));
    assert!(!eq(&small(3), &small(4)));
    assert!(eq(&small(3), &big("3")));
    assert!(eq(&big("3"), &small(3)));
    assert!(eq(&big("4294967296"), &big("4294967296")));
    assert!(uneq(&small(3), &small(4)));
    assert!(!uneq(&small(3), &big("3")));
    assert!(eq_eq(&small(3), &small(3)));
    assert!(!eq_eq(&small(3), &big("3")));
    assert!(eq_eq(&big("4294967296"), &big("4294967296")));
    assert!(!eq_eq(&big("4294967296"), &big("4294967297")));
}

#[test]
fn demote_and_promote() {
    assert!(is_small(&demote(BigInt::from(5)), 5));
    assert!(is_small(&demote(BigInt::from(i32::MIN)), i32::MIN));
    assert!(is_small(&demote(BigInt::from(i32::MAX)), i32::MAX));
    assert!(is_big(&demote(BigInt::from(i32::MAX as i64 + 1)), "2147483648"));
    assert!(is_big(&demote(BigInt::from(i32::MIN as i64 - 1)), "-2147483649"));
    assert_eq!(promote(&small(-7)), BigInt::from(-7));
    assert_eq!(promote(&big("4294967296")), BigInt::from(4294967296i64));
}

#[test]
fn thirty_two_bit_views() {
    assert_eq!(as_32bit_signed_value(&small(-5)), -5);
    assert_eq!(as_32bit_signed_value(&big("4294967296")), 0);
    assert_eq!(as_32bit_signed_value(&big("4294967297")), 1);
    assert_eq!(as_32bit_signed_value(&big("2147483648")), i32::MIN);
    assert_eq!(as_32bit_signed_value(&big("-2147483649")), i32::MAX);
    assert!(is_small(&as_32bit_unsigned_value(&small(5)), 5));
    assert!(is_big(&as_32bit_unsigned_value(&small(-1)), "4294967295"));
    assert!(is_small(&as_32bit_unsigned_value(&big("4294967297")), 1));
    assert!(is_big(&as_32bit_unsigned_value(&big("-1099511627777")), "4294967295"));
}

#[test]
fn range_of_integers() {
    assert_eq!(to(1, 5), vec![1, 2, 3, 4, 5]);
    assert_eq!(to(3, 3), vec![3]);
    assert_eq!(to(4, 3), Vec::<i32>::new());
    assert_eq!(to(-2, 1), vec![-2, -1, 0, 1]);
    assert_eq!(to(i32::MAX - 1, i32::MAX), vec![i32::MAX - 1, i32::MAX]);
}

#[test]
fn integer_as_string_is_compact() {
    let short = as_string(&small(-12345));
    assert!(matches!(short, StringLike::TinyStr(_)));
    assert_eq!(text_of(&short), b"-12345".to_vec());
    let seven = as_string(&small(1234567));
    assert!(matches!(seven, StringLike::TinyStr(_)));
    assert_eq!(text_of(&seven), b"1234567".to_vec());
    let long = as_string(&small(12345678));
    assert!(matches!(long, StringLike::String(_)));
    assert_eq!(text_of(&long), b"12345678".to_vec());
    assert_eq!(text_of(&as_string(&small(0))), b"0".to_vec());
    assert_eq!(text_of(&as_string(&small(i32::MIN))), b"-2147483648".to_vec());
    assert_eq!(
        text_of(&as_string(&big("-18446744073709551616"))),
        b"-18446744073709551616".to_vec()
    );
}

#[test]
fn integer_from_string() {
    let table = SymbolTable::new();
    let read = |text: &str| from_string(&StringLike::String(text.as_bytes().to_vec()), &table);
    assert!(is_small(&read("42").unwrap(), 42));
    assert!(is_small(&read("-42").unwrap(), -42));
    assert!(is_small(&read("+42").unwrap(), 42));
    assert!(is_small(&read("2147483647").unwrap(), i32::MAX));
    assert!(is_small(&read("-2147483648").unwrap(), i32::MIN));
    assert!(is_big(&read("2147483648").unwrap(), "2147483648"));
    assert!(is_big(&read("-18446744073709551616").unwrap(), "-18446744073709551616"));
    assert!(is_small(&read("1_000").unwrap(), 1000));
    assert!(read("").is_none());
    assert!(read("abc").is_none());
    assert!(read("12 ").is_none());
    assert!(read("-").is_none());
    assert!(from_string(&StringLike::String(vec![0x31, 0xFF]), &table).is_none());
}

#[test]
fn random_integer_stays_in_range() {
    for bound in [0, 1, 7, 1000] {
        for _ in 0..50 {
            let chosen = at_random(&small(bound)).unwrap();
            assert!(0 <= chosen && chosen <= bound);
        }
    }
    assert_eq!(at_random(&big("4294967296")), Err(IntegerError::RangeTooBig));
}

#[test]
fn bit_operations_on_negative_integers_are_in_twos_complement() {
    let pairs: [(i64, i64); 12] = [
        (-4294967296, -1),
        (-4294967297, 255),
        (-4294967296, 4294967295),
        (4294967296, -4294967296),
        (-1099511627776, -4294967296),
        (-1099511627775, 1099511627775),
        (-5, 4294967296),
        (i32::MIN as i64, 4294967296),
        (-4294967297, -4294967298),
        (9223372036854775807, -9223372036854775808),
        (-9223372036854775808, -1),
        (123456789012345, -98765432109876),
    ];
    let operand = |value: i64| match i32::try_from(value) {
        Ok(small) => IntegerLike::Integer(small),
        Err(_) => IntegerLike::BigInteger(BigInt::from(value)),
    };
    let worth = |value: &IntegerLike| match value {
        IntegerLike::Integer(small) => BigInt::from(*small),
        IntegerLike::BigInteger(big) => big.clone(),
    };
    for (a, b) in pairs {
        assert_eq!(worth(&bitand(&operand(a), &operand(b))), BigInt::from(a & b), "{a} & {b}");
        assert_eq!(worth(&bitxor(&operand(a), &operand(b))), BigInt::from(a ^ b), "{a} ^ {b}");
        assert_eq!(worth(&bitand(&operand(b), &operand(a))), BigInt::from(a & b));
        assert_eq!(worth(&bitxor(&operand(b), &operand(a))), BigInt::from(a ^ b));
    }
}

/// What a text is worth by the rules of the decimal notation: one sign at
/// most, a digit, then digits and underscores.
fn by_the_rules(text: &str) -> Option<BigInt> {
    let negative = text.starts_with('-');
    let body = if text.starts_with('-') || text.starts_with('+') { &text[1..] } else { text };
    if body.is_empty() || body.starts_with('_') {
        return None;
    }
    let mut value = BigInt::from(0);
    for c in body.chars() {
        if c == '_' {
            continue;
        }
        let digit = c.to_digit(10).filter(|_| c.is_ascii())?;
        value = value * 10 + digit;
    }
    Some(if negative { -value } else { value })
}

#[test]
fn integer_from_string_follows_the_rules_of_the_notation() {
    let table = SymbolTable::new();
    let texts = [
        "0", "-0", "+0", "7", "-7", "+7", "007", "-007", "1_000", "1__0", "1_", "_1", "-_1", "+_1",
        "-+5", "+-5", "++5", "--5", "-", "+", "", " 5", "5 ", "5a", "a5", "0x10", "1.5", "1e3",
        "2147483647", "2147483648", "-2147483648", "-2147483649", "4294967296",
        "99999999999999999999999999", "-99999999999999999999999999", "9_9", "_", "__", "1_2_3",
        "\u{661}", "5\u{e9}",
    ];
    for text in texts {
        let got = from_string(&StringLike::String(text.as_bytes().to_vec()), &table);
        let got = got.map(|value| match value {
            IntegerLike::Integer(small) => BigInt::from(small),
            IntegerLike::BigInteger(big) => big,
        });
        assert_eq!(got, by_the_rules(text), "{text:?}");
    }
}

#[test]
fn integer_from_string_is_in_canonical_form() {
    let table = SymbolTable::new();
    for text in ["1_000", "-2_147_483_648", "2_147_483_647", "+5"] {
        let got = from_string(&StringLike::String(text.as_bytes().to_vec()), &table);
        assert!(matches!(got, Some(IntegerLike::Integer(_))), "{text:?}");
    }
    let got = from_string(&StringLike::String(b"2_147_483_648".to_vec()), &table);
    assert!(matches!(got, Some(IntegerLike::BigInteger(_))));
}
