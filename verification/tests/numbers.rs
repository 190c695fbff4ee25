use num_bigint::BigInt;
use som_value::convert::DoubleLike;
use som_value::convert::IntegerLike;
use som_value::double::eq;
use som_value::double::eq_integer;
use som_value::double::has_fraction;
use som_value::double::integer_gt;
use som_value::double::integer_lt;
use som_value::double::is_finite;
use som_value::double::is_nan;
use som_value::double::is_negative;
use som_value::double::key;
use som_value::double::lt;
use som_value::double::truncated;

fn double(value: f64) -> DoubleLike {
    DoubleLike::Double(value.to_bits())
}

fn big(text: &str) -> DoubleLike {
    DoubleLike::BigInteger(text.parse::<BigInt>().unwrap())
}

fn samples() -> Vec<f64> {
    vec![
        0.0,
        -0.0,
        1.0,
        -1.0,
        0.5,
        -0.5,
        3.0,
        3.5,
        -3.5,
        2147483647.0,
        2147483648.0,
        -2147483648.0,
        -2147483649.0,
        2147483647.5,
        4294967296.0,
        9007199254740992.0,
        9007199254740993.0,
        1e19,
        -1e19,
        1e300,
        -1e300,
        5e-324,
        -5e-324,
        f64::MIN_POSITIVE,
        f64::MAX,
        f64::MIN,
        f64::INFINITY,
        f64::NEG_INFINITY,
        f64::NAN,
        -f64::NAN,
    ]
}

fn exact(value: f64) -> BigInt {
    // the whole part of a finite double, worked out from its pattern
    let bits = value.to_bits();
    let exponent = ((bits >> 52) & 0x7FF) as i64;
    let fraction = bits & 0x000F_FFFF_FFFF_FFFF;
    let digits = if exponent == 0 { fraction } else { fraction | (1 << 52) };
    let magnitude = if exponent >= 1075 {
        BigInt::from(digits) << ((exponent - 1075) as u32)
    } else if exponent >= 1023 {
        BigInt::from(digits >> (1075 - exponent))
    } else {
        BigInt::from(0)
    };
    if bits >> 63 == 1 {
        -magnitude
    } else {
        magnitude
    }
}

#[test]
fn cross_representation_equality() {
    let three = DoubleLike::Integer(3);
    assert!(three.eq(&double(3.0)));
    assert!(double(3.0).eq(&three));
    assert!(double(3.0).eq(&big("3")));
    assert!(big("3").eq(&double(3.0)));
    assert!(three.eq(&big("3")));
    assert!(big("3").eq(&three));
    assert!(!three.eq(&double(3.5)));
    assert!(!double(3.5).eq(&three));
    assert!(!big("3").eq(&double(3.5)));
}

#[test]
fn doubles_compare_as_doubles_do() {
    for a in samples() {
        for b in samples() {
            assert_eq!(eq(a.to_bits(), b.to_bits()), a == b, "{a} == {b}");
            assert_eq!(lt(a.to_bits(), b.to_bits()), a < b, "{a} < {b}");
            assert_eq!(double(a).eq(&double(b)), a == b);
            assert_eq!(double(a).lt(&double(b)), a < b);
            assert_eq!(double(a).gt(&double(b)), a > b);
            assert_eq!(double(a).lt_or_eq(&double(b)), a <= b);
            assert_eq!(double(a).gt_or_eq(&double(b)), a >= b);
        }
    }
}

#[test]
fn double_classes() {
    for a in samples() {
        assert_eq!(is_nan(a.to_bits()), a.is_nan());
        assert_eq!(is_finite(a.to_bits()), a.is_finite());
        assert_eq!(is_negative(a.to_bits()), a.is_sign_negative());
    }
    assert_eq!(key(0.0f64.to_bits()), 0);
    assert_eq!(key((-0.0f64).to_bits()), 0);
    assert_eq!(key(1.0f64.to_bits()), 0x3FF0_0000_0000_0000);
    assert_eq!(key((-1.0f64).to_bits()), -0x3FF0_0000_0000_0000);
}

#[test]
fn double_cut_off_at_the_point() {
    for a in samples() {
        if !a.is_finite() {
            continue;
        }
        let whole = match truncated(a.to_bits()) {
            IntegerLike::Integer(value) => BigInt::from(value),
            IntegerLike::BigInteger(value) => value,
        };
        assert_eq!(whole, exact(a), "{a}");
        assert_eq!(has_fraction(a.to_bits()), a.fract() != 0.0, "{a}");
    }
    assert!(matches!(truncated(3.99f64.to_bits()), IntegerLike::Integer(3)));
    assert!(matches!(truncated((-3.99f64).to_bits()), IntegerLike::Integer(-3)));
    assert!(matches!(truncated(2147483648.0f64.to_bits()), IntegerLike::BigInteger(_)));
}

#[test]
fn machine_integers_compare_with_doubles_as_their_doubles_do() {
    let integers = [0, 1, -1, 2, 3, 4, -3, -4, 1000, i32::MAX, i32::MIN, i32::MAX - 1];
    for n in integers {
        for d in samples() {
            let as_double = n as f64;
            let bits = d.to_bits();
            let small = IntegerLike::Integer(n);
            assert_eq!(eq_integer(bits, &small), as_double == d, "{n} == {d}");
            assert_eq!(integer_lt(&small, bits), as_double < d, "{n} < {d}");
            assert_eq!(integer_gt(&small, bits), as_double > d, "{n} > {d}");
            assert_eq!(DoubleLike::Integer(n).eq(&double(d)), as_double == d);
            assert_eq!(double(d).eq(&DoubleLike::Integer(n)), d == as_double);
            assert_eq!(DoubleLike::Integer(n).lt(&double(d)), as_double < d);
            assert_eq!(double(d).lt(&DoubleLike::Integer(n)), d < as_double);
            assert_eq!(DoubleLike::Integer(n).gt(&double(d)), as_double > d);
            assert_eq!(DoubleLike::Integer(n).lt_or_eq(&double(d)), as_double <= d);
            assert_eq!(double(d).gt_or_eq(&DoubleLike::Integer(n)), d >= as_double);
        }
    }
}

#[test]
fn big_integers_compare_with_doubles_by_their_worth() {
    // 2^53 + 1 has no double of its own: it lies between 2^53 and 2^53 + 2
    assert!(!big("9007199254740993").eq(&double(9007199254740992.0)));
    assert!(double(9007199254740992.0).lt(&big("9007199254740993")));
    assert!(big("9007199254740993").lt(&double(9007199254740994.0)));
    assert!(big("9007199254740992").eq(&double(9007199254740992.0)));
    assert!(big("10000000000000000000").eq(&double(1e19)));
    assert!(big("10000000000000000001").gt(&double(1e19)));
    assert!(big("-10000000000000000001").lt(&double(-1e19)));
    assert!(big("4294967296").lt(&double(4294967296.5)));
    assert!(big("-4294967296").gt(&double(-4294967296.5)));
    assert!(big("4294967296").lt(&double(f64::INFINITY)));
    assert!(big("4294967296").gt(&double(f64::NEG_INFINITY)));
    assert!(!big("4294967296").lt(&double(f64::NAN)));
    assert!(!big("4294967296").gt(&double(f64::NAN)));
    assert!(!big("4294967296").eq(&double(f64::NAN)));
    assert!(big("4294967296").lt_or_eq(&double(4294967296.0)));
    assert!(big("4294967296").gt_or_eq(&double(4294967296.0)));
}

#[test]
fn integers_of_both_sizes_compare_by_their_worth() {
    assert!(DoubleLike::Integer(3).lt(&big("4294967296")));
    assert!(big("-4294967296").lt(&DoubleLike::Integer(3)));
    assert!(big("4294967296").gt(&DoubleLike::Integer(3)));
    assert!(big("4294967296").eq(&big("4294967296")));
    assert!(!big("4294967296").lt(&big("4294967296")));
    assert!(DoubleLike::Integer(3).lt_or_eq(&DoubleLike::Integer(3)));
    assert!(matches!(
        big("7").as_integer_like(),
        Some(IntegerLike::BigInteger(value)) if value == BigInt::from(7)
    ));
    assert!(matches!(DoubleLike::Integer(7).as_integer_like(), Some(IntegerLike::Integer(7))));
    assert!(double(7.0).as_integer_like().is_none());
}

fn mixed_numbers() -> Vec<DoubleLike> {
    let mut numbers = vec![
        DoubleLike::Integer(0),
        DoubleLike::Integer(3),
        DoubleLike::Integer(4),
        DoubleLike::Integer(-3),
        DoubleLike::Integer(i32::MAX),
        DoubleLike::Integer(i32::MIN),
        big("3"),
        big("2147483648"),
        big("9007199254740992"),
        big("9007199254740993"),
        big("9007199254740994"),
        big("-9007199254740993"),
        big("10000000000000000000"),
        big("179769313486231570814527423731704356798070567525844996598917476803157260780028538760589558632766878171540458953514382464234321326889464182768467546703537516986049910576551282076245490090389328944075868508455133942304583236903222948165808559332123348274797826204144723168738177180919299881250404026184124858368"),
        big("179769313486231570814527423731704356798070567525844996598917476803157260780028538760589558632766878171540458953514382464234321326889464182768467546703537516986049910576551282076245490090389328944075868508455133942304583236903222948165808559332123348274797826204144723168738177180919299881250404026184124858369"),
    ];
    for d in [
        0.0,
        -0.0,
        2.5,
        3.0,
        3.5,
        -3.0,
        -3.5,
        2147483647.5,
        2147483648.0,
        9007199254740992.0,
        9007199254740994.0,
        -9007199254740992.0,
        1e19,
        f64::MAX,
        f64::MIN,
        f64::INFINITY,
        f64::NEG_INFINITY,
        5e-324,
    ] {
        numbers.push(double(d));
    }
    numbers
}

#[test]
fn order_is_total_and_transitive_across_representations() {
    let numbers = mixed_numbers();
    for a in &numbers {
        for b in &numbers {
            let ways = [a.lt(b), a.eq(b), b.lt(a)].iter().filter(|way| **way).count();
            assert_eq!(ways, 1, "{a:?} {b:?}");
            assert_eq!(a.eq(b), b.eq(a));
            assert_eq!(a.gt(b), b.lt(a));
            for c in &numbers {
                if a.lt(b) && b.lt(c) {
                    assert!(a.lt(c), "{a:?} {b:?} {c:?}");
                }
                if a.eq(b) && b.eq(c) {
                    assert!(a.eq(c), "{a:?} {b:?} {c:?}");
                }
                if a.eq(b) {
                    assert_eq!(a.lt(c), b.lt(c), "{a:?} {b:?} {c:?}");
                    assert_eq!(c.lt(a), c.lt(b), "{a:?} {b:?} {c:?}");
                }
            }
        }
    }
}

#[test]
fn the_greatest_double_is_an_integer() {
    let greatest = double(f64::MAX);
    let same = &mixed_numbers()[13];
    let next = &mixed_numbers()[14];
    assert!(greatest.eq(same));
    assert!(greatest.lt(next));
    assert!(next.lt(&double(f64::INFINITY)));
}

#[test]
fn a_double_that_is_not_a_number_is_not_ordered() {
    let nan = double(f64::NAN);
    for other in mixed_numbers() {
        assert!(!nan.lt(&other) && !other.lt(&nan) && !nan.eq(&other) && !other.eq(&nan));
        assert!(!nan.lt_or_eq(&other) && !nan.gt_or_eq(&other));
    }
    assert!(!nan.eq(&nan));
}
