use pulseprint::number::Number;

fn float(x: f64) -> Number {
    Number::Float(x.to_bits())
}

#[test]
fn as_i64_takes_integers_in_range_only() {
    assert_eq!(Number::PosInt(0).as_i64(), Some(0));
    assert_eq!(Number::PosInt(42).as_i64(), Some(42));
    assert_eq!(Number::PosInt(i64::MAX as u64).as_i64(), Some(i64::MAX));
    assert_eq!(Number::PosInt(i64::MAX as u64 + 1).as_i64(), None);
    assert_eq!(Number::NegInt(-7).as_i64(), Some(-7));
    assert_eq!(float(120.0).as_i64(), None);
}

#[test]
fn nearest_i32_rounds_halves_away_from_zero() {
    assert_eq!(float(215.5).nearest_i32(), 216);
    assert_eq!(float(215.49).nearest_i32(), 215);
    assert_eq!(float(-0.5).nearest_i32(), -1);
    assert_eq!(float(-0.49).nearest_i32(), 0);
    assert_eq!(float(0.5).nearest_i32(), 1);
    assert_eq!(float(2.5).nearest_i32(), 3);
    assert_eq!(float(24.96875).nearest_i32(), 25);
    assert_eq!(float(0.0).nearest_i32(), 0);
    assert_eq!(float(-0.0).nearest_i32(), 0);
    assert_eq!(float(5e-324).nearest_i32(), 0);
    assert_eq!(float(0.49999999999999994).nearest_i32(), 0);
}

#[test]
fn nearest_i32_agrees_with_float_rounding() {
    let samples = [
        0.1, 0.9, 1.0, 1.5, 149.5, 150.4999, 150.5, 200.0, 200.5, 1e9, 2147483646.5, 2147483647.4,
        2147483647.5, 3e9, 1e18, 1e300, 123456.789, 40.5, 39.99,
    ];
    for x in samples {
        assert_eq!(float(x).nearest_i32(), x.round() as i32, "{x}");
        assert_eq!(float(-x).nearest_i32(), (-x).round() as i32, "-{x}");
    }
}

#[test]
fn nearest_i32_holds_integers_within_range() {
    assert_eq!(Number::PosInt(210).nearest_i32(), 210);
    assert_eq!(Number::NegInt(-15).nearest_i32(), -15);
    assert_eq!(Number::PosInt(u64::MAX).nearest_i32(), i32::MAX);
    assert_eq!(Number::NegInt(i64::MIN).nearest_i32(), i32::MIN);
}

#[test]
fn thousandths_rounds_to_the_nearest() {
    assert_eq!(Number::PosInt(42).thousandths(), 42_000);
    assert_eq!(Number::NegInt(-3).thousandths(), -3_000);
    assert_eq!(float(42.5).thousandths(), 42_500);
    assert_eq!(float(42.3).thousandths(), 42_300);
    assert_eq!(float(0.0004).thousandths(), 0);
    assert_eq!(float(-0.0004).thousandths(), 0);
    assert_eq!(float(0.0005).thousandths(), 1);
    assert_eq!(float(99.999).thousandths(), 99_999);
    assert_eq!(float(99.9996).thousandths(), 100_000);
    assert_eq!(float(100.0).thousandths(), 100_000);
    assert_eq!(float(-1.2346).thousandths(), -1_235);
    assert_eq!(float(-1.2345).thousandths(), -1_234);
    assert_eq!(float(1e300).thousandths(), i64::MAX);
    assert_eq!(float(-1e300).thousandths(), i64::MIN);
    assert_eq!(Number::PosInt(u64::MAX).thousandths(), i64::MAX);
    assert_eq!(Number::NegInt(i64::MIN).thousandths(), i64::MIN);
}

#[test]
fn thousandths_agrees_with_rounding_of_exact_products() {
    let samples = [0.5, 1.0, 12.375, 55.0, 0.001953125, 100.0, 4503599627370496.0, 9e15, 1e16];
    for x in samples {
        assert_eq!(float(x).thousandths(), (x * 1000.0).round() as i64, "{x}");
    }
}

#[test]
fn magnitude_stops_at_its_limit() {
    assert_eq!(Number::PosInt(7).magnitude(3), 21);
    assert_eq!(Number::PosInt(7).magnitude(0), 0);
    assert_eq!(float(1e300).magnitude(0), 0);
    assert_eq!(Number::NegInt(-7).magnitude(3), 21);
    assert_eq!(float(1.75).magnitude(4), 7);
    assert_eq!(float(1e30).magnitude(1), 1u128 << 64);
    assert_eq!(Number::PosInt(u64::MAX).magnitude(2), 1u128 << 64);
    assert!(!Number::PosInt(0).negative());
    assert!(Number::NegInt(-1).negative());
    assert!(float(-2.5).negative());
    assert!(!float(-0.0).negative());
}

#[test]
fn numbers_are_held_against_zero_and_a_bound_exactly() {
    assert!(Number::PosInt(0).zero());
    assert!(float(0.0).zero());
    assert!(float(-0.0).zero());
    assert!(!float(5e-324).zero());
    assert!(!float(-5e-324).zero());
    assert!(!Number::NegInt(-1).zero());
    assert!(float(5e-324).positive());
    assert!(float(0.0004).positive());
    assert!(!float(-0.0004).positive());
    assert!(!float(-0.0).positive());
    assert!(!Number::PosInt(0).positive());
    assert!(Number::PosInt(1).positive());
    assert!(float(99.9996).below(100));
    assert!(float(99.99999999999999).below(100));
    assert!(!float(100.0).below(100));
    assert!(!float(100.00000000000001).below(100));
    assert!(float(-1e300).below(100));
    assert!(!float(1e300).below(100));
    assert!(Number::PosInt(99).below(100));
    assert!(!Number::PosInt(100).below(100));
    assert!(Number::NegInt(i64::MIN).below(0));
    assert!(!float(0.0).below(0));
    assert!(float(100.0).at_most(100));
    assert!(Number::PosInt(100).at_most(100));
    assert!(!float(100.00000000000001).at_most(100));
    assert!(!float(100.0004).at_most(100));
    assert!(!Number::PosInt(101).at_most(100));
    assert!(float(-3.5).at_most(100));
    assert!(float(0.0).at_most(0));
    assert!(!float(5e-324).at_most(0));
    assert!(float(100.0).whole());
    assert!(float(4503599627370497.0).whole());
    assert!(float(1e300).whole());
    assert!(float(0.0).whole());
    assert!(!float(100.5).whole());
    assert!(!float(5e-324).whole());
    assert!(!float(0.5).whole());
    assert!(Number::NegInt(-4).whole());
}
