use xray_tile::scalar::Scalar;

fn number(value: f64) -> Scalar {
    Scalar::from_bits(value.to_bits()).expect("a finite number")
}

fn samples() -> Vec<f64> {
    vec![
        f64::MIN,
        -1.0e300,
        -4096.5,
        -3.0,
        -1.0000000000000002,
        -1.0,
        -0.5,
        -f64::MIN_POSITIVE,
        -5e-324,
        -0.0,
        0.0,
        5e-324,
        1.0e-310,
        f64::MIN_POSITIVE,
        0.05,
        0.5,
        1.0,
        1.0000000000000002,
        3.0,
        10.0,
        4096.5,
        1.0e300,
        f64::MAX,
    ]
}

#[test]
fn finite_patterns_are_accepted() {
    for value in samples() {
        let scalar = Scalar::from_bits(value.to_bits());
        assert!(scalar.is_some());
        assert_eq!(scalar.unwrap().to_bits(), value.to_bits());
    }
}

#[test]
fn infinities_and_nans_are_refused() {
    assert!(Scalar::from_bits(f64::INFINITY.to_bits()).is_none());
    assert!(Scalar::from_bits(f64::NEG_INFINITY.to_bits()).is_none());
    assert!(Scalar::from_bits(f64::NAN.to_bits()).is_none());
    assert!(Scalar::from_bits(0x7ff0_0000_0000_0001).is_none());
    assert!(Scalar::from_bits(0xfff8_0000_0000_0000).is_none());
    assert!(Scalar::from_bits(0x7fef_ffff_ffff_ffff).is_some());
}

#[test]
fn zero_is_positive_zero() {
    assert_eq!(Scalar::zero().to_bits(), 0);
    assert!(Scalar::zero().is_zero());
    assert!(!Scalar::zero().is_sign_negative());
}

#[test]
fn both_zeros_are_zero() {
    assert!(number(0.0).is_zero());
    assert!(number(-0.0).is_zero());
    assert!(!number(5e-324).is_zero());
    assert!(!number(-5e-324).is_zero());
    assert!(number(-0.0).is_sign_negative());
}

#[test]
fn significand_and_shift_decode_the_pattern() {
    let one = number(1.0);
    assert_eq!(one.significand(), 1u64 << 52);
    assert_eq!(one.shift(), 1022);
    let ten = number(10.0);
    assert_eq!(ten.significand(), 5u64 << 50);
    assert_eq!(ten.shift(), 1025);
    let least = number(5e-324);
    assert_eq!(least.significand(), 1);
    assert_eq!(least.shift(), 0);
    let least_normal = number(f64::MIN_POSITIVE);
    assert_eq!(least_normal.significand(), 1u64 << 52);
    assert_eq!(least_normal.shift(), 0);
    let greatest = number(f64::MAX);
    assert_eq!(greatest.significand(), (1u64 << 53) - 1);
    assert_eq!(greatest.shift(), 2045);
}

#[test]
fn order_agrees_with_the_numbers() {
    for a in samples() {
        for b in samples() {
            assert_eq!(number(a).le(&number(b)), a <= b, "{} <= {}", a, b);
            assert_eq!(number(a).lt(&number(b)), a < b, "{} < {}", a, b);
        }
    }
}

#[test]
fn max_and_min_pick_one_of_the_two() {
    for a in samples() {
        for b in samples() {
            let greater = number(a).max(number(b));
            let lesser = number(a).min(number(b));
            let expected_max = if a < b { b } else { a };
            let expected_min = if b < a { b } else { a };
            assert_eq!(greater.to_bits(), expected_max.to_bits());
            assert_eq!(lesser.to_bits(), expected_min.to_bits());
        }
    }
}

#[test]
fn equal_numbers_keep_the_first() {
    assert_eq!(number(-0.0).max(number(0.0)).to_bits(), (-0.0f64).to_bits());
    assert_eq!(number(0.0).max(number(-0.0)).to_bits(), 0.0f64.to_bits());
    assert_eq!(number(-0.0).min(number(0.0)).to_bits(), (-0.0f64).to_bits());
    assert_eq!(number(0.0).min(number(-0.0)).to_bits(), 0.0f64.to_bits());
}
