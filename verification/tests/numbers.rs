use kaulin::runtime::number::Number;

fn n(x: f64) -> Number {
    Number::from_bits(x.to_bits())
}

fn samples() -> Vec<f64> {
    vec![
        0.0,
        -0.0,
        1.0,
        -1.0,
        0.5,
        -0.5,
        2.0,
        14.0,
        1e300,
        -1e300,
        f64::MIN_POSITIVE,
        -f64::MIN_POSITIVE,
        5e-324,
        -5e-324,
        f64::MAX,
        f64::MIN,
        f64::INFINITY,
        f64::NEG_INFINITY,
        f64::NAN,
        -f64::NAN,
    ]
}

#[test]
fn bits_go_in_and_out_unchanged() {
    assert_eq!(Number::from_bits(0x4000_0000_0000_0000).to_bits(), 0x4000_0000_0000_0000);
    assert_eq!(n(2.0).to_bits(), 0x4000_0000_0000_0000);
}

#[test]
fn equality_is_that_of_the_values() {
    for a in samples() {
        for b in samples() {
            assert_eq!(n(a).equals(&n(b)), a == b, "{a} == {b}");
        }
    }
}

#[test]
fn order_is_that_of_the_values() {
    for a in samples() {
        for b in samples() {
            assert_eq!(n(a).less_than(&n(b)), a < b, "{a} < {b}");
        }
    }
}

#[test]
fn negation_flips_the_sign() {
    for a in samples() {
        assert_eq!(n(a).negate().to_bits(), (-a).to_bits(), "-{a}");
    }
}

#[test]
fn zero_and_not_a_number_are_recognized() {
    for a in samples() {
        assert_eq!(n(a).is_zero(), a == 0.0, "{a}");
        assert_eq!(n(a).is_nan(), a.is_nan(), "{a}");
    }
    assert!(n(0.0).is_zero());
    assert!(n(-0.0).is_zero());
    assert!(!n(5e-324).is_zero());
    assert!(!n(f64::INFINITY).is_nan());
}
