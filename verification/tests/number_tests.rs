use rlox::number::{equal, greater, greater_equal, less, less_equal, nan, negate};

fn samples() -> Vec<f64> {
    vec![
        0.0,
        -0.0,
        1.0,
        -1.0,
        0.5,
        -0.5,
        2.0,
        14.0,
        45.67,
        -45.67,
        1e300,
        -1e300,
        5e-324,
        -5e-324,
        f64::MAX,
        f64::MIN,
        f64::MIN_POSITIVE,
        f64::INFINITY,
        f64::NEG_INFINITY,
        f64::NAN,
        -f64::NAN,
        f64::from_bits(0x7ff0_0000_0000_0001),
        f64::from_bits(0xffff_ffff_ffff_ffff),
    ]
}

#[test]
fn nan_is_told_from_numbers() {
    for x in samples() {
        assert_eq!(nan(x.to_bits()), x.is_nan(), "{:?}", x);
    }
}

#[test]
fn negate_flips_the_sign() {
    for x in samples() {
        assert_eq!(negate(x.to_bits()), (-x).to_bits(), "{:?}", x);
    }
    assert_eq!(negate(2.0f64.to_bits()), (-2.0f64).to_bits());
    assert_eq!(negate(0.0f64.to_bits()), 0x8000_0000_0000_0000);
}

#[test]
fn less_orders_as_the_machine_does() {
    for x in samples() {
        for y in samples() {
            assert_eq!(less(x.to_bits(), y.to_bits()), x < y, "{:?} < {:?}", x, y);
        }
    }
}

#[test]
fn less_equal_orders_as_the_machine_does() {
    for x in samples() {
        for y in samples() {
            assert_eq!(less_equal(x.to_bits(), y.to_bits()), x <= y, "{:?} <= {:?}", x, y);
        }
    }
}

#[test]
fn greater_orders_as_the_machine_does() {
    for x in samples() {
        for y in samples() {
            assert_eq!(greater(x.to_bits(), y.to_bits()), x > y, "{:?} > {:?}", x, y);
        }
    }
}

#[test]
fn greater_equal_orders_as_the_machine_does() {
    for x in samples() {
        for y in samples() {
            assert_eq!(greater_equal(x.to_bits(), y.to_bits()), x >= y, "{:?} >= {:?}", x, y);
        }
    }
}

#[test]
fn equal_compares_as_the_machine_does() {
    for x in samples() {
        for y in samples() {
            assert_eq!(equal(x.to_bits(), y.to_bits()), x == y, "{:?} == {:?}", x, y);
        }
    }
}

#[test]
fn zeros_are_equal_and_nan_is_not() {
    assert!(equal(0.0f64.to_bits(), (-0.0f64).to_bits()));
    assert!(!equal(f64::NAN.to_bits(), f64::NAN.to_bits()));
    assert!(!less(f64::NAN.to_bits(), 1.0f64.to_bits()));
    assert!(!greater_equal(f64::NAN.to_bits(), f64::NAN.to_bits()));
}
