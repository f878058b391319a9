use pats::ordering::{order_key, INFINITY_BITS, SIGN_BIT, ZERO_KEY};
use pats::parcel::schemes::{
    saturation_formula, VapourPressureFormula, DEEP_FROST_KEY, FREEZING_POINT_KEY,
};

fn key(x: f64) -> i64 {
    order_key(x.to_bits()).expect("not a number")
}

#[test]
fn keys_keep_the_order_of_numbers() {
    let numbers = [
        f64::NEG_INFINITY,
        -1.0e300,
        -273.15,
        -1.0,
        -1.0e-300,
        0.0,
        5.0e-324,
        1.0e-6,
        0.2,
        1.0,
        193.0,
        273.15,
        1.0e300,
        f64::INFINITY,
    ];
    for a in numbers {
        for b in numbers {
            assert_eq!(a < b, key(a) < key(b));
            assert_eq!(a == b, key(a) == key(b));
        }
    }
}

#[test]
fn both_zeros_share_the_key_zero() {
    assert_eq!(key(0.0), 0);
    assert_eq!(key(-0.0), 0);
    assert_eq!(ZERO_KEY, 0);
}

#[test]
fn exact_keys() {
    assert_eq!(order_key(0x3ff0_0000_0000_0000), Some(4607182418800017408));
    assert_eq!(order_key(0xbff0_0000_0000_0000), Some(-4607182418800017408));
    assert_eq!(order_key(INFINITY_BITS), Some(0x7ff0_0000_0000_0000));
    assert_eq!(order_key(SIGN_BIT | INFINITY_BITS), Some(-0x7ff0_0000_0000_0000));
    assert_eq!(order_key(1), Some(1));
    assert_eq!(order_key(SIGN_BIT | 1), Some(-1));
}

#[test]
fn what_is_not_a_number_has_no_key() {
    assert_eq!(order_key(f64::NAN.to_bits()), None);
    assert_eq!(order_key((-f64::NAN).to_bits()), None);
    assert_eq!(order_key(INFINITY_BITS + 1), None);
    assert_eq!(order_key(SIGN_BIT | (INFINITY_BITS + 1)), None);
    assert_eq!(order_key(u64::MAX), None);
}

#[test]
fn thresholds_of_the_vapour_pressure_bands() {
    assert_eq!(key(273.15), FREEZING_POINT_KEY);
    assert_eq!(key(193.0), DEEP_FROST_KEY);
}

#[test]
fn vapour_pressure_formula_by_band() {
    assert_eq!(saturation_formula(key(300.0)), VapourPressureFormula::Buck1);
    assert_eq!(saturation_formula(key(273.16)), VapourPressureFormula::Buck1);
    assert_eq!(saturation_formula(key(273.15)), VapourPressureFormula::Buck2);
    assert_eq!(saturation_formula(key(250.0)), VapourPressureFormula::Buck2);
    assert_eq!(saturation_formula(key(193.5)), VapourPressureFormula::Buck2);
    assert_eq!(saturation_formula(key(193.0)), VapourPressureFormula::Wexler2);
    assert_eq!(saturation_formula(key(150.0)), VapourPressureFormula::Wexler2);
    assert_eq!(saturation_formula(key(-1.0)), VapourPressureFormula::Wexler2);
}
