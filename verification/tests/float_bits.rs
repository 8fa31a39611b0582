use fbw_systems::float_bits::{eq, is_nan, le, lt, max, order_key};

const SAMPLES: [f64; 12] = [
    0.0,
    -0.0,
    1.0,
    -1.0,
    1.5e300,
    -2.5e-300,
    f64::INFINITY,
    f64::NEG_INFINITY,
    f64::MIN_POSITIVE,
    5e-324,
    f64::NAN,
    -f64::NAN,
];

#[test]
fn comparisons_agree_with_f64() {
    for a in SAMPLES {
        assert_eq!(is_nan(a.to_bits()), a.is_nan());
        for b in SAMPLES {
            assert_eq!(lt(a.to_bits(), b.to_bits()), a < b, "{a} < {b}");
            assert_eq!(le(a.to_bits(), b.to_bits()), a <= b, "{a} <= {b}");
            assert_eq!(eq(a.to_bits(), b.to_bits()), a == b, "{a} == {b}");
        }
    }
}

#[test]
fn max_agrees_with_f64() {
    for a in SAMPLES {
        for b in SAMPLES {
            let m = f64::from_bits(max(a.to_bits(), b.to_bits()));
            let expected = a.max(b);
            if expected.is_nan() {
                assert!(m.is_nan());
            } else {
                assert_eq!(m, expected);
            }
        }
    }
    assert_eq!(max(1.0f64.to_bits(), 2.0f64.to_bits()), 2.0f64.to_bits());
}

#[test]
fn order_keys() {
    assert_eq!(order_key(0.0f64.to_bits()), order_key((-0.0f64).to_bits()));
    assert!(order_key((-1.0f64).to_bits()) < order_key(1.0f64.to_bits()));
}
