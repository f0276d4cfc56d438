use mandelbrot::complex::Complex;
use mandelbrot::complex::float_fuzzy_eq;

fn bits(v: f32) -> u32 {
    v.to_bits()
}

#[test]
fn fuzzy_eq_is_reflexive_on_samples() {
    for v in [0.0f32, 1.0, -1.0, 0.5, -2.75, 3.4e38, 1.2e-38] {
        assert!(float_fuzzy_eq(bits(v), bits(v)));
        let z = Complex::new(bits(v), bits(-v));
        assert!(z.fuzzy_eq(z));
    }
}

#[test]
fn fuzzy_eq_is_symmetric_on_samples() {
    let pairs = [
        (1.0f32, 1.0f32 + f32::EPSILON),
        (1.0, 1.5),
        (-2.0, -2.0),
        (0.25, -0.25),
        (0.0, -0.0),
    ];
    for (a, b) in pairs {
        assert_eq!(
            float_fuzzy_eq(bits(a), bits(b)),
            float_fuzzy_eq(bits(b), bits(a))
        );
    }
}

#[test]
fn fuzzy_eq_rejects_sign_change_of_equal_magnitude() {
    assert!(!float_fuzzy_eq(bits(1.0), bits(-1.0)));
    assert!(!float_fuzzy_eq(bits(-0.5), bits(0.5)));
    let a = Complex::new(bits(1.0), bits(2.0));
    let b = Complex::new(bits(-1.0), bits(2.0));
    assert!(!a.fuzzy_eq(b));
}

#[test]
fn fuzzy_eq_zero_sign_boundary_policy() {
    // +0.0 and -0.0 have equal magnitude but different sign bits: unequal.
    assert!(!float_fuzzy_eq(bits(0.0), bits(-0.0)));
    assert!(float_fuzzy_eq(bits(0.0), bits(0.0)));
    assert!(float_fuzzy_eq(bits(-0.0), bits(-0.0)));
}

#[test]
fn fuzzy_eq_ulp_threshold_is_two() {
    let one = bits(1.0);
    assert!(float_fuzzy_eq(one, one + 1));
    assert!(float_fuzzy_eq(one, one + 2));
    assert!(!float_fuzzy_eq(one, one + 3));
    // the threshold applies to the absolute values on the negative side too
    let neg = bits(-1.0);
    assert!(float_fuzzy_eq(neg, neg + 2));
    assert!(!float_fuzzy_eq(neg, neg + 3));
}

#[test]
fn fuzzy_eq_needs_both_components() {
    let a = Complex::new(bits(1.0), bits(1.0));
    let close = Complex::new(bits(1.0) + 2, bits(1.0));
    let far = Complex::new(bits(1.0) + 2, bits(4.0));
    assert!(a.fuzzy_eq(close));
    assert!(!a.fuzzy_eq(far));
}
