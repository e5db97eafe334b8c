use deoxys::double::Double;

fn d(x: f64) -> Double {
    Double::from_bits(x.to_bits())
}

fn same(ours: Double, native: f64) -> bool {
    if native.is_nan() {
        ours.is_nan()
    } else {
        ours.to_bits() == native.to_bits()
    }
}

fn edge_values() -> Vec<f64> {
    let mut values = vec![
        0.0,
        -0.0,
        1.0,
        -1.0,
        2.0,
        0.5,
        0.1,
        0.01,
        0.001,
        3.0,
        10.0,
        1.5,
        1e-300,
        1e300,
        1e-320,
        4.9e-324,
        -4.9e-324,
        2.2250738585072014e-308,
        2.225073858507201e-308,
        f64::MAX,
        f64::MIN,
        f64::EPSILON,
        f64::INFINITY,
        f64::NEG_INFINITY,
        f64::NAN,
        9007199254740992.0,
        9007199254740993.0,
        9007199254740991.0,
        1.0000000000000002,
        0.9999999999999999,
        8.98846567431158e307,
        1.3407807929942597e154,
        1.4916681462400413e-154,
        6.103515625e-5,
    ];
    for bits in [
        0x0000_0000_0000_0001u64,
        0x0000_0000_0000_0002,
        0x000F_FFFF_FFFF_FFFF,
        0x0010_0000_0000_0000,
        0x0010_0000_0000_0001,
        0x001F_FFFF_FFFF_FFFF,
        0x0020_0000_0000_0000,
        0x7FEF_FFFF_FFFF_FFFF,
        0x7FEF_FFFF_FFFF_FFFE,
        0x7FE0_0000_0000_0000,
        0x3FEF_FFFF_FFFF_FFFF,
        0x3FF0_0000_0000_0001,
        0x4340_0000_0000_0000,
        0x4330_0000_0000_0001,
        0x3CA0_0000_0000_0000,
        0x3C90_0000_0000_0000,
        0x3C90_0000_0000_0001,
    ] {
        values.push(f64::from_bits(bits));
        values.push(f64::from_bits(bits | 0x8000_0000_0000_0000));
    }
    values
}

fn next_random(state: &mut u64) -> u64 {
    let mut x = *state;
    x ^= x << 13;
    x ^= x >> 7;
    x ^= x << 17;
    *state = x;
    x
}

#[test]
fn plus_matches_native_addition_on_edge_values() {
    let values = edge_values();
    for &a in &values {
        for &b in &values {
            assert!(same(d(a).plus(d(b)), a + b), "{:e} + {:e}", a, b);
        }
    }
}

#[test]
fn minus_matches_native_subtraction_on_edge_values() {
    let values = edge_values();
    for &a in &values {
        for &b in &values {
            assert!(same(d(a).minus(d(b)), a - b), "{:e} - {:e}", a, b);
        }
    }
}

#[test]
fn times_matches_native_multiplication_on_edge_values() {
    let values = edge_values();
    for &a in &values {
        for &b in &values {
            assert!(same(d(a).times(d(b)), a * b), "{:e} * {:e}", a, b);
        }
    }
}

#[test]
fn over_matches_native_division_on_edge_values() {
    let values = edge_values();
    for &a in &values {
        for &b in &values {
            assert!(same(d(a).over(d(b)), a / b), "{:e} / {:e}", a, b);
        }
    }
}

#[test]
fn arithmetic_matches_native_on_random_patterns() {
    let mut state: u64 = 0x9E37_79B9_7F4A_7C15;
    for _ in 0..100000 {
        let a = f64::from_bits(next_random(&mut state));
        let b = f64::from_bits(next_random(&mut state));
        assert!(same(d(a).plus(d(b)), a + b), "{:e} + {:e}", a, b);
        assert!(same(d(a).minus(d(b)), a - b), "{:e} - {:e}", a, b);
        assert!(same(d(a).times(d(b)), a * b), "{:e} * {:e}", a, b);
        assert!(same(d(a).over(d(b)), a / b), "{:e} / {:e}", a, b);
    }
}

#[test]
fn arithmetic_matches_native_on_nearby_exponents() {
    // Operands whose exponents are close, so that sums cancel and round.
    let mut state: u64 = 0x0123_4567_89AB_CDEF;
    for _ in 0..100000 {
        let fraction_a = next_random(&mut state) & 0x000F_FFFF_FFFF_FFFF;
        let fraction_b = next_random(&mut state) & 0x000F_FFFF_FFFF_FFFF;
        let pick = next_random(&mut state);
        let exponent_a = 1000 + (pick % 60);
        let exponent_b = 1000 + ((pick >> 8) % 60);
        let sign_a = (pick >> 20) & 1;
        let sign_b = (pick >> 21) & 1;
        let a = f64::from_bits((sign_a << 63) | (exponent_a << 52) | fraction_a);
        let b = f64::from_bits((sign_b << 63) | (exponent_b << 52) | fraction_b);
        assert!(same(d(a).plus(d(b)), a + b), "{:e} + {:e}", a, b);
        assert!(same(d(a).minus(d(b)), a - b), "{:e} - {:e}", a, b);
        assert!(same(d(a).times(d(b)), a * b), "{:e} * {:e}", a, b);
        assert!(same(d(a).over(d(b)), a / b), "{:e} / {:e}", a, b);
    }
}

#[test]
fn arithmetic_matches_native_near_the_subnormal_range() {
    let mut state: u64 = 0xDEAD_BEEF_CAFE_F00D;
    for _ in 0..100000 {
        let fraction_a = next_random(&mut state) & 0x000F_FFFF_FFFF_FFFF;
        let fraction_b = next_random(&mut state) & 0x000F_FFFF_FFFF_FFFF;
        let pick = next_random(&mut state);
        let exponent_a = pick % 4;
        let exponent_b = (pick >> 8) % 60;
        let sign_a = (pick >> 20) & 1;
        let sign_b = (pick >> 21) & 1;
        let a = f64::from_bits((sign_a << 63) | (exponent_a << 52) | fraction_a);
        let b = f64::from_bits((sign_b << 63) | (exponent_b << 52) | fraction_b);
        let one_ish = f64::from_bits((0x3FF << 52) | fraction_b);
        assert!(same(d(a).plus(d(b)), a + b), "{:e} + {:e}", a, b);
        assert!(same(d(a).minus(d(b)), a - b), "{:e} - {:e}", a, b);
        assert!(same(d(a).times(d(one_ish)), a * one_ish), "{:e} * {:e}", a, one_ish);
        assert!(same(d(a).over(d(one_ish)), a / one_ish), "{:e} / {:e}", a, one_ish);
        assert!(same(d(b).times(d(0.5)), b * 0.5), "{:e} * 0.5", b);
    }
}

#[test]
fn plus_gives_exact_expected_patterns() {
    assert_eq!(d(0.1).plus(d(0.2)).to_bits(), 0x3FD3_3333_3333_3334);
    assert_eq!(d(0.0).plus(d(0.01)).to_bits(), 0x3F84_7AE1_47AE_147B);
    assert_eq!(d(1.0).plus(d(-1.0)).to_bits(), 0);
    assert_eq!(d(-0.0).plus(d(-0.0)).to_bits(), 0x8000_0000_0000_0000);
    assert_eq!(d(f64::MAX).plus(d(f64::MAX)).to_bits(), 0x7FF0_0000_0000_0000);
}

#[test]
fn times_gives_exact_expected_patterns() {
    assert_eq!(d(0.01).times(d(0.01)).to_bits(), 0.0001f64.to_bits());
    assert_eq!(d(0.5).times(d(0.5)).to_bits(), 0.25f64.to_bits());
    assert_eq!(d(-3.0).times(d(2.0)).to_bits(), (-6.0f64).to_bits());
    assert_eq!(d(0.1).times(d(0.1)).to_bits(), 0x3F84_7AE1_47AE_147C);
}

#[test]
fn over_gives_exact_expected_patterns() {
    assert_eq!(d(1.0).over(d(3.0)).to_bits(), 0x3FD5_5555_5555_5555);
    assert_eq!(d(1.0).over(d(10.0)).to_bits(), 0x3FB9_9999_9999_999A);
    assert_eq!(d(1.0).over(d(0.0)).to_bits(), 0x7FF0_0000_0000_0000);
    assert_eq!(d(-1.0).over(d(0.0)).to_bits(), 0xFFF0_0000_0000_0000);
    assert!(d(0.0).over(d(0.0)).is_nan());
}

#[test]
fn invalid_operations_return_the_canonical_nan() {
    let inf = d(f64::INFINITY);
    assert_eq!(inf.minus(inf).to_bits(), 0x7FF8_0000_0000_0000);
    assert_eq!(inf.times(d(0.0)).to_bits(), 0x7FF8_0000_0000_0000);
    assert_eq!(inf.over(inf).to_bits(), 0x7FF8_0000_0000_0000);
    assert_eq!(d(f64::NAN).plus(d(1.0)).to_bits(), 0x7FF8_0000_0000_0000);
}

#[test]
fn from_count_matches_native_conversion() {
    for n in [0u64, 1, 2, 3, 10, 1000, 1 << 52, (1 << 53) - 1, 1 << 53, (1 << 53) + 1, (1 << 53) + 3, u64::MAX - 1, u64::MAX] {
        assert_eq!(Double::from_count(n).to_bits(), (n as f64).to_bits(), "{}", n);
    }
    assert_eq!(Double::from_count(10).to_bits(), 0x4024_0000_0000_0000);
}

#[test]
fn comparisons_match_native_comparisons() {
    let values = edge_values();
    for &a in &values {
        for &b in &values {
            assert_eq!(d(a).lt(d(b)), a < b, "{:e} < {:e}", a, b);
            assert_eq!(d(a).le(d(b)), a <= b, "{:e} <= {:e}", a, b);
            assert_eq!(d(a).gt(d(b)), a > b, "{:e} > {:e}", a, b);
            assert_eq!(d(a).ge(d(b)), a >= b, "{:e} >= {:e}", a, b);
        }
    }
}

#[test]
fn classification_matches_native_classification() {
    for &a in &edge_values() {
        assert_eq!(d(a).is_finite(), a.is_finite());
        assert_eq!(d(a).is_nan(), a.is_nan());
        assert_eq!(d(a).is_infinite(), a.is_infinite());
        assert_eq!(d(a).is_negative(), a.is_sign_negative());
        assert_eq!(d(a).is_zero(), a == 0.0);
        assert!(same(d(a).neg(), -a));
    }
}

#[test]
fn clamp_matches_native_clamp() {
    let values = edge_values();
    for &x in &values {
        for &(lo, hi) in &[(-1.0, 1.0), (-0.5, 0.5), (0.0, 0.0), (-0.0, 0.0), (1e-320, 1e300), (f64::MIN, f64::MAX)] {
            assert!(same(d(x).clamp(d(lo), d(hi)), x.clamp(lo, hi)), "{:e} in [{:e}, {:e}]", x, lo, hi);
        }
    }
}

#[test]
fn clamp_is_idempotent() {
    for &x in &edge_values() {
        let once = d(x).clamp(d(-0.5), d(0.5));
        let twice = once.clamp(d(-0.5), d(0.5));
        assert_eq!(once.to_bits(), twice.to_bits());
    }
}
