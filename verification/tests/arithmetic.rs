use fixed_point_physics::scalar::Scalar;

fn s(x: f64) -> Scalar {
    Scalar::from_bits(x.to_bits())
}

fn f(x: Scalar) -> f64 {
    f64::from_bits(x.to_bits())
}

fn same(got: Scalar, want: f64) -> bool {
    if want.is_nan() {
        got.is_nan()
    } else {
        got.to_bits() == want.to_bits()
    }
}

/// A fixed sequence of bit patterns that covers every exponent.
fn patterns(count: usize) -> Vec<u64> {
    let mut state: u64 = 0x9e37_79b9_7f4a_7c15;
    let mut out: Vec<u64> = Vec::new();
    for _ in 0..count {
        state ^= state << 13;
        state ^= state >> 7;
        state ^= state << 17;
        out.push(state);
    }
    out
}

fn interesting() -> Vec<f64> {
    let mut v: Vec<f64> = vec![
        0.0,
        -0.0,
        1.0,
        -1.0,
        2.0,
        0.5,
        1.5,
        2.5,
        0.1,
        0.2,
        0.3,
        0.98,
        3.0,
        10.0,
        1e300,
        -1e300,
        1e-300,
        5e-324,
        -5e-324,
        f64::MIN_POSITIVE,
        f64::MAX,
        f64::MIN,
        f64::EPSILON,
        f64::INFINITY,
        f64::NEG_INFINITY,
        f64::NAN,
        4503599627370496.0,
        9007199254740992.0,
        9007199254740991.0,
        1.0000000000000002,
        0.9999999999999999,
        2147483647.5,
        -2147483648.5,
    ];
    let more: Vec<f64> = v.iter().map(|x| x * 1.25e-308).collect();
    v.extend(more);
    v
}

#[test]
fn sum_matches_hardware_on_chosen_values() {
    let v = interesting();
    for &a in &v {
        for &b in &v {
            assert!(same(s(a) + s(b), a + b), "{a:e} + {b:e}");
        }
    }
}

#[test]
fn difference_matches_hardware_on_chosen_values() {
    let v = interesting();
    for &a in &v {
        for &b in &v {
            assert!(same(s(a) - s(b), a - b), "{a:e} - {b:e}");
        }
    }
}

#[test]
fn product_matches_hardware_on_chosen_values() {
    let v = interesting();
    for &a in &v {
        for &b in &v {
            assert!(same(s(a) * s(b), a * b), "{a:e} * {b:e}");
        }
    }
}

#[test]
fn sum_matches_hardware_on_many_patterns() {
    let p = patterns(4000);
    for w in p.windows(2) {
        let (a, b) = (f64::from_bits(w[0]), f64::from_bits(w[1]));
        assert!(same(s(a) + s(b), a + b), "{a:e} + {b:e}");
    }
}

#[test]
fn sum_matches_hardware_on_near_exponents() {
    let p = patterns(4000);
    for w in p.windows(3) {
        let a = f64::from_bits(w[0]);
        if !a.is_finite() {
            continue;
        }
        let shift = (w[2] % 140) as i64 - 70;
        let exp = ((w[0] >> 52) & 0x7ff) as i64;
        let other = (exp + shift).clamp(0, 2046) as u64;
        let b = f64::from_bits((w[1] & 0x800f_ffff_ffff_ffff) | (other << 52));
        assert!(same(s(a) + s(b), a + b), "{a:e} + {b:e}");
        assert!(same(s(a) - s(b), a - b), "{a:e} - {b:e}");
    }
}

#[test]
fn product_matches_hardware_on_many_patterns() {
    let p = patterns(4000);
    for w in p.windows(2) {
        let (a, b) = (f64::from_bits(w[0]), f64::from_bits(w[1]));
        assert!(same(s(a) * s(b), a * b), "{a:e} * {b:e}");
        let c = f64::from_bits((w[1] & 0x800f_ffff_ffff_ffff) | ((2046 - ((w[0] >> 52) & 0x7ff)).min(2046) << 52));
        assert!(same(s(a) * s(c), a * c), "{a:e} * {c:e}");
    }
}

#[test]
fn product_matches_hardware_in_the_subnormal_range() {
    let p = patterns(4000);
    for w in p.windows(3) {
        let low = 1023 - 530 - (w[2] % 12);
        let a = f64::from_bits((w[0] & 0x800f_ffff_ffff_ffff) | (low << 52));
        let b = f64::from_bits((w[1] & 0x800f_ffff_ffff_ffff) | ((1023 - 520 - (w[2] >> 8) % 40) << 52));
        assert!(same(s(a) * s(b), a * b), "{a:e} * {b:e}");
    }
}

#[test]
fn sum_matches_hardware_on_subnormal_numbers() {
    let p = patterns(4000);
    for w in p.windows(2) {
        let a = f64::from_bits(w[0] & 0x800f_ffff_ffff_ffff);
        let b = f64::from_bits((w[1] & 0x800f_ffff_ffff_ffff) | ((w[1] >> 62) << 52));
        assert!(same(s(a) + s(b), a + b), "{a:e} + {b:e}");
        assert!(same(s(a) - s(b), a - b), "{a:e} - {b:e}");
    }
}

#[test]
fn sum_matches_hardware_near_the_largest_number() {
    let p = patterns(2000);
    for w in p.windows(2) {
        let a = f64::from_bits((w[0] & 0x800f_ffff_ffff_ffff) | (2046 << 52));
        let b = f64::from_bits((w[1] & 0x800f_ffff_ffff_ffff) | ((2046 - (w[1] >> 60) * 4) << 52));
        assert!(same(s(a) + s(b), a + b), "{a:e} + {b:e}");
        assert!(same(s(a) * s(b), a * b), "{a:e} * {b:e}");
    }
}

#[test]
fn ties_round_to_even() {
    // 2^53 + 1 is a tie between 2^53 and 2^53 + 2.
    assert!(same(s(9007199254740992.0) + s(1.0), 9007199254740992.0));
    assert!(same(s(9007199254740994.0) + s(1.0), 9007199254740996.0));
    assert!(same(s(9007199254740992.0) + s(3.0), 9007199254740996.0));
    // Just below a power of two the spacing halves.
    assert!(same(s(9007199254740992.0) - s(1.0), 9007199254740991.0));
    assert!(same(s(1.0) - s(1.1102230246251565e-16), 0.9999999999999999));
    assert!(same(s(1.0) - s(5.551115123125783e-17), 1.0));
    assert!(same(s(1.0) + s(1.1102230246251565e-16), 1.0));
    assert!(same(s(1.0) + s(1.1102230246251568e-16), 1.0000000000000002));
    // Half a step above the largest number is a tie that goes out of range.
    let half_step = f64::from_bits(1993 << 52);
    let less = f64::from_bits((1993 << 52) - 1);
    assert_eq!(f64::MAX + half_step, f64::INFINITY);
    assert!(same(s(f64::MAX) + s(half_step), f64::INFINITY));
    assert!(same(s(f64::MAX) + s(less), f64::MAX));
    assert!(same(s(f64::MIN) - s(half_step), f64::NEG_INFINITY));
    assert!(same(s(5e-324) * s(0.5), 0.0));
    assert!(same(s(5e-324) * s(0.5000000000000001), 5e-324));
    assert!(same(s(-5e-324) * s(0.5), -0.0));
    assert!(same(s(1.5e-323) * s(0.5), 1e-323));
}

#[test]
fn negation_flips_the_sign() {
    for &a in &interesting() {
        assert!(same(-s(a), -a));
    }
    assert_eq!((-s(f64::NAN)).to_bits(), f64::NAN.to_bits() ^ (1 << 63));
}

#[test]
fn order_matches_hardware() {
    let v = interesting();
    for &a in &v {
        for &b in &v {
            assert_eq!(s(a) < s(b), a < b);
            assert_eq!(s(a) <= s(b), a <= b);
            assert_eq!(s(a) > s(b), a > b);
            assert_eq!(s(a) >= s(b), a >= b);
            assert_eq!(s(a) == s(b), a == b);
            assert_eq!(s(a).partial_cmp(&s(b)), a.partial_cmp(&b));
        }
    }
}

#[test]
fn min_max_clamp_match_hardware() {
    let v = interesting();
    for &a in &v {
        for &b in &v {
            let (hi, lo) = (a.max(b), a.min(b));
            if hi.is_nan() {
                assert!(s(a).max(s(b)).is_nan());
                assert!(s(a).min(s(b)).is_nan());
            } else {
                assert_eq!(f(s(a).max(s(b))), hi);
                assert_eq!(f(s(a).min(s(b))), lo);
            }
        }
        assert!(same(s(a).clamp(s(0.0), s(1.0)), a.clamp(0.0, 1.0)));
    }
}

#[test]
fn rounding_to_i32_matches_hardware() {
    let mut v = interesting();
    v.extend([0.5, -0.5, 0.49999999999999994, 1.5, -1.5, 2.5, -2.5, 1e9, -1e9, 3e9, -3e9, 2147483646.5, 2147483647.4, -2147483648.4]);
    for &a in &v {
        assert_eq!(s(a).round_to_i32(), a.round() as i32, "{a:e}");
    }
    for bits in patterns(4000) {
        let exp = 1023 + (bits >> 58) as u64;
        let a = f64::from_bits((bits & 0x800f_ffff_ffff_ffff) | (exp.saturating_sub(20) << 52));
        assert_eq!(s(a).round_to_i32(), a.round() as i32, "{a:e}");
    }
}

#[test]
fn constants_are_what_they_say() {
    assert_eq!(f(Scalar::zero()), 0.0);
    assert!(f(Scalar::zero()).is_sign_positive());
    assert_eq!(f(Scalar::one()), 1.0);
    assert_eq!(f(Scalar::two()), 2.0);
    assert!(f(Scalar::nan()).is_nan());
}
