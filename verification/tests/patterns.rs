use rtweekend::ieee;
use rtweekend::vec3::Vec3;

fn samples() -> Vec<f64> {
    let mut all = vec![
        0.0,
        -0.0,
        1.0,
        -1.0,
        0.5,
        1e-8,
        -1e-8,
        0.999,
        f64::MIN_POSITIVE,
        -f64::MIN_POSITIVE,
        5e-324,
        -5e-324,
        f64::MAX,
        f64::MIN,
        f64::INFINITY,
        f64::NEG_INFINITY,
        f64::NAN,
        -f64::NAN,
        f64::from_bits(0x7ff0_0000_0000_0001),
        f64::from_bits(0xfff0_0000_0000_0001),
        f64::from_bits(0x000f_ffff_ffff_ffff),
        f64::from_bits(0x0010_0000_0000_0000),
        1.0 + f64::EPSILON,
        1.0 - f64::EPSILON / 2.0,
        3.5,
        -3.5,
        1e300,
        -1e300,
        1e-300,
    ];
    let mut state = 0x2545_f491_4f6c_dd1du64;
    for _ in 0..300 {
        state ^= state << 13;
        state ^= state >> 7;
        state ^= state << 17;
        all.push(f64::from_bits(state));
    }
    all
}

#[test]
fn order_matches_float_comparison() {
    let all = samples();
    for &a in &all {
        for &b in &all {
            let (x, y) = (a.to_bits(), b.to_bits());
            assert_eq!(ieee::lt(x, y), a < b, "{:?} < {:?}", a, b);
            assert_eq!(ieee::gt(x, y), a > b, "{:?} > {:?}", a, b);
            assert_eq!(ieee::le(x, y), a <= b, "{:?} <= {:?}", a, b);
        }
    }
}

#[test]
fn sign_operations_match_float_operations() {
    for a in samples() {
        let x = a.to_bits();
        assert_eq!(ieee::neg(x), (-a).to_bits());
        assert_eq!(ieee::abs(x), a.abs().to_bits());
        assert_eq!(ieee::is_nan(x), a.is_nan());
    }
}

#[test]
fn clamp_matches_float_clamp() {
    let all = samples();
    let bounds: [(f64, f64); 5] = [(0.0, 0.999), (-1.0, 1.0), (-0.0, 0.0), (2.0, 2.0), (f64::NEG_INFINITY, 5.0)];
    for &a in &all {
        for (lo, hi) in bounds {
            assert!(ieee::le(lo.to_bits(), hi.to_bits()));
            let got = ieee::clamp(a.to_bits(), lo.to_bits(), hi.to_bits());
            assert_eq!(got, a.clamp(lo, hi).to_bits(), "{:?} in [{:?}, {:?}]", a, lo, hi);
        }
    }
}

#[test]
fn floor_shifted_is_the_integer_part() {
    let mut values = vec![0.0, -0.0, 0.5, -0.5, 0.999, 1e-8, 5e-324, 1.0 - f64::EPSILON / 2.0];
    let mut v = 0.0f64;
    while v < 1.0 {
        values.push(v);
        v += 0.0123;
    }
    for a in values {
        for k in [0u32, 1, 8, 15, 31, 52] {
            let expected = (a.abs() * (2.0f64).powi(k as i32)).floor() as u64;
            assert_eq!(ieee::floor_shifted(a.to_bits(), k), expected, "{:?} * 2^{}", a, k);
        }
    }
}

#[test]
fn dyadic_is_the_quotient() {
    let numerators = [0u64, 1, 2, 3, 255, 32767, 32768, 0x1f_ffff_ffff_ffff, 0x10_0000_0000_0000];
    for n in numerators {
        for k in [0u32, 1, 15, 53, 64, 1000, 1022] {
            let expected = (n as f64) * (2.0f64).powi(-(k as i32));
            assert_eq!(ieee::dyadic(n, k), expected.to_bits(), "{} / 2^{}", n, k);
        }
    }
}

#[test]
fn components_and_constants() {
    let v = Vec3::new(1.5f64.to_bits(), (-2.0f64).to_bits(), 0.25f64.to_bits());
    assert_eq!(f64::from_bits(v.x()), 1.5);
    assert_eq!(f64::from_bits(v.y()), -2.0);
    assert_eq!(f64::from_bits(v.z()), 0.25);
    assert_eq!(v.0, [1.5f64.to_bits(), (-2.0f64).to_bits(), 0.25f64.to_bits()]);
    let n = v.neg();
    assert_eq!(n.0, [(-1.5f64).to_bits(), 2.0f64.to_bits(), (-0.25f64).to_bits()]);
    assert_eq!(Vec3::zero().0, [0, 0, 0]);
    assert_eq!(Vec3::repeat(ieee::ONE).0, [1.0f64.to_bits(); 3]);
    assert_eq!(ieee::INFINITY, f64::INFINITY.to_bits());
    assert_eq!(ieee::SIGN_BIT, (-0.0f64).to_bits());
    assert_eq!(rtweekend::vec3::NEAR_ZERO_DELTA, 1e-8f64.to_bits());
    assert_eq!(rtweekend::render::CHANNEL_MAX, 0.999f64.to_bits());
    assert_eq!(rtweekend::geometry::NO_HIT, (-1.0f64).to_bits());
    assert_eq!(ieee::HALF, 0.5f64.to_bits());
    assert_eq!(ieee::ONE, 1.0f64.to_bits());
    assert_eq!(ieee::ZERO, 0.0f64.to_bits());
}

#[test]
fn near_zero_is_below_the_delta_in_every_component() {
    let near = |a: f64, b: f64, c: f64| Vec3::new(a.to_bits(), b.to_bits(), c.to_bits()).near_zero();
    assert!(near(0.0, 0.0, 0.0));
    assert!(near(9.9e-9, -9.9e-9, -0.0));
    assert!(!near(1e-8, 0.0, 0.0));
    assert!(!near(0.0, -1e-8, 0.0));
    assert!(!near(0.0, 0.0, 1.0));
    assert!(!near(0.0, f64::NAN, 0.0));
    assert!(!near(f64::INFINITY, 0.0, 0.0));
}
