use hooray::scalar::Scalar;

fn s(x: f64) -> Scalar {
    Scalar::from_bits(x.to_bits())
}

fn samples() -> Vec<f64> {
    vec![
        0.0,
        -0.0,
        1.0,
        -1.0,
        0.5,
        0.001,
        0.999,
        1e-8,
        -1e-8,
        1e-9,
        5e-324,
        -5e-324,
        2.2250738585072014e-308,
        1.7976931348623157e308,
        -1.7976931348623157e308,
        f64::INFINITY,
        f64::NEG_INFINITY,
        f64::NAN,
        -f64::NAN,
        255.0 / 256.0,
        0.99609375,
        0.003906249,
        0.00390625,
        0.0039062501,
        3.5,
        -3.5,
        1e300,
    ]
}

#[test]
fn order_agrees_with_the_hardware() {
    for &a in samples().iter() {
        for &b in samples().iter() {
            assert_eq!(s(a).lt(s(b)), a < b, "{} < {}", a, b);
            assert_eq!(s(a).le(s(b)), a <= b, "{} <= {}", a, b);
            assert_eq!(s(a).gt(s(b)), a > b, "{} > {}", a, b);
            assert_eq!(s(a).ge(s(b)), a >= b, "{} >= {}", a, b);
            assert_eq!(s(a).equals(s(b)), a == b, "{} == {}", a, b);
        }
    }
}

#[test]
fn classification_agrees_with_the_hardware() {
    for &a in samples().iter() {
        assert_eq!(s(a).is_nan(), a.is_nan());
        assert_eq!(s(a).is_infinite(), a.is_infinite());
        assert_eq!(s(a).is_finite(), a.is_finite());
        assert_eq!(s(a).is_sign_negative(), a.is_sign_negative());
    }
}

#[test]
fn neg_and_abs_change_the_sign_bit_only() {
    for &a in samples().iter() {
        assert_eq!(s(a).neg().to_bits(), (-a).to_bits());
        assert_eq!(s(a).abs().to_bits(), a.abs().to_bits());
    }
}

#[test]
fn clamp_agrees_with_the_hardware() {
    for &a in samples().iter() {
        let got = s(a).clamp(s(0.0), s(0.999)).to_bits();
        assert_eq!(got, a.clamp(0.0, 0.999).to_bits(), "{}", a);
    }
}

#[test]
fn byte_is_the_product_with_256_cut_off() {
    for &a in samples().iter() {
        assert_eq!(s(a).byte(), (a * 256.0) as u8, "{}", a);
    }
    let mut x = 1e-5_f64;
    while x < 2.0 {
        assert_eq!(s(x).byte(), (x * 256.0) as u8, "{}", x);
        x *= 1.0009765625;
    }
    assert_eq!(s(0.5).byte(), 128);
    assert_eq!(s(0.999).byte(), 255);
    assert_eq!(s(1.0).byte(), 255);
    assert_eq!(s(0.00390625).byte(), 1);
    assert_eq!(s(0.0039).byte(), 0);
}

/// Bit patterns of every sort: the generator mixes random patterns with
/// patterns near the ends of each range of exponents.
fn patterns(count: usize) -> Vec<u64> {
    let mut state: u64 = 0x2545f4914f6cdd1d;
    let mut out = Vec::with_capacity(count);
    for i in 0..count {
        state ^= state << 13;
        state ^= state >> 7;
        state ^= state << 17;
        let p = match i % 4 {
            0 => state,
            1 => state & 0x800f_ffff_ffff_ffff | ((state >> 40) % 2048) << 52,
            2 => (state & 0x8000_0000_0000_0000) | (0x3ff0_0000_0000_0000 + (state % 64) - 32),
            _ => (state & 0xfff0_0000_0000_0000) | (state % 3),
        };
        out.push(p);
    }
    out
}

#[test]
fn every_operation_agrees_with_the_hardware_on_many_patterns() {
    let all = patterns(40000);
    for pair in all.chunks(2) {
        let (a, b) = (f64::from_bits(pair[0]), f64::from_bits(pair[1]));
        let (x, y) = (Scalar::from_bits(pair[0]), Scalar::from_bits(pair[1]));
        assert_eq!(x.lt(y), a < b, "{:e} < {:e}", a, b);
        assert_eq!(x.le(y), a <= b, "{:e} <= {:e}", a, b);
        assert_eq!(x.gt(y), a > b, "{:e} > {:e}", a, b);
        assert_eq!(x.ge(y), a >= b, "{:e} >= {:e}", a, b);
        assert_eq!(x.equals(y), a == b, "{:e} == {:e}", a, b);
        assert_eq!(x == y, a == b);
        assert_eq!(x.is_nan(), a.is_nan());
        assert_eq!(x.is_infinite(), a.is_infinite());
        assert_eq!(x.is_finite(), a.is_finite());
        assert_eq!(x.is_sign_negative(), a.is_sign_negative());
        assert_eq!(x.neg().to_bits(), (-a).to_bits());
        assert_eq!(x.abs().to_bits(), a.abs().to_bits());
        assert_eq!(x.byte(), (a * 256.0) as u8, "{:e}", a);
        if !a.is_nan() {
            let clamped = x.clamp(s(0.0), s(0.999));
            assert_eq!(clamped.to_bits(), a.clamp(0.0, 0.999).to_bits(), "{:e}", a);
        }
        if !a.is_nan() && !b.is_nan() && a.abs() <= b.abs() {
            let clamped = y.clamp(x.abs().neg(), x.abs());
            assert_eq!(clamped.to_bits(), b.clamp(-a.abs(), a.abs()).to_bits());
        }
    }
}

#[test]
fn the_named_patterns_are_those_of_the_numbers() {
    assert_eq!(hooray::scalar::ZERO, 0.0_f64.to_bits());
    assert_eq!(hooray::scalar::ONE, 1.0_f64.to_bits());
    assert_eq!(hooray::scalar::INFINITY, f64::INFINITY.to_bits());
    assert_eq!(hooray::scalar::PI, std::f64::consts::PI.to_bits());
    assert_eq!(hooray::vec3::NEAR_ZERO, 1e-8_f64.to_bits());
    assert_eq!(hooray::color::CEILING, 0.999_f64.to_bits());
    assert_eq!(hooray::ray::SHADOW_EPSILON, 0.001_f64.to_bits());
    assert_eq!(hooray::scene::MATTE_SHARE, 0.8_f64.to_bits());
    assert_eq!(hooray::scene::METAL_SHARE, 0.95_f64.to_bits());
    assert_eq!(hooray::scene::CLEARANCE, 1.2_f64.to_bits());
}
