//! Colors in linear light, and their bytes.
//!
//! While light is gathered a color is three numbers from 0 upwards. At the
//! end the mean of the samples is corrected for gamma by a square root, and
//! each channel is then held between 0 and 0.999, multiplied by 256 and cut
//! to a byte. The square root rounds; what follows it is exact and is done
//! here.

use crate::scalar::{lemma_byte_by_exponent, lemma_order_by_key, Scalar, ONE, ZERO};
use crate::vec3::Vec3;
use vstd::arithmetic::power2::{lemma2_to64_rest, pow2};
use vstd::prelude::*;
use vstd::std_specs::cmp::PartialEqSpecImpl;

verus! {

/// The pattern of 0.999, the largest channel value that is turned into a
/// byte as it is.
pub const CEILING: u64 = 0x3fef_f7ce_d916_872b;

/// A color: red, green and blue.
#[derive(Clone, Copy, Debug)]
pub struct Color(pub Vec3);

/// The byte of a channel whose gamma-corrected value is `g`.
pub open spec fn channel_spec(g: Scalar) -> int {
    g.clamp_spec(Scalar::of(ZERO), Scalar::of(CEILING)).byte_spec()
}

/// The byte of a channel whose gamma-corrected value is `g`: `g` held between
/// 0 and 0.999, times 256, cut to a whole number.
pub fn channel(g: Scalar) -> (r: u8)
    ensures
        r == channel_spec(g),
{
    let zero = Scalar::from_bits(ZERO);
    let ceiling = Scalar::from_bits(CEILING);
    proof {
        lemma_order_by_key(zero, ceiling);
    }
    g.clamp(zero, ceiling).byte()
}

impl Color {
    /// White, which takes nothing from the light.
    pub open spec fn white_spec() -> Color {
        Color(Vec3(Scalar::of(ONE), Scalar::of(ONE), Scalar::of(ONE)))
    }

    /// Black, the color of no light.
    pub open spec fn black_spec() -> Color {
        Color(Vec3(Scalar::of(ZERO), Scalar::of(ZERO), Scalar::of(ZERO)))
    }

    pub fn new(x: Scalar, y: Scalar, z: Scalar) -> (c: Color)
        ensures
            c == Color(Vec3(x, y, z)),
    {
        Color(Vec3::new(x, y, z))
    }

    pub fn white() -> (c: Color)
        ensures
            c == Color::white_spec(),
    {
        let one = Scalar::from_bits(ONE);
        Color(Vec3::new(one, one, one))
    }

    pub fn black() -> (c: Color)
        ensures
            c == Color::black_spec(),
    {
        let zero = Scalar::from_bits(ZERO);
        Color(Vec3::new(zero, zero, zero))
    }

    /// The bytes of a gamma-corrected color: red, green, blue.
    pub fn quantize(self) -> (rgb: [u8; 3])
        ensures
            rgb[0] == channel_spec(self.0.0),
            rgb[1] == channel_spec(self.0.1),
            rgb[2] == channel_spec(self.0.2),
    {
        [channel(self.0.0), channel(self.0.1), channel(self.0.2)]
    }
}

/// A channel at or above 0.999 becomes the byte 255, however bright it is.
pub proof fn lemma_channel_saturates(g: Scalar)
    requires
        Scalar::of(CEILING).le_spec(g),
    ensures
        channel_spec(g) == 255,
{
    let zero = Scalar::of(ZERO);
    let ceiling = Scalar::of(CEILING);
    lemma_order_by_key(zero, ceiling);
    lemma_order_by_key(ceiling, g);
    lemma_order_by_key(g, zero);
    lemma_order_by_key(g, ceiling);
    lemma_byte_by_exponent(ceiling);
    lemma2_to64_rest();
    assert(ceiling.exponent() == 1022);
    assert(ceiling.fraction() == 0xf_f7ce_d916_872b);
    assert(pow2(45) == 0x2000_0000_0000);
    let held = g.clamp_spec(zero, ceiling);
    if ceiling.lt_spec(g) {
        assert(held == ceiling);
    } else {
        assert(held == g);
        assert(g.key() == ceiling.key());
        assert(g.code() == ceiling.code());
    }
    assert(held.exponent() == 1022);
    assert(held.fraction() == 0xf_f7ce_d916_872b);
    lemma_byte_by_exponent(held);
    let leading = pow2(52) + held.fraction();
    let step = pow2(45);
    assert(leading / step == 255) by (nonlinear_arith)
        requires
            leading == 0x1f_f7ce_d916_872b,
            step == 0x2000_0000_0000,
    ;
}

/// A channel that is zero or below, or not a number, becomes the byte 0.
pub proof fn lemma_channel_dark(g: Scalar)
    requires
        g.nan() || g.value() <= 0,
    ensures
        channel_spec(g) == 0,
{
    let zero = Scalar::of(ZERO);
    let ceiling = Scalar::of(CEILING);
    lemma_order_by_key(zero, ceiling);
    lemma_order_by_key(g, zero);
    lemma_order_by_key(zero, g);
    lemma_order_by_key(g, ceiling);
    lemma_order_by_key(ceiling, g);
    let held = g.clamp_spec(zero, ceiling);
    if !held.nan() && !held.negative() {
        assert(held.code() == 0);
        lemma_byte_by_exponent(held);
    }
}

impl PartialEq for Color {
    /// Equality of the channels as numbers.
    fn eq(&self, other: &Color) -> (r: bool) {
        self.0 == other.0
    }
}

impl PartialEqSpecImpl for Color {
    open spec fn obeys_eq_spec() -> bool {
        true
    }

    open spec fn eq_spec(&self, other: &Color) -> bool {
        self.0.equal_spec(other.0)
    }
}

impl Default for Color {
    /// Black.
    fn default() -> (r: Color)
        ensures
            r == Color::black_spec(),
    {
        Color(Vec3::default())
    }
}

} // verus!
