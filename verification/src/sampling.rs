//! Random draws, and what is kept of them.
//!
//! The tracer draws numbers uniformly from 0 up to, but without, 1. Such a
//! number is made of 53 random bits: it is a multiple of 2^-53, and every
//! multiple is as likely as every other. Whoever has 64 random bits to give
//! can be the source.
//!
//! A point in the unit ball, or in the unit disk of a lens, is drawn by
//! rejection: points of the enclosing cube, or square, are drawn until one
//! lies inside. Each draw is independent of those before, and there is no
//! bound on their number, which keeps the points uniform.

use crate::scalar::{Scalar, ONE, ZERO};
use crate::vec3::Vec3;
use vstd::arithmetic::power2::{
    lemma2_to64, lemma2_to64_rest, lemma_pow2_adds, lemma_pow2_pos, lemma_pow2_unfold, pow2,
};
use vstd::prelude::*;

verus! {

/// The number `k` times 2^-53 in units of 2^-1074.
pub open spec fn fraction_value(k: u64) -> int {
    k * pow2(1021)
}

/// The number that 64 random bits give, in units of 2^-1074: the upper 53
/// bits as a whole number, times 2^-53.
pub open spec fn draw_value(bits: u64) -> int {
    fraction_value((bits / 2048) as u64)
}

/// A number from 0 up to, but without, 1.
pub open spec fn unit_interval(s: Scalar) -> bool {
    Scalar::of(ZERO).le_spec(s) && s.lt_spec(Scalar::of(ONE))
}

/// The number `k` times 2^-53, which is exact for every `k` below 2^53.
fn fraction(k: u64) -> (r: Scalar)
    requires
        k < 0x20_0000_0000_0000,
    ensures
        !r.nan(),
        !r.negative(),
        r.value() == fraction_value(k),
        unit_interval(r),
{
    proof {
        lemma_fraction_below_one(k);
    }
    if k == 0 {
        let r = Scalar::from_bits(ZERO);
        assert(r.code() == 0);
        assert(fraction_value(k) == 0) by (nonlinear_arith)
            requires
                k == 0,
                fraction_value(k) == k * pow2(1021),
        ;
        return r;
    }
    // move the leading bit of k to the place of the hidden bit
    let mut m: u64 = k;
    let mut shift: u64 = 0;
    proof {
        lemma2_to64();
    }
    while m < 0x10_0000_0000_0000
        invariant
            0 < m < 0x20_0000_0000_0000,
            shift <= 52,
            m == k * pow2(shift as nat),
            m < 0x10_0000_0000_0000 ==> shift < 52,
        decreases 52 - shift,
    {
        proof {
            lemma_pow2_unfold((shift + 1) as nat);
            assert(k * (2 * pow2(shift as nat)) == 2 * (k * pow2(shift as nat)))
                by (nonlinear_arith);
            if shift == 51 {
                // k is at least 1, so k * 2^52 is not below 2^52
                lemma2_to64_rest();
                assert(k * pow2(52) >= pow2(52)) by (nonlinear_arith)
                    requires
                        k >= 1,
                ;
            }
        }
        m = 2 * m;
        shift = shift + 1;
    }
    let exponent: u64 = 1022 - shift;
    let bits: u64 = exponent * 0x10_0000_0000_0000 + (m - 0x10_0000_0000_0000);
    let r = Scalar::from_bits(bits);
    proof {
        lemma2_to64_rest();
        assert(r.code() == bits);
        assert(r.exponent() == exponent);
        assert(r.fraction() == m - 0x10_0000_0000_0000);
        assert(pow2(52) + r.fraction() == m);
        // m * 2^(exponent - 1) = k * 2^shift * 2^(1021 - shift)
        lemma_pow2_adds(shift as nat, (1021 - shift) as nat);
        assert(m * pow2((exponent - 1) as nat) == k * pow2(1021)) by (nonlinear_arith)
            requires
                m == k * pow2(shift as nat),
                pow2(shift as nat) * pow2((exponent - 1) as nat) == pow2(1021),
        ;
    }
    r
}

/// A multiple of 2^-53 below 1 lies from 0 up to, but without, 1, whatever
/// pattern holds it.
pub proof fn lemma_fraction_below_one(k: u64)
    requires
        k < 0x20_0000_0000_0000,
    ensures
        forall|r: Scalar|
            !r.nan() && !r.negative() && r.value() == fraction_value(k) ==> unit_interval(r),
{
    let one = Scalar::of(ONE);
    let zero = Scalar::of(ZERO);
    lemma2_to64_rest();
    assert(one.exponent() == 1023);
    assert(one.fraction() == 0);
    assert(zero.code() == 0);
    lemma_pow2_adds(52, 1022);
    lemma_pow2_adds(53, 1021);
    lemma_pow2_unfold(53);
    lemma_pow2_pos(1021);
    assert(one.value() == pow2(1074));
    assert(k * pow2(1021) < pow2(53) * pow2(1021)) by (nonlinear_arith)
        requires
            k < pow2(53),
            pow2(1021) > 0,
    ;
    assert(0 <= k * pow2(1021)) by (nonlinear_arith);
}

/// The number in [0, 1) that 64 random bits give: the upper 53 of them as a
/// whole number, times 2^-53. The lower 11 bits are not used.
pub fn unit_draw(bits: u64) -> (r: Scalar)
    ensures
        !r.nan(),
        !r.negative(),
        r.value() == draw_value(bits),
        unit_interval(r),
{
    let k = bits >> 11;
    assert(k < 0x20_0000_0000_0000 && k == bits / 2048) by (bit_vector)
        requires
            k == bits >> 11,
    ;
    fraction(k)
}

/// A source of random numbers.
pub trait RngExt {
    /// The next 64 random bits of the source.
    fn next_u64(&mut self) -> u64;

    /// Returns a random number in [0, 1): what `unit_draw` makes of the next
    /// 64 bits of the source.
    fn float(&mut self) -> (r: Scalar)
        ensures
            unit_interval(r),
            exists|bits: u64| r.value() == #[trigger] draw_value(bits),
    {
        let bits = self.next_u64();
        unit_draw(bits)
    }
}

/// Whether a drawn point is kept: the square of its length is below 1.
pub fn accepts(length_squared: Scalar) -> (r: bool)
    ensures
        r == length_squared.lt_spec(Scalar::of(ONE)),
{
    length_squared.lt(Scalar::from_bits(ONE))
}

/// A vector of the hemisphere around a normal: `v` where `facing`, its dot
/// product with the normal, is above zero, else the opposite of `v`.
pub fn into_hemisphere(v: Vec3, facing: Scalar) -> (r: Vec3)
    ensures
        Scalar::of(ZERO).lt_spec(facing) ==> r == v,
        !Scalar::of(ZERO).lt_spec(facing) ==> r == v.neg_spec(),
{
    if facing.gt(Scalar::from_bits(ZERO)) {
        v
    } else {
        v.neg()
    }
}

} // verus!
