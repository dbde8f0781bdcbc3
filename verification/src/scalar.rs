//! Binary64 numbers as bit patterns.
//!
//! The renderer's numbers are IEEE 754 binary64 values. This module holds one
//! as its 64-bit pattern and offers the operations on it that are exact: the
//! classification of a pattern, the order, the change of sign, the clamp and
//! the truncation to a byte. Arithmetic that rounds is not done here.
//!
//! The model of a pattern is the number it denotes, counted in units of
//! 2^-1074 (the smallest positive binary64 number), which makes it an integer.

use vstd::arithmetic::div_mod::lemma_div_multiples_vanish_quotient;
use vstd::arithmetic::mul::{
    lemma_mul_inequality, lemma_mul_is_associative, lemma_mul_strict_inequality,
};
use vstd::arithmetic::power2::{
    lemma2_to64, lemma2_to64_rest, lemma_pow2_adds, lemma_pow2_pos, lemma_pow2_strictly_increases,
    lemma_pow2_unfold, pow2,
};
use vstd::bits::lemma_u64_shr_is_div;
use vstd::prelude::*;
use vstd::std_specs::cmp::PartialEqSpecImpl;

verus! {

/// The bit that holds the sign.
pub const SIGN_MASK: u64 = 0x8000_0000_0000_0000;

/// The bits below the sign: exponent and fraction.
pub const MAGNITUDE_MASK: u64 = 0x7fff_ffff_ffff_ffff;

/// The exponent bits; as a pattern, positive infinity.
pub const EXPONENT_MASK: u64 = 0x7ff0_0000_0000_0000;

/// The fraction bits.
pub const FRACTION_MASK: u64 = 0x000f_ffff_ffff_ffff;

/// The pattern of 0.
pub const ZERO: u64 = 0;

/// The pattern of 1.
pub const ONE: u64 = 0x3ff0_0000_0000_0000;

/// The pattern of positive infinity.
pub const INFINITY: u64 = 0x7ff0_0000_0000_0000;

/// The pattern of the binary64 number nearest to pi.
pub const PI: u64 = 0x4009_21fb_5444_2d18;

/// A binary64 number, held as its bit pattern.
#[derive(Clone, Copy, Debug)]
pub struct Scalar {
    pub bits: u64,
}

impl Scalar {
    /// The number with the pattern `bits`.
    pub open spec fn of(bits: u64) -> Scalar {
        Scalar { bits }
    }

    /// The pattern without its sign bit.
    pub open spec fn code(self) -> nat {
        (self.bits % 0x8000_0000_0000_0000) as nat
    }

    /// Whether the sign bit is set.
    pub open spec fn negative(self) -> bool {
        self.bits >= 0x8000_0000_0000_0000
    }

    /// The biased exponent, 0 to 2047.
    pub open spec fn exponent(self) -> nat {
        self.code() / 0x10_0000_0000_0000
    }

    /// The 52 fraction bits.
    pub open spec fn fraction(self) -> nat {
        self.code() % 0x10_0000_0000_0000
    }

    /// Not a number: the exponent is all ones and the fraction is not zero.
    pub open spec fn nan(self) -> bool {
        self.exponent() == 2047 && self.fraction() != 0
    }

    /// An infinity: the exponent is all ones and the fraction is zero.
    pub open spec fn infinite(self) -> bool {
        self.exponent() == 2047 && self.fraction() == 0
    }

    /// The absolute value in units of 2^-1074. An infinity counts as 2^2098,
    /// which is above every finite magnitude.
    pub open spec fn magnitude(self) -> nat {
        if self.exponent() == 0 {
            self.fraction()
        } else {
            (pow2(52) + self.fraction()) * pow2((self.exponent() - 1) as nat)
        }
    }

    /// The number in units of 2^-1074. Both zeros have the value 0.
    pub open spec fn value(self) -> int {
        if self.negative() {
            -(self.magnitude() as int)
        } else {
            self.magnitude() as int
        }
    }

    /// `self < other` as IEEE 754 has it: false when either is not a number.
    pub open spec fn lt_spec(self, other: Scalar) -> bool {
        !self.nan() && !other.nan() && self.value() < other.value()
    }

    /// `self <= other` as IEEE 754 has it: false when either is not a number.
    pub open spec fn le_spec(self, other: Scalar) -> bool {
        !self.nan() && !other.nan() && self.value() <= other.value()
    }

    /// `self == other` as IEEE 754 has it: the zeros are equal, and nothing
    /// equals a pattern that is not a number.
    pub open spec fn equal_spec(self, other: Scalar) -> bool {
        !self.nan() && !other.nan() && self.value() == other.value()
    }

    /// The code with the sign in front. Two numbers are ordered as their keys
    /// are, which `lemma_order_by_key` shows.
    pub open spec fn key(self) -> int {
        if self.negative() {
            -(self.code() as int)
        } else {
            self.code() as int
        }
    }

    /// `self` held between `lo` and `hi`. A pattern that is not a number is
    /// below and above nothing, and stays.
    pub open spec fn clamp_spec(self, lo: Scalar, hi: Scalar) -> Scalar {
        if self.lt_spec(lo) {
            lo
        } else if hi.lt_spec(self) {
            hi
        } else {
            self
        }
    }

    /// 256 times the number, cut to a whole number and held in 0 to 255.
    /// What is not a number, and what has the sign bit set, gives 0.
    pub open spec fn byte_spec(self) -> int {
        if self.nan() || self.negative() {
            0
        } else if 256 * self.magnitude() / pow2(1074) >= 255 {
            255
        } else {
            (256 * self.magnitude() / pow2(1074)) as int
        }
    }

    /// The pattern with the sign bit flipped.
    pub open spec fn neg_spec(self) -> Scalar {
        Scalar {
            bits: if self.negative() {
                (self.bits - 0x8000_0000_0000_0000) as u64
            } else {
                (self.bits + 0x8000_0000_0000_0000) as u64
            },
        }
    }

    /// The pattern with the sign bit cleared.
    pub open spec fn abs_spec(self) -> Scalar {
        Scalar { bits: self.code() as u64 }
    }

    pub fn from_bits(bits: u64) -> (s: Scalar)
        ensures
            s == Scalar::of(bits),
    {
        Scalar { bits }
    }

    pub fn to_bits(self) -> (bits: u64)
        ensures
            bits == self.bits,
    {
        self.bits
    }

    /// The bits below the sign.
    fn magnitude_bits(self) -> (m: u64)
        ensures
            m == self.code(),
    {
        let b = self.bits;
        assert(b & 0x7fff_ffff_ffff_ffff == b % 0x8000_0000_0000_0000) by (bit_vector);
        b & MAGNITUDE_MASK
    }

    pub fn is_sign_negative(self) -> (r: bool)
        ensures
            r == self.negative(),
    {
        let b = self.bits;
        assert((b & 0x8000_0000_0000_0000 != 0) == (b >= 0x8000_0000_0000_0000)) by (bit_vector);
        b & SIGN_MASK != 0
    }

    pub fn is_nan(self) -> (r: bool)
        ensures
            r == self.nan(),
    {
        self.magnitude_bits() > EXPONENT_MASK
    }

    pub fn is_infinite(self) -> (r: bool)
        ensures
            r == self.infinite(),
    {
        self.magnitude_bits() == EXPONENT_MASK
    }

    pub fn is_finite(self) -> (r: bool)
        ensures
            r == (!self.nan() && !self.infinite()),
    {
        self.magnitude_bits() < EXPONENT_MASK
    }

    /// The number with the opposite sign. Exact for every pattern: only the
    /// sign bit changes.
    pub fn neg(self) -> (r: Scalar)
        ensures
            r == self.neg_spec(),
            r.nan() == self.nan(),
            r.value() == -self.value(),
    {
        let b = self.bits;
        assert(b ^ 0x8000_0000_0000_0000 == if b >= 0x8000_0000_0000_0000 {
            (b - 0x8000_0000_0000_0000) as u64
        } else {
            (b + 0x8000_0000_0000_0000) as u64
        }) by (bit_vector);
        Scalar { bits: b ^ SIGN_MASK }
    }

    /// The absolute value. Exact for every pattern: the sign bit is cleared.
    pub fn abs(self) -> (r: Scalar)
        ensures
            r == self.abs_spec(),
            r.nan() == self.nan(),
            !r.negative(),
            r.value() == self.magnitude(),
    {
        Scalar { bits: self.magnitude_bits() }
    }

    pub fn lt(self, other: Scalar) -> (r: bool)
        ensures
            r == self.lt_spec(other),
    {
        if self.is_nan() || other.is_nan() {
            return false;
        }
        let a = self.magnitude_bits();
        let b = other.magnitude_bits();
        proof {
            lemma_magnitude_order(self, other);
        }
        if self.is_sign_negative() {
            if other.is_sign_negative() {
                b < a
            } else {
                a != 0 || b != 0
            }
        } else {
            if other.is_sign_negative() {
                false
            } else {
                a < b
            }
        }
    }

    pub fn gt(self, other: Scalar) -> (r: bool)
        ensures
            r == other.lt_spec(self),
    {
        other.lt(self)
    }

    pub fn le(self, other: Scalar) -> (r: bool)
        ensures
            r == self.le_spec(other),
    {
        if self.is_nan() || other.is_nan() {
            return false;
        }
        !other.lt(self)
    }

    pub fn ge(self, other: Scalar) -> (r: bool)
        ensures
            r == other.le_spec(self),
    {
        other.le(self)
    }

    /// Equality of the numbers, not of the patterns.
    pub fn equals(self, other: Scalar) -> (r: bool)
        ensures
            r == self.equal_spec(other),
    {
        self.le(other) && other.le(self)
    }

    /// `self` held between `lo` and `hi`.
    pub fn clamp(self, lo: Scalar, hi: Scalar) -> (r: Scalar)
        requires
            lo.le_spec(hi),
        ensures
            r == self.clamp_spec(lo, hi),
    {
        if self.lt(lo) {
            lo
        } else if hi.lt(self) {
            hi
        } else {
            self
        }
    }

    /// 256 times the number as a byte: the product is exact, the cut is
    /// towards zero, and what lies outside 0 to 255 goes to the nearer end.
    pub fn byte(self) -> (r: u8)
        ensures
            r == self.byte_spec(),
    {
        if self.is_nan() || self.is_sign_negative() {
            return 0;
        }
        let c = self.magnitude_bits();
        let e = c >> 52;
        let m = (c & FRACTION_MASK) | 0x10_0000_0000_0000;
        assert(c >> 52 == c / 0x10_0000_0000_0000) by (bit_vector);
        assert((c & 0x000f_ffff_ffff_ffff) | 0x10_0000_0000_0000 == (c % 0x10_0000_0000_0000)
            + 0x10_0000_0000_0000) by (bit_vector);
        proof {
            lemma_byte_by_exponent(self);
        }
        if e < 1015 {
            0
        } else if e >= 1023 {
            255
        } else {
            let shift = 1067 - e;
            let q = m >> shift;
            proof {
                lemma_u64_shr_is_div(m, shift);
            }
            assert(q <= 255) by (bit_vector)
                requires
                    q == m >> shift,
                    m < 0x20_0000_0000_0000,
                    45 <= shift <= 52,
            ;
            q as u8
        }
    }
}

impl PartialEq for Scalar {
    /// Equality of the numbers, as `equals` has it.
    fn eq(&self, other: &Scalar) -> (r: bool) {
        self.equals(*other)
    }
}

impl PartialEqSpecImpl for Scalar {
    open spec fn obeys_eq_spec() -> bool {
        true
    }

    open spec fn eq_spec(&self, other: &Scalar) -> bool {
        self.equal_spec(*other)
    }
}

impl Default for Scalar {
    /// Zero.
    fn default() -> (r: Scalar)
        ensures
            r == Scalar::of(ZERO),
    {
        Scalar { bits: ZERO }
    }
}

/// The magnitude grows strictly with the code.
pub proof fn lemma_magnitude_increasing(a: Scalar, b: Scalar)
    requires
        a.code() < b.code(),
    ensures
        a.magnitude() < b.magnitude(),
{
    lemma2_to64_rest();
    let ea = a.exponent();
    let eb = b.exponent();
    let fa = a.fraction();
    let fb = b.fraction();
    assert(pow2(52) == 0x10_0000_0000_0000);
    if ea == eb {
        assert(fa < fb);
        if ea != 0 {
            let p = pow2((ea - 1) as nat);
            lemma_pow2_pos((ea - 1) as nat);
            lemma_mul_strict_inequality((pow2(52) + fa) as int, (pow2(52) + fb) as int, p as int);
        }
    } else {
        assert(ea < eb);
        let q = pow2((eb - 1) as nat);
        lemma_pow2_pos((eb - 1) as nat);
        // the smallest magnitude with exponent eb
        assert(pow2(52) * q <= b.magnitude()) by {
            lemma_mul_inequality(pow2(52) as int, (pow2(52) + fb) as int, q as int);
        }
        if ea == 0 {
            assert(pow2(52) * 1 <= pow2(52) * q) by {
                lemma_mul_inequality(1, q as int, pow2(52) as int);
            }
        } else {
            let p = pow2((ea - 1) as nat);
            lemma_pow2_pos((ea - 1) as nat);
            // the magnitudes with exponent ea stay below 2^53 * 2^(ea - 1)
            assert(a.magnitude() < (pow2(52) * 2) * p) by {
                lemma_mul_strict_inequality((pow2(52) + fa) as int, (pow2(52) * 2) as int, p as int);
            }
            assert((pow2(52) * 2) * p == pow2(52) * pow2(ea)) by {
                lemma_mul_is_associative(pow2(52) as int, 2, p as int);
                lemma_pow2_unfold(ea);
            }
            assert(pow2(ea) <= q) by {
                if ea < eb - 1 {
                    lemma_pow2_strictly_increases(ea, (eb - 1) as nat);
                }
            }
            assert(pow2(52) * pow2(ea) <= pow2(52) * q) by {
                lemma_mul_inequality(pow2(ea) as int, q as int, pow2(52) as int);
            }
        }
    }
}

/// The order of two magnitudes is the order of their codes.
pub proof fn lemma_magnitude_order(a: Scalar, b: Scalar)
    ensures
        a.code() < b.code() <==> a.magnitude() < b.magnitude(),
        a.code() == b.code() <==> a.magnitude() == b.magnitude(),
        a.code() == 0 <==> a.magnitude() == 0,
{
    if a.code() < b.code() {
        lemma_magnitude_increasing(a, b);
    }
    if b.code() < a.code() {
        lemma_magnitude_increasing(b, a);
    }
    let zero = Scalar::of(0);
    if zero.code() < a.code() {
        lemma_magnitude_increasing(zero, a);
    }
}

/// Two numbers are ordered as their keys are.
pub proof fn lemma_order_by_key(a: Scalar, b: Scalar)
    ensures
        a.value() < b.value() <==> a.key() < b.key(),
        a.value() == b.value() <==> a.key() == b.key(),
{
    lemma_magnitude_order(a, b);
    lemma_magnitude_order(b, a);
}

/// What `byte_spec` comes to for each range of the exponent: nothing below
/// 2^-8, everything from 1 on, and between them the leading bits of the
/// significand.
pub proof fn lemma_byte_by_exponent(s: Scalar)
    requires
        !s.nan(),
    ensures
        s.exponent() < 1015 ==> 256 * s.magnitude() / pow2(1074) == 0,
        s.exponent() >= 1023 ==> 256 * s.magnitude() / pow2(1074) >= 256,
        1015 <= s.exponent() < 1023 ==> 256 * s.magnitude() / pow2(1074) == (pow2(52)
            + s.fraction()) / pow2((1067 - s.exponent()) as nat),
        pow2(52) == 0x10_0000_0000_0000,
{
    lemma2_to64();
    lemma2_to64_rest();
    let e = s.exponent();
    let f = s.fraction();
    let unit = pow2(1074);
    lemma_pow2_pos(1074);
    if e == 0 {
        assert(256 * f < pow2(60));
        lemma_pow2_strictly_increases(60, 1074);
        assert(256 * s.magnitude() / unit == 0) by (nonlinear_arith)
            requires
                0 <= 256 * s.magnitude() < unit,
        ;
    } else {
        let m = pow2(52) + f;
        let p = pow2((e - 1) as nat);
        let scaled = pow2(e + 7);
        lemma_pow2_pos((e - 1) as nat);
        lemma_pow2_pos(e + 7);
        // 256 * 2^(e - 1) is 2^(e + 7)
        lemma_pow2_adds(8, (e - 1) as nat);
        assert(256 * s.magnitude() == scaled * m) by (nonlinear_arith)
            requires
                s.magnitude() == m * p,
                scaled == 256 * p,
        ;
        if e < 1015 {
            // below 2^53 * 2^(e + 7), which is at most 2^1074
            lemma_pow2_adds(53, e + 7);
            if e + 60 < 1074 {
                lemma_pow2_strictly_increases(e + 60, 1074);
            }
            assert(scaled * m < unit) by (nonlinear_arith)
                requires
                    0 <= m < pow2(53),
                    0 < scaled,
                    pow2(53) * scaled <= unit,
            ;
            assert(256 * s.magnitude() / unit == 0) by (nonlinear_arith)
                requires
                    0 <= 256 * s.magnitude() < unit,
            ;
        } else if e >= 1023 {
            // at least 2^52 * 2^(e + 7), which is at least 256 * 2^1074
            lemma_pow2_adds(52, e + 7);
            lemma_pow2_adds(8, 1074);
            if e + 59 > 1082 {
                lemma_pow2_strictly_increases(1082, e + 59);
            }
            assert(scaled * m >= 256 * unit) by (nonlinear_arith)
                requires
                    m >= pow2(52),
                    0 < scaled,
                    pow2(52) * scaled >= 256 * unit,
            ;
            assert(256 * s.magnitude() / unit >= 256) by (nonlinear_arith)
                requires
                    256 * s.magnitude() >= 256 * unit,
                    unit > 0,
            ;
        } else {
            let k = (1067 - e) as nat;
            lemma_pow2_adds(e + 7, k);
            lemma_pow2_pos(k);
            lemma_div_multiples_vanish_quotient(scaled as int, m as int, pow2(k) as int);
        }
    }
}

} // verus!
