//! Ratios held as IEEE 754 single-precision bit patterns.
//!
//! The value of a pattern is stated exactly, as an integer multiple of
//! 2^-149, the spacing of the smallest subnormal numbers.

use vstd::arithmetic::power2::{lemma2_to64, lemma_pow2_adds, lemma_pow2_pos, lemma_pow2_strictly_increases, pow2};
use vstd::prelude::*;

verus! {

/// A single-precision number, held by its IEEE 754 bit pattern: one sign bit,
/// eight exponent bits and 23 fraction bits.
#[derive(Debug, Clone, Copy)]
pub struct Ratio {
    pub bits: u32,
}

impl Ratio {
    /// The sign bit: 1 for a negative number.
    pub open spec fn sign(self) -> int {
        self.bits as int / 0x8000_0000
    }

    /// The biased exponent field.
    pub open spec fn exponent(self) -> int {
        self.bits as int / 0x80_0000 % 0x100
    }

    /// The fraction field.
    pub open spec fn fraction(self) -> int {
        self.bits as int % 0x80_0000
    }

    /// Not a number: the exponent field is all ones and the fraction is not zero.
    pub open spec fn is_nan(self) -> bool {
        self.exponent() == 0xff && self.fraction() != 0
    }

    /// The magnitude in units of 2^-149. Subnormal numbers are their fraction;
    /// normal numbers carry the implicit leading bit. An infinity comes out
    /// above every finite magnitude.
    pub open spec fn scaled_magnitude(self) -> int {
        if self.exponent() == 0 {
            self.fraction()
        } else {
            (0x80_0000 + self.fraction()) * pow2((self.exponent() - 1) as nat)
        }
    }

    /// The value in units of 2^-149. Both zeros have the value zero.
    pub open spec fn scaled_value(self) -> int {
        if self.sign() == 1 {
            -self.scaled_magnitude()
        } else {
            self.scaled_magnitude()
        }
    }

    /// The number lies between zero and one, bounds included. One is 2^149 units.
    pub open spec fn in_unit_interval(self) -> bool {
        !self.is_nan() && 0 <= self.scaled_value() <= pow2(149)
    }

    /// The number with the given bit pattern.
    pub fn from_bits(bits: u32) -> (ratio: Self)
        ensures
            ratio.bits == bits,
    {
        Ratio { bits }
    }

    /// The bit pattern of the number.
    pub fn to_bits(self) -> (bits: u32)
        ensures
            bits == self.bits,
    {
        self.bits
    }

    /// Whether the number lies between zero and one, bounds included.
    pub fn is_in_unit_interval(&self) -> (inside: bool)
        ensures
            inside == self.in_unit_interval(),
    {
        proof {
            lemma_unit_interval_patterns(*self);
        }
        self.bits <= 0x3F80_0000 || self.bits == 0x8000_0000
    }
}

/// The numbers from zero to one are the patterns up to that of one, and
/// negative zero.
pub proof fn lemma_unit_interval_patterns(ratio: Ratio)
    ensures
        ratio.in_unit_interval() <==> (ratio.bits <= 0x3F80_0000 || ratio.bits == 0x8000_0000),
{
    let e = ratio.exponent();
    lemma2_to64();
    lemma_pow2_strictly_increases(23, 149);
    if e > 0 {
        // A normal number or an infinity: 2^(e+22) <= magnitude < 2^(e+23),
        // to be held against one, which is 2^149.
        let k = (e - 1) as nat;
        lemma_normal_magnitude(ratio.fraction(), k);
        lemma_pow2_pos(k + 23);
        if k + 24 < 149 {
            lemma_pow2_strictly_increases(k + 24, 149);
        }
        if k + 23 > 149 {
            lemma_pow2_strictly_increases(149, k + 23);
        }
    }
}

/// A normal magnitude with fraction `f` and `k` doublings lies from 2^(k+23)
/// up to, but not at, 2^(k+24), and sits at the lower bound only for `f == 0`.
proof fn lemma_normal_magnitude(f: int, k: nat)
    requires
        0 <= f < 0x80_0000,
    ensures
        pow2(k + 23) <= (0x80_0000 + f) * pow2(k) < pow2(k + 24),
        f > 0 ==> pow2(k + 23) < (0x80_0000 + f) * pow2(k),
        f == 0 ==> pow2(k + 23) == (0x80_0000 + f) * pow2(k),
{
    lemma2_to64();
    lemma_pow2_adds(23, k);
    lemma_pow2_adds(24, k);
    lemma_pow2_pos(k);
    let p = pow2(k) as int;
    assert(0x80_0000 * p <= (0x80_0000 + f) * p < 0x100_0000 * p) by (nonlinear_arith)
        requires
            0 <= f < 0x80_0000,
            p > 0,
    ;
    assert(f > 0 ==> 0x80_0000 * p < (0x80_0000 + f) * p) by (nonlinear_arith)
        requires
            p > 0,
    ;
}

/// The bounds are inside: the pattern `0` is zero, and `0x3F80_0000` is one.
pub proof fn lemma_unit_interval_bounds()
    ensures
        (Ratio { bits: 0 }).scaled_value() == 0,
        (Ratio { bits: 0x3F80_0000 }).scaled_value() == pow2(149),
        (Ratio { bits: 0 }).in_unit_interval(),
        (Ratio { bits: 0x3F80_0000 }).in_unit_interval(),
{
    let one = Ratio { bits: 0x3F80_0000 };
    lemma_normal_magnitude(0, 126);
    lemma_unit_interval_patterns(Ratio { bits: 0 });
    lemma_unit_interval_patterns(one);
}

/// The pattern `0x3F40_0000` is three quarters.
pub proof fn lemma_three_quarters()
    ensures
        4 * (Ratio { bits: 0x3F40_0000 }).scaled_value() == 3 * pow2(149),
        (Ratio { bits: 0x3F40_0000 }).in_unit_interval(),
{
    let r = Ratio { bits: 0x3F40_0000 };
    lemma2_to64();
    lemma_pow2_adds(24, 125);
    lemma_unit_interval_patterns(r);
    let p = pow2(125) as int;
    assert(4 * (0xc0_0000 * p) == 3 * (0x100_0000 * p)) by (nonlinear_arith);
}

} // verus!
