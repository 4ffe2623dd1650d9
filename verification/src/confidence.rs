//! Confidence scores as exact numbers.

use vstd::prelude::*;

verus! {

/// A confidence score between zero and one: a ceiling in tenths, times the
/// share `num / den` of that ceiling that the evidence earned.
///
/// A method whose evidence is weak has a low ceiling. The score of a method
/// with ceiling 0.7 that earned 9/50 of it is `Confidence { tenths: 7, num: 9,
/// den: 50 }`, the number 63/500.
///
/// Two scores are `==` when the three fields agree; `exceeds` compares the
/// numbers themselves.
#[derive(Debug, Clone, Copy, PartialEq, Eq, Structural)]
pub struct Confidence {
    pub tenths: u8,
    pub num: u64,
    pub den: u64,
}

impl Confidence {
    /// The ceiling is at most one, and the share is a fraction of at most one.
    pub open spec fn wf(self) -> bool {
        self.tenths <= 10 && 0 < self.den && self.num <= self.den
    }

    /// `self` is strictly greater than `other`, as numbers.
    pub open spec fn spec_exceeds(self, other: Confidence) -> bool {
        self.tenths * (self.num * other.den) > other.tenths * (other.num * self.den)
    }

    /// The score in thousandths, rounded down.
    pub open spec fn spec_per_mille(self) -> int {
        (self.tenths * self.num * 100) / (self.den as int)
    }

    /// The score `tenths / 10 * num / den`.
    pub fn new(tenths: u8, num: u64, den: u64) -> (c: Confidence)
        requires
            tenths <= 10,
            0 < den,
            num <= den,
        ensures
            c == (Confidence { tenths, num, den }),
            c.wf(),
    {
        Confidence { tenths, num, den }
    }

    /// Whether `self` is strictly greater than `other`, as numbers.
    pub fn exceeds(&self, other: &Confidence) -> (b: bool)
        ensures
            b == self.spec_exceeds(*other),
    {
        let (left_hi, left_lo) = weighted(self.tenths, wide_product(self.num, other.den));
        let (right_hi, right_lo) = weighted(other.tenths, wide_product(other.num, self.den));
        left_hi > right_hi || (left_hi == right_hi && left_lo > right_lo)
    }

    /// The score in thousandths, rounded down: 126 for 0.7 * 9/50.
    pub fn per_mille(&self) -> (p: u32)
        requires
            self.wf(),
        ensures
            p == self.spec_per_mille(),
            p <= 1000,
    {
        let hundreds: u64 = (self.tenths as u64) * 100;
        let scaled: u128 = wide_product(self.num, hundreds);
        let den: u128 = self.den as u128;
        let q: u128 = scaled / den;
        proof {
            assert(self.tenths * self.num * 100 == self.num * (self.tenths * 100))
                by (nonlinear_arith);
            assert(self.num * (self.tenths * 100) <= self.den * 1000) by (nonlinear_arith)
                requires
                    self.num <= self.den,
                    self.tenths <= 10,
            ;
            assert(q <= 1000) by (nonlinear_arith)
                requires
                    q == scaled / den,
                    scaled <= den * 1000,
                    0 < den,
            ;
        }
        q as u32
    }
}

/// The product of two 64-bit numbers, which always fits in 128 bits.
pub fn wide_product(a: u64, b: u64) -> (p: u128)
    ensures
        p == a * b,
{
    proof {
        assert(a * b <= 0xFFFF_FFFF_FFFF_FFFF * 0xFFFF_FFFF_FFFF_FFFF) by (nonlinear_arith)
            requires
                0 <= a <= 0xFFFF_FFFF_FFFF_FFFF,
                0 <= b <= 0xFFFF_FFFF_FFFF_FFFF,
        ;
    }
    (a as u128) * (b as u128)
}

/// `w * x` in two words: `hi * 2^64 + lo`, with `lo` below `2^64`.
///
/// The product may need more than 128 bits, so it is never formed.
fn weighted(w: u8, x: u128) -> (r: (u128, u128))
    ensures
        w * x == r.0 * 0x1_0000_0000_0000_0000 + r.1,
        r.1 < 0x1_0000_0000_0000_0000,
{
    let word: u128 = 0x1_0000_0000_0000_0000;
    let x_hi: u128 = x / word;
    let x_lo: u128 = x % word;
    let wide: u128 = w as u128;
    proof {
        assert(wide * x_hi <= 255 * 0xFFFF_FFFF_FFFF_FFFF) by (nonlinear_arith)
            requires
                wide <= 255,
                x_hi <= 0xFFFF_FFFF_FFFF_FFFF,
        ;
        assert(wide * x_lo <= 255 * 0xFFFF_FFFF_FFFF_FFFF) by (nonlinear_arith)
            requires
                wide <= 255,
                x_lo <= 0xFFFF_FFFF_FFFF_FFFF,
        ;
    }
    let top: u128 = wide * x_hi;
    let low: u128 = wide * x_lo;
    let hi: u128 = top + low / word;
    let lo: u128 = low % word;
    proof {
        assert(w * x == top * 0x1_0000_0000_0000_0000 + low) by (nonlinear_arith)
            requires
                x == x_hi * 0x1_0000_0000_0000_0000 + x_lo,
                top == w * x_hi,
                low == w * x_lo,
        ;
    }
    (hi, lo)
}

} // verus!
