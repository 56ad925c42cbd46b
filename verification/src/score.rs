//! Similarity scores as exact fractions, and thresholds in millionths.

use vstd::prelude::*;

verus! {

/// Number of threshold units that make up the value one.
pub const THRESHOLD_ONE: u32 = 1_000_000;

/// The amount by which adaptive thresholding moves a threshold: one tenth.
pub const THRESHOLD_STEP: u32 = 100_000;

/// A similarity score: the fraction `num / den`, which lies between zero and
/// one.
#[derive(Debug, Clone, Copy, PartialEq, Eq, Structural)]
pub struct Score {
    pub num: u64,
    pub den: u64,
}

impl Score {
    /// A score is a proper fraction: its denominator is positive and its
    /// numerator does not exceed it.
    pub open spec fn wf(&self) -> bool {
        0 < self.den && self.num <= self.den
    }

    /// `self` as a fraction is at least `other`.
    pub open spec fn ge(&self, other: Score) -> bool {
        self.num * other.den >= other.num * self.den
    }

    /// `self` as a fraction is strictly greater than `other`.
    pub open spec fn gt(&self, other: Score) -> bool {
        self.num * other.den > other.num * self.den
    }

    /// The score reaches a threshold given in millionths.
    pub open spec fn reaches(&self, threshold: u32) -> bool {
        self.num * THRESHOLD_ONE >= threshold * self.den
    }

    /// The score zero.
    pub open spec fn spec_zero() -> Score {
        Score { num: 0, den: 1 }
    }

    /// The score one.
    pub open spec fn spec_one() -> Score {
        Score { num: 1, den: 1 }
    }

    /// The fraction `num / den`.
    pub open spec fn spec_ratio(num: nat, den: nat) -> Score {
        Score { num: num as u64, den: den as u64 }
    }

    /// The score that a number of millionths stands for; values above one
    /// million count as one.
    pub open spec fn spec_from_millionths(millionths: u32) -> Score {
        Score {
            num: if millionths > THRESHOLD_ONE {
                THRESHOLD_ONE as u64
            } else {
                millionths as u64
            },
            den: THRESHOLD_ONE as u64,
        }
    }

    /// The score zero.
    pub fn zero() -> (s: Score)
        ensures
            s == Score::spec_zero(),
            s.wf(),
    {
        Score { num: 0, den: 1 }
    }

    /// The score one.
    pub fn one() -> (s: Score)
        ensures
            s == Score::spec_one(),
            s.wf(),
    {
        Score { num: 1, den: 1 }
    }

    /// One if `hit`, zero otherwise.
    pub fn indicator(hit: bool) -> (s: Score)
        ensures
            s == (if hit {
                Score::spec_one()
            } else {
                Score::spec_zero()
            }),
            s.wf(),
    {
        if hit {
            Score::one()
        } else {
            Score::zero()
        }
    }

    /// The fraction `num / den`, for `num` at most `den`.
    pub fn ratio(num: usize, den: usize) -> (s: Score)
        requires
            0 < den,
            num <= den,
        ensures
            s == Score::spec_ratio(num as nat, den as nat),
            s.num == num,
            s.den == den,
            s.wf(),
    {
        Score { num: num as u64, den: den as u64 }
    }

    /// The score that a number of millionths stands for.
    pub fn from_millionths(millionths: u32) -> (s: Score)
        ensures
            s == Score::spec_from_millionths(millionths),
            s.wf(),
    {
        if millionths > THRESHOLD_ONE {
            Score { num: THRESHOLD_ONE as u64, den: THRESHOLD_ONE as u64 }
        } else {
            Score { num: millionths as u64, den: THRESHOLD_ONE as u64 }
        }
    }

    /// The numerator of the fraction.
    pub fn numerator(&self) -> (n: u64)
        ensures
            n == self.num,
    {
        self.num
    }

    /// The denominator of the fraction.
    pub fn denominator(&self) -> (d: u64)
        ensures
            d == self.den,
    {
        self.den
    }

    /// Compares the score with a threshold in millionths.
    pub fn meets(&self, threshold: u32) -> (b: bool)
        ensures
            b == self.reaches(threshold),
    {
        let lhs: u128 = wide_product(self.num, THRESHOLD_ONE as u64);
        let rhs: u128 = wide_product(threshold as u64, self.den);
        lhs >= rhs
    }

    /// Whether `self` is strictly greater than `other` as a fraction.
    pub fn exceeds(&self, other: &Score) -> (b: bool)
        ensures
            b == self.gt(*other),
    {
        let lhs: u128 = wide_product(self.num, other.den);
        let rhs: u128 = wide_product(other.num, self.den);
        lhs > rhs
    }

    /// Whether the score is one.
    pub fn is_one(&self) -> (b: bool)
        ensures
            b == (self.num == self.den),
    {
        self.num == self.den
    }
}

/// The product of two 64-bit numbers, which always fits in 128 bits.
fn wide_product(a: u64, b: u64) -> (p: u128)
    ensures
        p == a * b,
{
    assert(a * b <= 0xffff_ffff_ffff_ffff * 0xffff_ffff_ffff_ffff) by (nonlinear_arith)
        requires
            a <= 0xffff_ffff_ffff_ffff,
            b <= 0xffff_ffff_ffff_ffff,
    ;
    (a as u128) * (b as u128)
}

/// The threshold that a pair of texts is held to. With adaptive thresholding
/// a pair whose mean byte length is under 50 must reach a tenth more, never
/// more than one, and a pair whose mean byte length is over 200 a tenth less,
/// never less than zero.
pub open spec fn effective_threshold(
    threshold: u32,
    adaptive: bool,
    len_a: nat,
    len_b: nat,
) -> u32 {
    if !adaptive {
        threshold
    } else if len_a + len_b < 100 {
        if threshold + THRESHOLD_STEP > THRESHOLD_ONE {
            THRESHOLD_ONE
        } else {
            (threshold + THRESHOLD_STEP) as u32
        }
    } else if len_a + len_b > 400 {
        if threshold < THRESHOLD_STEP {
            0
        } else {
            (threshold - THRESHOLD_STEP) as u32
        }
    } else {
        threshold
    }
}

/// Computes the threshold that a pair of texts is held to.
pub fn adapt_threshold(threshold: u32, adaptive: bool, len_a: usize, len_b: usize) -> (t: u32)
    ensures
        t == effective_threshold(threshold, adaptive, len_a as nat, len_b as nat),
        threshold <= THRESHOLD_ONE ==> t <= THRESHOLD_ONE,
{
    if !adaptive {
        return threshold;
    }
    let total: u128 = len_a as u128 + len_b as u128;
    if total < 100 {
        if threshold > THRESHOLD_ONE - THRESHOLD_STEP {
            THRESHOLD_ONE
        } else {
            threshold + THRESHOLD_STEP
        }
    } else if total > 400 {
        if threshold < THRESHOLD_STEP {
            0
        } else {
            threshold - THRESHOLD_STEP
        }
    } else {
        threshold
    }
}

} // verus!
