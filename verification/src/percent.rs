//! Percentages as the host reports them: floating-point numbers, held by their bits.
//!
//! A percentage is only ever compared, so it is enough to hold the 64 bits of its IEEE 754
//! double and to order those. The order is proved to be that of the numbers.

use vstd::arithmetic::power2::*;
use vstd::prelude::*;

verus! {

/// The bit that tells a negative number.
pub const SIGN_BIT: u64 = 0x8000_0000_0000_0000;

/// The bits of infinity. What lies above, without the sign, is not a number.
pub const INFINITY_BITS: u64 = 0x7ff0_0000_0000_0000;

/// Two to the power of the number of fraction bits.
pub const FRACTION_SIZE: u64 = 0x10_0000_0000_0000;

/// The bits of the number 100.
pub const HUNDRED_BITS: u64 = 0x4059_0000_0000_0000;

/// A percentage: the number whose IEEE 754 double has these bits.
#[derive(Debug, Clone, Copy, PartialEq, Eq)]
pub struct Percent {
    pub bits: u64,
}

/// The distance from zero of the number with these bits, sign aside, in units of two to the
/// power -1074, of which every double is a multiple. Infinity counts as the first power of two
/// that is too large for a double.
pub open spec fn distance(magnitude: nat) -> nat {
    let exponent = magnitude / (FRACTION_SIZE as nat);
    let fraction = magnitude % (FRACTION_SIZE as nat);
    if exponent == 0 {
        fraction
    } else {
        (FRACTION_SIZE as nat + fraction) * pow2((exponent - 1) as nat)
    }
}

impl Percent {
    /// The bits without the sign.
    pub open spec fn magnitude(self) -> u64 {
        if self.bits >= SIGN_BIT {
            (self.bits - SIGN_BIT) as u64
        } else {
            self.bits
        }
    }

    /// Whether the bits stand for no number at all.
    pub open spec fn nan(self) -> bool {
        self.magnitude() > INFINITY_BITS
    }

    /// The number, in units of two to the power -1074.
    pub open spec fn units(self) -> int {
        if self.bits >= SIGN_BIT {
            -distance(self.magnitude() as nat)
        } else {
            distance(self.magnitude() as nat) as int
        }
    }

    /// Gives the bits without the sign.
    fn strip_sign(self) -> (magnitude: u64)
        ensures
            magnitude == self.magnitude(),
    {
        if self.bits >= SIGN_BIT {
            self.bits - SIGN_BIT
        } else {
            self.bits
        }
    }

    /// Tells whether this is no number.
    pub fn is_nan(self) -> (yes: bool)
        ensures
            yes == self.nan(),
    {
        self.strip_sign() > INFINITY_BITS
    }

    /// Tells whether this number is `other` or above, which nothing is that is not a number.
    pub fn at_least(self, other: Percent) -> (yes: bool)
        ensures
            yes == (!self.nan() && !other.nan() && self.units() >= other.units()),
    {
        if self.is_nan() || other.is_nan() {
            return false;
        }
        let mine = self.strip_sign();
        let theirs = other.strip_sign();
        proof {
            lemma_distance_order(mine as nat, theirs as nat);
            lemma_distance_zero(mine as nat);
            lemma_distance_zero(theirs as nat);
        }
        if self.bits < SIGN_BIT {
            if other.bits < SIGN_BIT {
                mine >= theirs
            } else {
                true
            }
        } else if other.bits < SIGN_BIT {
            mine == 0 && theirs == 0
        } else {
            mine <= theirs
        }
    }

    /// Tells whether this number is above `other`, which nothing is that is not a number.
    pub fn above(self, other: Percent) -> (yes: bool)
        ensures
            yes == (!self.nan() && !other.nan() && self.units() > other.units()),
    {
        !self.is_nan() && !other.is_nan() && !other.at_least(self)
    }

    /// Tells whether this is neither below 0 nor above 100.
    pub fn is_in_range(self) -> (yes: bool)
        ensures
            yes == self.in_range(),
    {
        let zero = Percent { bits: 0 };
        let hundred = Percent { bits: HUNDRED_BITS };
        proof {
            lemma_distance_zero(0);
            lemma_hundred();
        }
        !zero.above(self) && !self.above(hundred)
    }

    /// Whether this is neither below 0 nor above 100.
    pub open spec fn in_range(self) -> bool {
        self.nan() || 0 <= self.units() <= 100 * pow2(1074)
    }
}

/// A larger magnitude is farther from zero.
pub proof fn lemma_distance_grows(x: nat, y: nat)
    requires
        x < y,
    ensures
        distance(x) < distance(y),
{
    let size = FRACTION_SIZE as nat;
    let ex = x / size;
    let fx = x % size;
    let ey = y / size;
    let fy = y % size;
    assert(x == ex * size + fx && y == ey * size + fy && fx < size && fy < size) by (nonlinear_arith)
        requires
            size > 0,
            ex == x / size,
            fx == x % size,
            ey == y / size,
            fy == y % size,
    ;
    assert(ex <= ey) by (nonlinear_arith)
        requires
            x < y,
            x == ex * size + fx,
            y == ey * size + fy,
            fx < size,
            fy < size,
    ;
    lemma_pow2_pos((ey - 1) as nat);
    if ex == ey {
        if ex != 0 {
            let p = pow2((ex - 1) as nat);
            assert((size + fx) * p < (size + fy) * p) by (nonlinear_arith)
                requires
                    fx < fy,
                    p > 0,
            ;
        }
    } else {
        let q = pow2((ey - 1) as nat);
        assert(size * q <= (size + fy) * q) by (nonlinear_arith)
            requires
                fy >= 0,
                q > 0,
        ;
        if ex == 0 {
            assert(size <= size * q) by (nonlinear_arith)
                requires
                    q > 0,
            ;
        } else {
            let p = pow2((ex - 1) as nat);
            lemma_pow2_pos((ex - 1) as nat);
            lemma_pow2_unfold(ex);
            assert((size + fx) * p < size * (2 * p)) by (nonlinear_arith)
                requires
                    fx < size,
                    p > 0,
            ;
            if ex < ey - 1 {
                lemma_pow2_strictly_increases(ex, (ey - 1) as nat);
            }
            assert(size * (2 * p) <= size * q) by (nonlinear_arith)
                requires
                    2 * p <= q,
            ;
        }
    }
}

/// Magnitudes are ordered as the distances from zero are.
proof fn lemma_distance_order(x: nat, y: nat)
    ensures
        x < y <==> distance(x) < distance(y),
        x == y <==> distance(x) == distance(y),
{
    if x < y {
        lemma_distance_grows(x, y);
    }
    if y < x {
        lemma_distance_grows(y, x);
    }
}

/// Only magnitude zero is at zero.
proof fn lemma_distance_zero(x: nat)
    ensures
        distance(x) == 0 <==> x == 0,
{
    assert(distance(0) == 0);
    lemma_distance_order(0, x);
}

/// The constant for 100 stands for 100.
proof fn lemma_hundred()
    ensures
        distance(HUNDRED_BITS as nat) == 100 * pow2(1074),
{
    let size = FRACTION_SIZE as nat;
    assert(HUNDRED_BITS as nat / size == 1029);
    assert(size + HUNDRED_BITS as nat % size == 100 * 0x4000_0000_0000);
    lemma2_to64();
    lemma_pow2_adds(46, 1028);
    assert(pow2(46) == 0x4000_0000_0000) by {
        lemma2_to64_rest();
    }
    let q = pow2(1028);
    assert((100 * 0x4000_0000_0000) * q == 100 * (0x4000_0000_0000 * q)) by (nonlinear_arith);
}

} // verus!
