//! Scalars as single-precision bit patterns, with the order that IEEE-754
//! gives them.

use vstd::prelude::*;

verus! {

/// A scalar of the scene: the bit pattern of an IEEE-754 single-precision
/// number. Every pattern is a value; the not-a-number patterns compare with
/// nothing.
#[derive(Clone, Copy, Debug)]
pub struct Real {
    pub bits: u32,
}

/// The pattern of the sign bit.
pub const SIGN_BIT: u32 = 0x8000_0000;

/// The pattern of positive infinity; every larger magnitude is not a number.
pub const INFINITY_BITS: u32 = 0x7f80_0000;

/// Offset that moves the not-a-number patterns beyond every number.
pub const NAN_SHIFT: i64 = 0x2_0000_0000;

impl Real {
    /// The pattern without its sign bit.
    pub open spec fn magnitude(self) -> int {
        if self.bits >= SIGN_BIT {
            self.bits - SIGN_BIT
        } else {
            self.bits as int
        }
    }

    /// Whether the sign bit is set.
    pub open spec fn negative(self) -> bool {
        self.bits >= SIGN_BIT
    }

    /// Whether the pattern is not a number.
    pub open spec fn nan(self) -> bool {
        self.magnitude() > INFINITY_BITS
    }

    /// The place of a number on the number line: both zeros share place 0,
    /// and a larger number has a larger place.
    pub open spec fn ord(self) -> int {
        if self.negative() {
            -self.magnitude()
        } else {
            self.magnitude()
        }
    }

    /// A place for every pattern, no two alike: as `ord`, but with the
    /// negative zero just below the positive one.
    pub open spec fn key(self) -> int {
        if self.negative() {
            -self.magnitude() - 1
        } else {
            self.magnitude()
        }
    }

    /// The key by which minima are taken and boxes are sorted: numbers by
    /// `key`, and every not-a-number after all of them.
    pub open spec fn min_key(self) -> int {
        if self.nan() {
            self.key() + NAN_SHIFT
        } else {
            self.key()
        }
    }

    /// The key by which maxima are taken: numbers by `key`, and every
    /// not-a-number before all of them.
    pub open spec fn max_key(self) -> int {
        if self.nan() {
            self.key() - NAN_SHIFT
        } else {
            self.key()
        }
    }

    /// `self < other` as IEEE-754 orders numbers.
    pub open spec fn spec_lt(self, other: Real) -> bool {
        !self.nan() && !other.nan() && self.ord() < other.ord()
    }

    /// `self <= other` as IEEE-754 orders numbers.
    pub open spec fn spec_le(self, other: Real) -> bool {
        !self.nan() && !other.nan() && self.ord() <= other.ord()
    }

    /// The smaller of two scalars; a not-a-number gives way to a number.
    pub open spec fn spec_min(self, other: Real) -> Real {
        if other.min_key() < self.min_key() {
            other
        } else {
            self
        }
    }

    /// The larger of two scalars; a not-a-number gives way to a number.
    pub open spec fn spec_max(self, other: Real) -> Real {
        if other.max_key() > self.max_key() {
            other
        } else {
            self
        }
    }

    /// The scalar with its sign bit flipped.
    pub open spec fn spec_neg(self) -> Real {
        if self.bits >= SIGN_BIT {
            Real { bits: (self.bits - SIGN_BIT) as u32 }
        } else {
            Real { bits: (self.bits + SIGN_BIT) as u32 }
        }
    }

    /// The scalar with its sign bit cleared.
    pub open spec fn spec_abs(self) -> Real {
        Real { bits: self.magnitude() as u32 }
    }

    /// The scalar with the given bit pattern.
    pub fn from_bits(bits: u32) -> (r: Real)
        ensures
            r.bits == bits,
    {
        Real { bits }
    }

    /// The bit pattern of the scalar.
    pub fn to_bits(&self) -> (bits: u32)
        ensures
            bits == self.bits,
    {
        self.bits
    }

    /// Zero, with the sign bit clear.
    pub fn zero() -> (r: Real)
        ensures
            r.bits == 0,
    {
        Real { bits: 0 }
    }

    /// One.
    pub fn one() -> (r: Real)
        ensures
            r.bits == 0x3f80_0000,
    {
        Real { bits: 0x3f80_0000 }
    }

    /// Positive infinity.
    pub fn infinity() -> (r: Real)
        ensures
            r.bits == INFINITY_BITS,
    {
        Real { bits: INFINITY_BITS }
    }

    fn exec_magnitude(&self) -> (m: u32)
        ensures
            m == self.magnitude(),
    {
        if self.bits >= SIGN_BIT {
            self.bits - SIGN_BIT
        } else {
            self.bits
        }
    }

    /// Whether the scalar is not a number.
    pub fn is_nan(&self) -> (r: bool)
        ensures
            r == self.nan(),
    {
        self.exec_magnitude() > INFINITY_BITS
    }

    /// Whether the sign bit is set.
    pub fn is_sign_negative(&self) -> (r: bool)
        ensures
            r == self.negative(),
    {
        self.bits >= SIGN_BIT
    }

    fn exec_ord(&self) -> (k: i64)
        ensures
            k == self.ord(),
    {
        let m: i64 = self.exec_magnitude() as i64;
        if self.bits >= SIGN_BIT {
            -m
        } else {
            m
        }
    }

    fn exec_key(&self) -> (k: i64)
        ensures
            k == self.key(),
    {
        let m: i64 = self.exec_magnitude() as i64;
        if self.bits >= SIGN_BIT {
            -m - 1
        } else {
            m
        }
    }

    /// The key by which minima are taken and boxes are sorted.
    pub fn sort_key(&self) -> (k: i64)
        ensures
            k == self.min_key(),
    {
        if self.is_nan() {
            self.exec_key() + NAN_SHIFT
        } else {
            self.exec_key()
        }
    }

    fn exec_max_key(&self) -> (k: i64)
        ensures
            k == self.max_key(),
    {
        if self.is_nan() {
            self.exec_key() - NAN_SHIFT
        } else {
            self.exec_key()
        }
    }

    /// `self < other`; false when either is not a number.
    #[verifier::when_used_as_spec(spec_lt)]
    pub fn lt(self, other: Real) -> (r: bool)
        ensures
            r == self.spec_lt(other),
    {
        !self.is_nan() && !other.is_nan() && self.exec_ord() < other.exec_ord()
    }

    /// `self <= other`; false when either is not a number.
    #[verifier::when_used_as_spec(spec_le)]
    pub fn le(self, other: Real) -> (r: bool)
        ensures
            r == self.spec_le(other),
    {
        !self.is_nan() && !other.is_nan() && self.exec_ord() <= other.exec_ord()
    }

    /// `self > other`; false when either is not a number.
    pub fn gt(self, other: Real) -> (r: bool)
        ensures
            r == other.spec_lt(self),
    {
        other.lt(self)
    }

    /// `self >= other`; false when either is not a number.
    pub fn ge(self, other: Real) -> (r: bool)
        ensures
            r == other.spec_le(self),
    {
        other.le(self)
    }

    /// The smaller of the two; a not-a-number gives way to a number, and
    /// the negative zero counts as smaller than the positive one.
    #[verifier::when_used_as_spec(spec_min)]
    pub fn min(self, other: Real) -> (r: Real)
        ensures
            r == self.spec_min(other),
    {
        if other.sort_key() < self.sort_key() {
            other
        } else {
            self
        }
    }

    /// The larger of the two; a not-a-number gives way to a number, and
    /// the positive zero counts as larger than the negative one.
    #[verifier::when_used_as_spec(spec_max)]
    pub fn max(self, other: Real) -> (r: Real)
        ensures
            r == self.spec_max(other),
    {
        if other.exec_max_key() > self.exec_max_key() {
            other
        } else {
            self
        }
    }

    /// The scalar with its sign flipped.
    #[verifier::when_used_as_spec(spec_neg)]
    pub fn neg(self) -> (r: Real)
        ensures
            r == self.spec_neg(),
    {
        if self.bits >= SIGN_BIT {
            Real { bits: self.bits - SIGN_BIT }
        } else {
            Real { bits: self.bits + SIGN_BIT }
        }
    }

    /// The scalar with its sign cleared.
    #[verifier::when_used_as_spec(spec_abs)]
    pub fn abs(self) -> (r: Real)
        ensures
            r == self.spec_abs(),
    {
        Real { bits: self.exec_magnitude() }
    }
}

/// Among numbers, a smaller sort key never means a larger number, and the
/// minimum and maximum are the bounds that `<=` asks of them.
pub proof fn lemma_min_max_bounds(a: Real, b: Real)
    requires
        !a.nan(),
        !b.nan(),
    ensures
        a.min_key() <= b.min_key() ==> a.spec_le(b),
        a.spec_min(b).spec_le(a),
        a.spec_min(b).spec_le(b),
        a.spec_le(a.spec_max(b)),
        b.spec_le(a.spec_max(b)),
        !a.spec_min(b).nan(),
        !a.spec_max(b).nan(),
{
}

/// Minimum and maximum do not depend on the order of their arguments, nor on
/// how three of them are grouped.
pub proof fn lemma_min_max_algebra(a: Real, b: Real, c: Real)
    ensures
        a.spec_min(b) == b.spec_min(a),
        a.spec_max(b) == b.spec_max(a),
        a.spec_min(b).spec_min(c) == a.spec_min(b.spec_min(c)),
        a.spec_max(b).spec_max(c) == a.spec_max(b.spec_max(c)),
        a.spec_min(a) == a,
        a.spec_max(a) == a,
{
    lemma_key_injective(a, b);
    lemma_key_injective(a, c);
    lemma_key_injective(b, c);
}

/// Two scalars with the same key are the same pattern.
pub proof fn lemma_key_injective(a: Real, b: Real)
    ensures
        a.key() == b.key() ==> a == b,
        a.min_key() == b.min_key() ==> a == b,
        a.max_key() == b.max_key() ==> a == b,
{
}

} // verus!
