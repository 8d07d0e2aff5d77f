//! Triples of scalars: positions, directions and colours.

use vstd::prelude::*;
use crate::scalar::Real;

verus! {

/// The bit pattern of the threshold under which a component counts as zero
/// (ten to the minus eight).
pub const NEAR_ZERO_BITS: u32 = 0x322b_cc77;

/// A position, a direction or a colour.
#[derive(Clone, Copy, Debug)]
pub struct Vec3 {
    pub x: Real,
    pub y: Real,
    pub z: Real,
}

impl Vec3 {
    /// The component on an axis: 0 is x, 1 is y, anything else is z.
    pub open spec fn axis(self, a: int) -> Real {
        if a == 0 {
            self.x
        } else if a == 1 {
            self.y
        } else {
            self.z
        }
    }

    /// Whether no component is a not-a-number.
    pub open spec fn is_numeric(self) -> bool {
        !self.x.nan() && !self.y.nan() && !self.z.nan()
    }

    /// The vector with every component negated.
    pub open spec fn spec_neg(self) -> Vec3 {
        Vec3 { x: self.x.spec_neg(), y: self.y.spec_neg(), z: self.z.spec_neg() }
    }

    /// Whether every component is smaller in magnitude than the threshold.
    pub open spec fn spec_near_zero(self) -> bool {
        let s = Real { bits: NEAR_ZERO_BITS };
        self.x.spec_abs().spec_lt(s) && self.y.spec_abs().spec_lt(s) && self.z.spec_abs().spec_lt(s)
    }

    pub fn new(x: Real, y: Real, z: Real) -> (v: Vec3)
        ensures
            v == (Vec3 { x, y, z }),
    {
        Vec3 { x, y, z }
    }

    /// The vector whose three components are all `value`.
    pub fn from_element(value: Real) -> (v: Vec3)
        ensures
            v == (Vec3 { x: value, y: value, z: value }),
    {
        Vec3 { x: value, y: value, z: value }
    }

    /// The component on `axis`.
    pub fn get(&self, axis: u8) -> (c: Real)
        requires
            axis < 3,
        ensures
            c == self.axis(axis as int),
    {
        if axis == 0 {
            self.x
        } else if axis == 1 {
            self.y
        } else {
            self.z
        }
    }

    /// The opposite vector.
    #[verifier::when_used_as_spec(spec_neg)]
    pub fn neg(self) -> (v: Vec3)
        ensures
            v == self.spec_neg(),
    {
        Vec3 { x: self.x.neg(), y: self.y.neg(), z: self.z.neg() }
    }

    /// Whether the vector is too short to give a direction: every component
    /// lies strictly within the threshold of zero.
    #[verifier::when_used_as_spec(spec_near_zero)]
    pub fn near_zero(self) -> (r: bool)
        ensures
            r == self.spec_near_zero(),
    {
        let s = Real::from_bits(NEAR_ZERO_BITS);
        self.x.abs().lt(s) && self.y.abs().lt(s) && self.z.abs().lt(s)
    }
}

} // verus!
