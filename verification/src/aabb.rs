//! Axis-aligned bounding boxes: their union and the slab test.

use vstd::prelude::*;
use crate::scalar::Real;
use crate::scalar::lemma_min_max_algebra;
use crate::scalar::lemma_min_max_bounds;
use crate::vec3::Vec3;

verus! {

/// An axis-aligned box, given by its least and its greatest corner.
#[derive(Clone, Copy, Debug)]
pub struct AABB {
    pub min: Vec3,
    pub max: Vec3,
}

impl AABB {
    /// A box is well formed when on every axis its least coordinate is at
    /// most its greatest. No coordinate of such a box is a not-a-number.
    pub open spec fn wf(self) -> bool {
        &&& self.min.x.spec_le(self.max.x)
        &&& self.min.y.spec_le(self.max.y)
        &&& self.min.z.spec_le(self.max.z)
    }

    /// The least coordinate of the box on an axis.
    pub open spec fn min_on(self, axis: u8) -> Real {
        self.min.axis(axis as int)
    }

    /// Whether `inner` lies entirely within `self`.
    pub open spec fn contains(self, inner: AABB) -> bool {
        &&& self.min.x.spec_le(inner.min.x) && inner.max.x.spec_le(self.max.x)
        &&& self.min.y.spec_le(inner.min.y) && inner.max.y.spec_le(self.max.y)
        &&& self.min.z.spec_le(inner.min.z) && inner.max.z.spec_le(self.max.z)
    }

    /// The least box around both: the lesser of the least corners and the
    /// greater of the greatest, axis by axis.
    pub open spec fn union(self, other: AABB) -> AABB {
        AABB {
            min: Vec3 {
                x: self.min.x.spec_min(other.min.x),
                y: self.min.y.spec_min(other.min.y),
                z: self.min.z.spec_min(other.min.z),
            },
            max: Vec3 {
                x: self.max.x.spec_max(other.max.x),
                y: self.max.y.spec_max(other.max.y),
                z: self.max.z.spec_max(other.max.z),
            },
        }
    }
}

/// The least box around two boxes.
pub fn surrounding_box(box0: AABB, box1: AABB) -> (r: AABB)
    ensures
        r == box0.union(box1),
{
    let small = Vec3::new(
        box0.min.x.min(box1.min.x),
        box0.min.y.min(box1.min.y),
        box0.min.z.min(box1.min.z),
    );
    let big = Vec3::new(
        box0.max.x.max(box1.max.x),
        box0.max.y.max(box1.max.y),
        box0.max.z.max(box1.max.z),
    );
    AABB { min: small, max: big }
}

/// The box around two well-formed boxes is well formed and holds both of
/// them entirely.
pub proof fn lemma_surrounding_box_contains(a: AABB, b: AABB)
    requires
        a.wf(),
        b.wf(),
    ensures
        a.union(b).wf(),
        a.union(b).contains(a),
        a.union(b).contains(b),
{
    lemma_min_max_bounds(a.min.x, b.min.x);
    lemma_min_max_bounds(a.min.y, b.min.y);
    lemma_min_max_bounds(a.min.z, b.min.z);
    lemma_min_max_bounds(a.max.x, b.max.x);
    lemma_min_max_bounds(a.max.y, b.max.y);
    lemma_min_max_bounds(a.max.z, b.max.z);
}

/// The box around two boxes does not depend on their order.
pub proof fn lemma_surrounding_box_commutative(a: AABB, b: AABB)
    ensures
        a.union(b) == b.union(a),
{
    lemma_min_max_algebra(a.min.x, b.min.x, b.min.x);
    lemma_min_max_algebra(a.min.y, b.min.y, b.min.y);
    lemma_min_max_algebra(a.min.z, b.min.z, b.min.z);
    lemma_min_max_algebra(a.max.x, b.max.x, b.max.x);
    lemma_min_max_algebra(a.max.y, b.max.y, b.max.y);
    lemma_min_max_algebra(a.max.z, b.max.z, b.max.z);
}

/// The box around three boxes does not depend on how they are grouped, and
/// the box around a box and itself is that box.
pub proof fn lemma_surrounding_box_associative(a: AABB, b: AABB, c: AABB)
    ensures
        a.union(b).union(c) == a.union(b.union(c)),
        a.union(a) == a,
{
    lemma_min_max_algebra(a.min.x, b.min.x, c.min.x);
    lemma_min_max_algebra(a.min.y, b.min.y, c.min.y);
    lemma_min_max_algebra(a.min.z, b.min.z, c.min.z);
    lemma_min_max_algebra(a.max.x, b.max.x, c.max.x);
    lemma_min_max_algebra(a.max.y, b.max.y, c.max.y);
    lemma_min_max_algebra(a.max.z, b.max.z, c.max.z);
}

/// Containment of well-formed boxes is transitive, and every well-formed box
/// contains itself.
pub proof fn lemma_contains_transitive(a: AABB, b: AABB, c: AABB)
    requires
        a.contains(b),
        b.contains(c),
    ensures
        a.contains(c),
        b.wf() ==> b.contains(b),
{
}

} // verus!
