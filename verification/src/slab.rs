//! The slab test: whether a ray passes through a box within a parameter
//! window, decided from the ray's crossings of the box's three pairs of
//! planes.

use vstd::prelude::*;
use crate::scalar::Real;
use crate::aabb::AABB;

verus! {

/// Where a ray crosses the two planes that bound a box on one axis.
///
/// `t0` is the ray parameter at the plane of the box's least coordinate, `t1`
/// the one at the plane of its greatest, and `inv_d` the reciprocal of the
/// ray direction's component on the axis.
#[derive(Clone, Copy, Debug)]
pub struct Slab {
    pub inv_d: Real,
    pub t0: Real,
    pub t1: Real,
}

impl Slab {
    /// The parameter at which the ray enters the slab: `t1` for a ray that
    /// runs against the axis, `t0` otherwise.
    pub open spec fn entry(self) -> Real {
        if self.inv_d.spec_lt(Real { bits: 0 }) {
            self.t1
        } else {
            self.t0
        }
    }

    /// The parameter at which the ray leaves the slab.
    pub open spec fn exit(self) -> Real {
        if self.inv_d.spec_lt(Real { bits: 0 }) {
            self.t0
        } else {
            self.t1
        }
    }

    /// The window's floor, raised to the entry where that is later.
    pub open spec fn raise(self, t_min: Real) -> Real {
        if t_min.spec_lt(self.entry()) {
            self.entry()
        } else {
            t_min
        }
    }

    /// The window's ceiling, lowered to the exit where that is sooner.
    pub open spec fn lower(self, t_max: Real) -> Real {
        if self.exit().spec_lt(t_max) {
            self.exit()
        } else {
            t_max
        }
    }
}

/// The slab test: the window is narrowed by one slab after another, and the
/// ray misses as soon as the ceiling is at or under the floor.
pub open spec fn slabs_hit(slabs: Seq<Slab>, t_min: Real, t_max: Real) -> bool
    decreases slabs.len(),
{
    if slabs.len() == 0 {
        true
    } else {
        let floor = slabs[0].raise(t_min);
        let ceiling = slabs[0].lower(t_max);
        if ceiling.spec_le(floor) {
            false
        } else {
            slabs_hit(slabs.drop_first(), floor, ceiling)
        }
    }
}

impl AABB {
    /// Whether a ray passes through a box within `[t_min, t_max]`, given its
    /// crossings of the box's planes on the x, y and z axes.
    pub fn hit(slabs: &[Slab; 3], t_min: Real, t_max: Real) -> (r: bool)
        ensures
            r == slabs_hit(slabs@, t_min, t_max),
    {
        let mut floor = t_min;
        let mut ceiling = t_max;
        let mut a: usize = 0;
        assert(slabs@.subrange(0, 3) =~= slabs@);
        while a < 3
            invariant
                a <= 3,
                slabs_hit(slabs@, t_min, t_max) == slabs_hit(slabs@.subrange(a as int, 3), floor, ceiling),
            decreases 3 - a,
        {
            let slab = slabs[a];
            let mut t0 = slab.t0;
            let mut t1 = slab.t1;
            if slab.inv_d.lt(Real::zero()) {
                let swap = t0;
                t0 = t1;
                t1 = swap;
            }
            let ghost rest = slabs@.subrange(a as int, 3);
            assert(rest[0] == slab);
            assert(rest.drop_first() =~= slabs@.subrange(a as int + 1, 3));
            floor = if t0.gt(floor) { t0 } else { floor };
            ceiling = if t1.lt(ceiling) { t1 } else { ceiling };
            if ceiling.le(floor) {
                return false;
            }
            a += 1;
        }
        assert(slabs@.subrange(3, 3) =~= Seq::<Slab>::empty());
        true
    }
}

/// With a window whose bounds are numbers, the slab test does not depend on
/// the order in which the three axes are taken.
pub proof fn lemma_slab_test_axis_order(a: Slab, b: Slab, c: Slab, t_min: Real, t_max: Real)
    requires
        !t_min.nan(),
        !t_max.nan(),
    ensures
        slabs_hit(seq![a, b, c], t_min, t_max) == slabs_hit(seq![a, c, b], t_min, t_max),
        slabs_hit(seq![a, b, c], t_min, t_max) == slabs_hit(seq![b, a, c], t_min, t_max),
        slabs_hit(seq![a, b, c], t_min, t_max) == slabs_hit(seq![b, c, a], t_min, t_max),
        slabs_hit(seq![a, b, c], t_min, t_max) == slabs_hit(seq![c, a, b], t_min, t_max),
        slabs_hit(seq![a, b, c], t_min, t_max) == slabs_hit(seq![c, b, a], t_min, t_max),
{
    lemma_three_slabs(a, b, c, t_min, t_max);
    lemma_three_slabs(a, c, b, t_min, t_max);
    lemma_three_slabs(b, a, c, t_min, t_max);
    lemma_three_slabs(b, c, a, t_min, t_max);
    lemma_three_slabs(c, a, b, t_min, t_max);
    lemma_three_slabs(c, b, a, t_min, t_max);
}

/// Whether a slab takes in all of another slab: both are crossed at numbers,
/// and the ray is in the other one only while it is in this one.
pub open spec fn covers(outer: Slab, inner: Slab) -> bool {
    &&& outer.entry().spec_le(inner.entry())
    &&& inner.exit().spec_le(outer.exit())
}

/// A ray that passes through a box within a window passes through every
/// larger box within every larger window: where each slab of `outer` covers
/// the slab of `inner` on the same axis, and the window of `outer` takes in
/// that of `inner`, the slab test on `inner` succeeds only if that on `outer`
/// does.
pub proof fn lemma_slab_test_monotone(
    outer: Seq<Slab>,
    inner: Seq<Slab>,
    outer_min: Real,
    outer_max: Real,
    inner_min: Real,
    inner_max: Real,
)
    requires
        outer.len() == inner.len(),
        forall|k: int| 0 <= k < outer.len() ==> covers(#[trigger] outer[k], inner[k]),
        outer_min.spec_le(inner_min),
        inner_max.spec_le(outer_max),
        slabs_hit(inner, inner_min, inner_max),
    ensures
        slabs_hit(outer, outer_min, outer_max),
    decreases outer.len(),
{
    if outer.len() > 0 {
        assert(covers(outer[0], inner[0]));
        assert forall|k: int| 0 <= k < outer.drop_first().len() implies covers(
            #[trigger] outer.drop_first()[k],
            inner.drop_first()[k],
        ) by {
            assert(covers(outer[k + 1], inner[k + 1]));
        }
        lemma_slab_test_monotone(
            outer.drop_first(),
            inner.drop_first(),
            outer[0].raise(outer_min),
            outer[0].lower(outer_max),
            inner[0].raise(inner_min),
            inner[0].lower(inner_max),
        );
    }
}

/// The window that three slabs leave of `[t_min, t_max]` is not empty.
pub open spec fn window_survives(a: Slab, b: Slab, c: Slab, t_min: Real, t_max: Real) -> bool {
    let f1 = a.raise(t_min);
    let c1 = a.lower(t_max);
    let f2 = b.raise(f1);
    let c2 = b.lower(c1);
    let f3 = c.raise(f2);
    let c3 = c.lower(c2);
    !c1.spec_le(f1) && !c2.spec_le(f2) && !c3.spec_le(f3)
}

/// The slab test on three slabs, written out.
pub proof fn lemma_three_slabs(a: Slab, b: Slab, c: Slab, t_min: Real, t_max: Real)
    ensures
        slabs_hit(seq![a, b, c], t_min, t_max) == window_survives(a, b, c, t_min, t_max),
{
    let s3 = seq![a, b, c];
    let s2 = seq![b, c];
    let s1 = seq![c];
    assert(s3.drop_first() =~= s2);
    assert(s2.drop_first() =~= s1);
    assert(s1.drop_first() =~= Seq::<Slab>::empty());
    reveal_with_fuel(slabs_hit, 4);
}

} // verus!
