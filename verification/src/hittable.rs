//! What a ray can hit, what a hit records, and which of several hits counts.

use vstd::prelude::*;
use vstd::seq_lib::group_to_multiset_ensures;
use crate::aabb::AABB;
use crate::ray::Ray;
use crate::scalar::Real;
use crate::scalar::INFINITY_BITS;
use crate::vec3::Vec3;

verus! {

/// One intersection of a ray with a surface.
pub struct HitRecord<M> {
    /// Where the ray meets the surface.
    pub pos: Vec3,
    /// The unit normal at that point, turned against the incoming ray.
    pub normal: Vec3,
    /// The ray parameter of the point.
    pub t: Real,
    /// Whether the ray came from outside the surface.
    pub front_face: bool,
    /// The material of the surface, shared with the object that was hit.
    pub mat: M,
}

impl<M> HitRecord<M> {
    /// Orients the record's normal against the incoming ray.
    ///
    /// `facing` is the dot product of the ray's direction and
    /// `outward_normal`. Where it is negative the ray comes from outside and
    /// the outward normal is kept; otherwise the normal is turned round.
    pub fn set_face_normal(&mut self, facing: Real, outward_normal: Vec3)
        ensures
            final(self).front_face == facing.spec_lt(Real { bits: 0 }),
            final(self).normal == if facing.spec_lt(Real { bits: 0 }) {
                outward_normal
            } else {
                outward_normal.spec_neg()
            },
            final(self).pos == old(self).pos,
            final(self).t == old(self).t,
            final(self).mat == old(self).mat,
    {
        self.front_face = facing.lt(Real::zero());
        self.normal = if self.front_face {
            outward_normal
        } else {
            outward_normal.neg()
        };
    }
}

/// Anything a ray can be tested against.
///
/// Both answers are functions of the object and the arguments: `hit_spec`
/// and `box_spec` name them, so that what is built from objects can say
/// which object's answer it hands on. An implementation in compiled code
/// lets the two names return what `hit` and `bounding_box` return.
pub trait Hittable: Send + Sync {
    /// How a hit refers to the material of the surface.
    type Mat;

    /// What `hit` answers.
    spec fn hit_spec(&self, ray: Ray, t_min: Real, t_max: Real) -> Option<HitRecord<Self::Mat>>;

    /// What `bounding_box` answers.
    spec fn box_spec(&self, t0: Real, t1: Real) -> Option<AABB>;

    /// The intersection of the ray with the object within `[t_min, t_max]`,
    /// if there is one.
    fn hit(&self, ray: &Ray, t_min: Real, t_max: Real) -> (r: Option<HitRecord<Self::Mat>>)
        ensures
            r == self.hit_spec(*ray, t_min, t_max),
    ;

    /// A box around the object over the time span `[t0, t1]`, or `None` for
    /// an object that has none.
    fn bounding_box(&self, t0: Real, t1: Real) -> (r: Option<AABB>)
        ensures
            r == self.box_spec(t0, t1),
    ;
}

/// The ceiling left for further tests: the parameter of the best hit so far,
/// or the window's own ceiling while there is none.
pub open spec fn ceiling<M>(best: Option<HitRecord<M>>, t_max: Real) -> Real {
    match best {
        Some(rec) => rec.t,
        None => t_max,
    }
}

/// The later of two answers where it is a hit, else the earlier one.
pub open spec fn prefer<M>(later: Option<HitRecord<M>>, earlier: Option<HitRecord<M>>) -> Option<
    HitRecord<M>,
> {
    match later {
        Some(rec) => Some(rec),
        None => earlier,
    }
}

/// The hit that a scan of `objects` in order keeps: each object is tested
/// under the ceiling that the hits before it have left, and a hit replaces
/// what was kept.
pub open spec fn closest_hit<H: Hittable>(
    objects: Seq<H>,
    ray: Ray,
    t_min: Real,
    t_max: Real,
) -> Option<HitRecord<H::Mat>>
    decreases objects.len(),
{
    if objects.len() == 0 {
        None
    } else {
        let before = closest_hit(objects.drop_last(), ray, t_min, t_max);
        prefer(objects.last().hit_spec(ray, t_min, ceiling(before, t_max)), before)
    }
}

/// An object is steady for a ray and a floor when its nearest hit does not
/// depend on the ceiling: under every numeric ceiling it reports the hit it
/// reports under an infinite one, or nothing where that hit lies beyond the
/// ceiling.
pub open spec fn steady<H: Hittable>(object: H, ray: Ray, t_min: Real) -> bool {
    forall|c: Real|
        #![trigger object.hit_spec(ray, t_min, c)]
        !c.nan() ==> object.hit_spec(ray, t_min, c) == (match object.hit_spec(
            ray,
            t_min,
            Real { bits: INFINITY_BITS },
        ) {
            Some(rec) => if rec.t.spec_le(c) {
                Some(rec)
            } else {
                None
            },
            None => None,
        })
}

/// Whether every object of a sequence is steady.
pub open spec fn all_steady<H: Hittable>(objects: Seq<H>, ray: Ray, t_min: Real) -> bool {
    forall|i: int| 0 <= i < objects.len() ==> #[trigger] steady(objects[i], ray, t_min)
}

/// What a steady object reports under one numeric ceiling.
pub proof fn lemma_steady_at<H: Hittable>(object: H, ray: Ray, t_min: Real, c: Real)
    requires
        steady(object, ray, t_min),
        !c.nan(),
    ensures
        object.hit_spec(ray, t_min, c) == (match object.hit_spec(
            ray,
            t_min,
            Real { bits: INFINITY_BITS },
        ) {
            Some(rec) => if rec.t.spec_le(c) {
                Some(rec)
            } else {
                None
            },
            None => None,
        }),
{
}

/// Scanning two sequences one after the other is scanning the second under
/// the ceiling that the first has left.
pub proof fn lemma_closest_hit_concat<H: Hittable>(
    first: Seq<H>,
    second: Seq<H>,
    ray: Ray,
    t_min: Real,
    t_max: Real,
)
    ensures
        closest_hit(first + second, ray, t_min, t_max) == prefer(
            closest_hit(
                second,
                ray,
                t_min,
                ceiling(closest_hit(first, ray, t_min, t_max), t_max),
            ),
            closest_hit(first, ray, t_min, t_max),
        ),
    decreases second.len(),
{
    if second.len() == 0 {
        assert(first + second =~= first);
    } else {
        lemma_closest_hit_concat(first, second.drop_last(), ray, t_min, t_max);
        assert((first + second).drop_last() =~= first + second.drop_last());
        assert((first + second).last() == second.last());
    }
}

/// Of steady objects and within a numeric window, a scan keeps a nearest
/// hit: it keeps nothing exactly when no object is hit within the window,
/// and what it keeps is some object's hit within the window, at a parameter
/// that no object's hit within the window undercuts.
pub proof fn lemma_closest_hit_is_nearest<H: Hittable>(
    objects: Seq<H>,
    ray: Ray,
    t_min: Real,
    t_max: Real,
)
    requires
        all_steady(objects, ray, t_min),
        !t_max.nan(),
    ensures
        closest_hit(objects, ray, t_min, t_max) is None <==> forall|i: int|
            #![trigger objects[i].hit_spec(ray, t_min, t_max)]
            0 <= i < objects.len() ==> objects[i].hit_spec(ray, t_min, t_max) is None,
        closest_hit(objects, ray, t_min, t_max) matches Some(rec) ==> {
            &&& rec.t.spec_le(t_max)
            &&& exists|i: int|
                #![trigger objects[i].hit_spec(ray, t_min, t_max)]
                0 <= i < objects.len() && objects[i].hit_spec(ray, t_min, t_max) == Some(rec)
            &&& forall|j: int|
                #![trigger objects[j].hit_spec(ray, t_min, t_max)]
                0 <= j < objects.len() ==> (objects[j].hit_spec(ray, t_min, t_max) matches Some(
                    other,
                ) ==> rec.t.spec_le(other.t))
        },
    decreases objects.len(),
{
    if objects.len() > 0 {
        let init = objects.drop_last();
        let last = objects.last();
        let before = closest_hit(init, ray, t_min, t_max);
        let c = ceiling(before, t_max);
        lemma_closest_hit_is_nearest(init, ray, t_min, t_max);
        assert(steady(objects[objects.len() - 1], ray, t_min));
        lemma_steady_at(last, ray, t_min, c);
        lemma_steady_at(last, ray, t_min, t_max);
        assert forall|i: int| 0 <= i < init.len() implies init[i] == objects[i] by {}
        match closest_hit(objects, ray, t_min, t_max) {
            Some(rec) => {
                if last.hit_spec(ray, t_min, c) is Some {
                    assert(objects[objects.len() - 1].hit_spec(ray, t_min, t_max) == Some(rec));
                } else {
                    let i = choose|i: int|
                        #![trigger init[i].hit_spec(ray, t_min, t_max)]
                        0 <= i < init.len() && init[i].hit_spec(ray, t_min, t_max) == Some(rec);
                    assert(objects[i].hit_spec(ray, t_min, t_max) == Some(rec));
                }
                assert forall|j: int|
                    #![trigger objects[j].hit_spec(ray, t_min, t_max)]
                    0 <= j < objects.len() implies (objects[j].hit_spec(ray, t_min, t_max) matches Some(
                    other,
                ) ==> rec.t.spec_le(other.t)) by {
                    if j < init.len() {
                        assert(init[j] == objects[j]);
                    }
                }
            },
            None => {
                assert forall|i: int|
                    #![trigger objects[i].hit_spec(ray, t_min, t_max)]
                    0 <= i < objects.len() implies objects[i].hit_spec(ray, t_min, t_max) is None by {
                    if i < init.len() {
                        assert(init[i] == objects[i]);
                    }
                }
            },
        }
        if forall|i: int|
            #![trigger objects[i].hit_spec(ray, t_min, t_max)]
            0 <= i < objects.len() ==> objects[i].hit_spec(ray, t_min, t_max) is None {
            assert forall|i: int|
                #![trigger init[i].hit_spec(ray, t_min, t_max)]
                0 <= i < init.len() implies init[i].hit_spec(ray, t_min, t_max) is None by {
                assert(init[i] == objects[i]);
            }
            assert(objects[objects.len() - 1].hit_spec(ray, t_min, t_max) is None);
        }
    }
}

/// An element of one sequence occurs in every sequence with the same
/// elements.
pub proof fn lemma_member<T>(a: Seq<T>, b: Seq<T>, i: int)
    requires
        a.to_multiset() == b.to_multiset(),
        0 <= i < a.len(),
    ensures
        exists|j: int| 0 <= j < b.len() && b[j] == a[i],
{
    broadcast use group_to_multiset_ensures;

    assert(a.contains(a[i]));
    assert(a.to_multiset().count(a[i]) > 0);
    assert(b.contains(a[i]));
}

/// Steadiness of all objects does not depend on their order.
pub proof fn lemma_steady_any_order<H: Hittable>(a: Seq<H>, b: Seq<H>, ray: Ray, t_min: Real)
    requires
        a.to_multiset() == b.to_multiset(),
        all_steady(a, ray, t_min),
    ensures
        all_steady(b, ray, t_min),
{
    assert forall|i: int| 0 <= i < b.len() implies #[trigger] steady(b[i], ray, t_min) by {
        lemma_member(b, a, i);
        let j = choose|j: int| 0 <= j < a.len() && a[j] == b[i];
        assert(steady(a[j], ray, t_min));
    }
}

/// Of steady objects and within a numeric window, what a scan keeps does
/// not depend on the order of the objects, as far as the ray parameter goes:
/// two scans of the same objects both keep nothing, or keep hits at the same
/// parameter.
pub proof fn lemma_closest_hit_any_order<H: Hittable>(
    a: Seq<H>,
    b: Seq<H>,
    ray: Ray,
    t_min: Real,
    t_max: Real,
)
    requires
        a.to_multiset() == b.to_multiset(),
        all_steady(a, ray, t_min),
        !t_max.nan(),
    ensures
        closest_hit(a, ray, t_min, t_max) is None <==> closest_hit(b, ray, t_min, t_max) is None,
        closest_hit(a, ray, t_min, t_max) matches Some(ra) ==> (closest_hit(b, ray, t_min, t_max)
            matches Some(rb) && ra.t.ord() == rb.t.ord()),
{
    lemma_steady_any_order(a, b, ray, t_min);
    lemma_closest_hit_is_nearest(a, ray, t_min, t_max);
    lemma_closest_hit_is_nearest(b, ray, t_min, t_max);
    let ha = closest_hit(a, ray, t_min, t_max);
    let hb = closest_hit(b, ray, t_min, t_max);
    if ha is None {
        assert forall|i: int| 0 <= i < b.len() implies #[trigger] b[i].hit_spec(
            ray,
            t_min,
            t_max,
        ) is None by {
            lemma_member(b, a, i);
            let j = choose|j: int| 0 <= j < a.len() && a[j] == b[i];
            assert(a[j].hit_spec(ray, t_min, t_max) is None);
        }
    } else {
        let ra = ha->0;
        let i = choose|i: int|
            #![trigger a[i].hit_spec(ray, t_min, t_max)]
            0 <= i < a.len() && a[i].hit_spec(ray, t_min, t_max) == Some(ra);
        lemma_member(a, b, i);
        let j = choose|j: int| 0 <= j < b.len() && b[j] == a[i];
        assert(b[j].hit_spec(ray, t_min, t_max) == Some(ra));
        assert(hb is Some);
        let rb = hb->0;
        assert(rb.t.spec_le(ra.t));
        let k = choose|k: int|
            #![trigger b[k].hit_spec(ray, t_min, t_max)]
            0 <= k < b.len() && b[k].hit_spec(ray, t_min, t_max) == Some(rb);
        lemma_member(b, a, k);
        let m = choose|m: int| 0 <= m < a.len() && a[m] == b[k];
        assert(a[m].hit_spec(ray, t_min, t_max) == Some(rb));
        assert(ra.t.spec_le(rb.t));
    }
}

} // verus!
