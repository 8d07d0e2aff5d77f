//! The bounding-volume hierarchy: a binary tree over the primitives of a
//! scene, with a box at every node that holds everything under it.

use vstd::prelude::*;
use vstd::seq_lib::group_to_multiset_ensures;
use vstd::seq_lib::lemma_multiset_commutative;
use rand::rngs::StdRng;
use crate::aabb::lemma_contains_transitive;
use crate::aabb::lemma_surrounding_box_contains;
use crate::aabb::surrounding_box;
use crate::aabb::AABB;
use crate::hittable::all_steady;
use crate::hittable::ceiling;
use crate::hittable::closest_hit;
use crate::hittable::lemma_closest_hit_any_order;
use crate::hittable::lemma_closest_hit_concat;
use crate::hittable::lemma_closest_hit_is_nearest;
use crate::hittable::lemma_member;
use crate::hittable::lemma_steady_any_order;
use crate::hittable::prefer;
use crate::hittable::steady;
use crate::hittable::HitRecord;
use crate::hittable::Hittable;
use crate::ray::Ray;
use crate::rng::draw_below;
use crate::scalar::Real;
use crate::slab::covers;
use crate::slab::lemma_slab_test_monotone;
use crate::slab::slabs_hit;
use crate::slab::Slab;

verus! {

/// The number of axes along which a branch may split its primitives.
pub const AXES: u8 = 3;

/// What a node of the hierarchy holds: two subtrees, or one primitive.
pub enum BVHNode<H> {
    Branch { left: Box<BVH<H>>, right: Box<BVH<H>> },
    Leaf(H),
}

/// A node of the hierarchy with the box around everything under it. The
/// tree is built once and read from then on.
pub struct BVH<H> {
    pub node: BVHNode<H>,
    pub aabb: AABB,
}

/// The key by which primitives are ordered on an axis: the sort key of the
/// least coordinate of the primitive's box on that axis.
pub open spec fn axis_key(bounds: Option<AABB>, axis: int) -> int {
    match bounds {
        Some(b) => b.min.axis(axis).min_key(),
        None => 0,
    }
}

/// Whether every box of `low` comes at or before every box of `high` on the
/// axis.
pub open spec fn separated(low: Seq<AABB>, high: Seq<AABB>, axis: int) -> bool {
    forall|i: int, j: int|
        0 <= i < low.len() && 0 <= j < high.len() ==> #[trigger] axis_key(Some(low[i]), axis)
            <= #[trigger] axis_key(Some(high[j]), axis)
}

impl<H: Hittable> BVH<H> {
    /// The primitives under the node, from left to right.
    pub open spec fn leaves(self) -> Seq<H>
        decreases self,
    {
        match self.node {
            BVHNode::Branch { left, right } => left.leaves() + right.leaves(),
            BVHNode::Leaf(object) => seq![object],
        }
    }

    /// The boxes of the leaves under the node, from left to right.
    pub open spec fn boxes(self) -> Seq<AABB>
        decreases self,
    {
        match self.node {
            BVHNode::Branch { left, right } => left.boxes() + right.boxes(),
            BVHNode::Leaf(_) => seq![self.aabb],
        }
    }

    /// The boxes are right: a leaf carries the box of its primitive, and a
    /// branch the least box around the boxes of its two subtrees.
    pub open spec fn wf(self, t0: Real, t1: Real) -> bool
        decreases self,
    {
        match self.node {
            BVHNode::Branch { left, right } => {
                &&& left.wf(t0, t1)
                &&& right.wf(t0, t1)
                &&& self.aabb == left.aabb.union(right.aabb)
            },
            BVHNode::Leaf(object) => object.box_spec(t0, t1) == Some(self.aabb),
        }
    }

    /// Every branch splits its primitives at the midpoint: the left subtree
    /// gets half of them, rounded down, and the right subtree the rest.
    pub open spec fn balanced(self) -> bool
        decreases self,
    {
        match self.node {
            BVHNode::Branch { left, right } => {
                &&& left.balanced()
                &&& right.balanced()
                &&& left.leaves().len() == (left.leaves().len() + right.leaves().len()) / 2
            },
            BVHNode::Leaf(_) => true,
        }
    }

    /// Every branch splits its primitives along some axis: on that axis no
    /// box of the left subtree comes after a box of the right subtree.
    pub open spec fn ordered(self) -> bool
        decreases self,
    {
        match self.node {
            BVHNode::Branch { left, right } => {
                &&& left.ordered()
                &&& right.ordered()
                &&& exists|axis: int|
                    0 <= axis < 3 && #[trigger] separated(left.boxes(), right.boxes(), axis)
            },
            BVHNode::Leaf(_) => true,
        }
    }

    /// The box around everything under the node.
    pub fn bounding_box(&self, t0: Real, t1: Real) -> (r: Option<AABB>)
        ensures
            r == Some(self.aabb),
    {
        let _ = t0;
        let _ = t1;
        Some(self.aabb)
    }
}

/// Whether every object of the sequence has a box over the time span.
pub open spec fn all_boxed<H: Hittable>(objects: Seq<H>, t0: Real, t1: Real) -> bool {
    forall|i: int| 0 <= i < objects.len() ==> #[trigger] has_box(objects[i], t0, t1)
}

/// Whether the object has a box over the time span.
pub open spec fn has_box<H: Hittable>(object: H, t0: Real, t1: Real) -> bool {
    object.box_spec(t0, t1) is Some
}

/// The key of an object on an axis, as the hierarchy sorts by it.
fn object_key<H: Hittable>(object: &H, axis: u8, t0: Real, t1: Real) -> (k: i64)
    requires
        axis < 3,
    ensures
        k == axis_key(object.box_spec(t0, t1), axis as int),
{
    match object.bounding_box(t0, t1) {
        Some(b) => b.min.get(axis).sort_key(),
        None => 0,
    }
}

/// Sorts the objects by their keys on an axis, with the standard library's
/// `sort_by_key` on slices. As its documentation says, the slice then holds
/// the same elements as before, in ascending order of the key.
#[verifier::external_body]
fn sort_on_axis<H: Hittable>(objects: &mut Vec<H>, axis: u8, t0: Real, t1: Real)
    requires
        axis < 3,
    ensures
        final(objects)@.to_multiset() == old(objects)@.to_multiset(),
        forall|i: int, j: int|
            #![trigger final(objects)@[i], final(objects)@[j]]
            0 <= i <= j < final(objects)@.len() ==> axis_key(
                final(objects)@[i].box_spec(t0, t1),
                axis as int,
            ) <= axis_key(final(objects)@[j].box_spec(t0, t1), axis as int),
{
    objects.sort_by_key(|object| object_key(object, axis, t0, t1));
}

/// In a tree with the right boxes, the boxes of the leaves are those of the
/// primitives, one for one.
pub proof fn lemma_boxes_of_leaves<H: Hittable>(bvh: BVH<H>, t0: Real, t1: Real)
    requires
        bvh.wf(t0, t1),
    ensures
        bvh.boxes().len() == bvh.leaves().len(),
        bvh.leaves().len() >= 1,
        forall|i: int|
            #![trigger bvh.leaves()[i]]
            0 <= i < bvh.leaves().len() ==> bvh.leaves()[i].box_spec(t0, t1) == Some(
                bvh.boxes()[i],
            ),
    decreases bvh,
{
    match bvh.node {
        BVHNode::Branch { left, right } => {
            lemma_boxes_of_leaves(*left, t0, t1);
            lemma_boxes_of_leaves(*right, t0, t1);
            assert(bvh.leaves() == left.leaves() + right.leaves());
            assert(bvh.boxes() == left.boxes() + right.boxes());
            assert forall|i: int|
                #![trigger bvh.leaves()[i]]
                0 <= i < bvh.leaves().len() implies bvh.leaves()[i].box_spec(t0, t1) == Some(
                bvh.boxes()[i],
            ) by {
                if i < left.leaves().len() {
                    assert(bvh.leaves()[i] == left.leaves()[i]);
                } else {
                    assert(bvh.leaves()[i] == right.leaves()[i - left.leaves().len()]);
                }
            }
        },
        BVHNode::Leaf(object) => {
            assert(bvh.leaves() =~= seq![object]);
            assert(bvh.boxes() =~= seq![bvh.aabb]);
        },
    }
}

/// In a tree with the right boxes over well-formed leaf boxes, the box of
/// every node is well formed and holds the box of every leaf under it.
pub proof fn lemma_box_holds_leaves<H: Hittable>(bvh: BVH<H>, t0: Real, t1: Real)
    requires
        bvh.wf(t0, t1),
        forall|i: int| 0 <= i < bvh.boxes().len() ==> (#[trigger] bvh.boxes()[i]).wf(),
    ensures
        bvh.aabb.wf(),
        forall|i: int| 0 <= i < bvh.boxes().len() ==> bvh.aabb.contains(#[trigger] bvh.boxes()[i]),
    decreases bvh,
{
    match bvh.node {
        BVHNode::Branch { left, right } => {
            assert(bvh.boxes() == left.boxes() + right.boxes());
            assert forall|i: int| 0 <= i < left.boxes().len() implies (#[trigger] left.boxes()[i]).wf() by {
                assert(left.boxes()[i] == bvh.boxes()[i]);
            }
            assert forall|i: int| 0 <= i < right.boxes().len() implies (#[trigger] right.boxes()[i]).wf() by {
                assert(right.boxes()[i] == bvh.boxes()[i + left.boxes().len()]);
            }
            lemma_box_holds_leaves(*left, t0, t1);
            lemma_box_holds_leaves(*right, t0, t1);
            lemma_surrounding_box_contains(left.aabb, right.aabb);
            assert forall|i: int| 0 <= i < bvh.boxes().len() implies bvh.aabb.contains(
                #[trigger] bvh.boxes()[i],
            ) by {
                if i < left.boxes().len() {
                    assert(bvh.boxes()[i] == left.boxes()[i]);
                    lemma_contains_transitive(bvh.aabb, left.aabb, bvh.boxes()[i]);
                } else {
                    assert(bvh.boxes()[i] == right.boxes()[i - left.boxes().len()]);
                    lemma_contains_transitive(bvh.aabb, right.aabb, bvh.boxes()[i]);
                }
            }
        },
        BVHNode::Leaf(_) => {
            assert(bvh.boxes() =~= seq![bvh.aabb]);
            assert(bvh.boxes()[0].wf());
        },
    }
}

impl<H: Hittable> BVH<H> {
    /// Builds the hierarchy over objects that all have boxes.
    ///
    /// One object becomes a leaf. More are sorted on an axis that the
    /// generator picks and split at the midpoint; the upper half becomes the
    /// right subtree, the lower half the left one.
    fn new_recur(rng: &mut StdRng, list: Vec<H>, time0: Real, time1: Real) -> (bvh: BVH<H>)
        requires
            list@.len() >= 1,
            all_boxed(list@, time0, time1),
        ensures
            bvh.wf(time0, time1),
            bvh.leaves().to_multiset() == list@.to_multiset(),
            bvh.leaves().len() == list@.len(),
            bvh.balanced(),
            bvh.ordered(),
        decreases list@.len(),
    {
        let mut objects = list;
        let axis = draw_below(rng, AXES);
        let len = objects.len();
        if len == 1 {
            let leaf = objects.pop().unwrap();
            assert(leaf == list@[0]);
            assert(has_box(list@[0], time0, time1));
            let aabb = leaf.bounding_box(time0, time1).unwrap();
            assert(seq![leaf] =~= list@);
            let bvh = BVH { node: BVHNode::Leaf(leaf), aabb };
            assert(bvh.leaves() =~= seq![leaf]);
            bvh
        } else {
            sort_on_axis(&mut objects, axis, time0, time1);
            let ghost sorted = objects@;
            proof {
                broadcast use group_to_multiset_ensures;

                assert(sorted.to_multiset().len() == sorted.len());
                assert(list@.to_multiset().len() == list@.len());
                assert forall|i: int| 0 <= i < sorted.len() implies #[trigger] has_box(
                    sorted[i],
                    time0,
                    time1,
                ) by {
                    lemma_member(sorted, list@, i);
                    let j = choose|j: int| 0 <= j < list@.len() && list@[j] == sorted[i];
                    assert(has_box(list@[j], time0, time1));
                }
            }
            let mid = len / 2;
            let upper = objects.split_off(mid);
            let ghost low = objects@;
            let ghost high = upper@;
            proof {
                assert(low + high =~= sorted);
                assert forall|i: int| 0 <= i < low.len() implies #[trigger] has_box(
                    low[i],
                    time0,
                    time1,
                ) by {
                    assert(low[i] == sorted[i]);
                    assert(has_box(sorted[i], time0, time1));
                }
                assert forall|i: int| 0 <= i < high.len() implies #[trigger] has_box(
                    high[i],
                    time0,
                    time1,
                ) by {
                    assert(high[i] == sorted[i + mid]);
                    assert(has_box(sorted[i + mid], time0, time1));
                }
            }
            let right = BVH::new_recur(rng, upper, time0, time1);
            let left = BVH::new_recur(rng, objects, time0, time1);
            let aabb = surrounding_box(left.aabb, right.aabb);
            proof {
                lemma_multiset_commutative(left.leaves(), right.leaves());
                lemma_multiset_commutative(low, high);
                lemma_boxes_of_leaves(left, time0, time1);
                lemma_boxes_of_leaves(right, time0, time1);
                assert forall|i: int, j: int|
                    0 <= i < left.boxes().len() && 0 <= j < right.boxes().len() implies #[trigger] axis_key(
                    Some(left.boxes()[i]),
                    axis as int,
                ) <= #[trigger] axis_key(Some(right.boxes()[j]), axis as int) by {
                    lemma_member(left.leaves(), low, i);
                    lemma_member(right.leaves(), high, j);
                    let p = choose|p: int| 0 <= p < low.len() && low[p] == left.leaves()[i];
                    let q = choose|q: int| 0 <= q < high.len() && high[q] == right.leaves()[j];
                    assert(sorted[p] == low[p]);
                    assert(sorted[q + mid] == high[q]);
                    assert(left.leaves()[i].box_spec(time0, time1) == Some(left.boxes()[i]));
                    assert(right.leaves()[j].box_spec(time0, time1) == Some(right.boxes()[j]));
                }
                assert(separated(left.boxes(), right.boxes(), axis as int));
            }
            let bvh = BVH {
                node: BVHNode::Branch { left: Box::new(left), right: Box::new(right) },
                aabb,
            };
            assert(bvh.leaves() == left.leaves() + right.leaves());
            assert(bvh.boxes() == left.boxes() + right.boxes());
            bvh
        }
    }

    /// Builds the hierarchy over a list of objects.
    ///
    /// There is no hierarchy over an empty list, nor over a list with an
    /// object that has no box: the result is then `None`. Otherwise every
    /// object of the list sits in exactly one leaf, every box is the least
    /// one around what is under it, and every branch splits its objects at
    /// the midpoint along one of the three axes.
    pub fn new(rng: &mut StdRng, list: Vec<H>, time0: Real, time1: Real) -> (r: Option<BVH<H>>)
        ensures
            r is None <==> list@.len() == 0 || !all_boxed(list@, time0, time1),
            r matches Some(bvh) ==> {
                &&& bvh.wf(time0, time1)
                &&& bvh.leaves().to_multiset() == list@.to_multiset()
                &&& bvh.leaves().len() == list@.len()
                &&& bvh.balanced()
                &&& bvh.ordered()
            },
    {
        if list.len() == 0 {
            return None;
        }
        let mut i: usize = 0;
        while i < list.len()
            invariant
                i <= list@.len(),
                forall|k: int| 0 <= k < i ==> #[trigger] has_box(list@[k], time0, time1),
            decreases list@.len() - i,
        {
            if list[i].bounding_box(time0, time1).is_none() {
                assert(!has_box(list@[i as int], time0, time1));
                return None;
            }
            i += 1;
        }
        Some(BVH::new_recur(rng, list, time0, time1))
    }
}

/// Whether the slab test can come out as `passes` for a box within a window:
/// `crossings` can give crossings of the box on which it does.
pub open spec fn may_pass<F: Fn(&AABB, &Ray) -> [Slab; 3]>(
    crossings: F,
    aabb: AABB,
    ray: Ray,
    t_min: Real,
    t_max: Real,
    passes: bool,
) -> bool {
    exists|slabs: [Slab; 3]| #[trigger]
        call_ensures(crossings, (&aabb, &ray), slabs) && slabs_hit(slabs@, t_min, t_max) == passes
}

impl<H: Hittable> BVH<H> {
    /// Whether `r` can come of a traversal of the tree, with `crossings` to
    /// say where the ray crosses the planes of a box.
    ///
    /// A node whose box fails the slab test yields nothing. A leaf whose box
    /// passes it yields what its primitive answers. A branch asks its left
    /// subtree, then its right subtree under the ceiling that the left has
    /// left, and prefers what the right has found.
    pub open spec fn traverses<F: Fn(&AABB, &Ray) -> [Slab; 3]>(
        self,
        crossings: F,
        ray: Ray,
        t_min: Real,
        t_max: Real,
        r: Option<HitRecord<H::Mat>>,
    ) -> bool
        decreases self,
    {
        ||| may_pass(crossings, self.aabb, ray, t_min, t_max, false) && r is None
        ||| may_pass(crossings, self.aabb, ray, t_min, t_max, true) && match self.node {
            BVHNode::Branch { left, right } => exists|
                from_left: Option<HitRecord<H::Mat>>,
                from_right: Option<HitRecord<H::Mat>>,
            |
                {
                    &&& #[trigger] prefer(from_right, from_left) == r
                    &&& left.traverses(crossings, ray, t_min, t_max, from_left)
                    &&& right.traverses(
                        crossings,
                        ray,
                        t_min,
                        ceiling(from_left, t_max),
                        from_right,
                    )
                },
            BVHNode::Leaf(object) => r == object.hit_spec(ray, t_min, t_max),
        }
    }

    /// Whether the slab test never turns down a node under which something
    /// would be hit: where it can fail for a node's box under a numeric
    /// ceiling, no primitive under that node is hit under that ceiling.
    pub open spec fn prunes_soundly<F: Fn(&AABB, &Ray) -> [Slab; 3]>(
        self,
        crossings: F,
        ray: Ray,
        t_min: Real,
    ) -> bool
        decreases self,
    {
        &&& forall|c: Real, i: int|
            #![trigger self.leaves()[i].hit_spec(ray, t_min, c)]
            !c.nan() && may_pass(crossings, self.aabb, ray, t_min, c, false) && 0 <= i
                < self.leaves().len() ==> self.leaves()[i].hit_spec(ray, t_min, c) is None
        &&& match self.node {
            BVHNode::Branch { left, right } => left.prunes_soundly(crossings, ray, t_min)
                && right.prunes_soundly(crossings, ray, t_min),
            BVHNode::Leaf(_) => true,
        }
    }

    /// The nearest intersection of the ray with a primitive of the tree,
    /// within `[t_min, t_max]`.
    ///
    /// `crossings` gives the ray's crossings of the planes of a box on the
    /// three axes. The traversal asks for them at every node that it
    /// reaches, puts them to the slab test, and goes no further where the
    /// ray misses the box.
    pub fn hit<F: Fn(&AABB, &Ray) -> [Slab; 3]>(
        &self,
        crossings: &F,
        ray: &Ray,
        t_min: Real,
        t_max: Real,
    ) -> (r: Option<HitRecord<H::Mat>>)
        requires
            forall|b: &AABB, q: &Ray| call_requires(crossings, (b, q)),
        ensures
            self.traverses(*crossings, *ray, t_min, t_max, r),
        decreases self,
    {
        let slabs = crossings(&self.aabb, ray);
        if !AABB::hit(&slabs, t_min, t_max) {
            None
        } else {
            match &self.node {
                BVHNode::Branch { left, right } => {
                    let hit_left = left.hit(crossings, ray, t_min, t_max);
                    let t = match &hit_left {
                        Some(rec) => rec.t,
                        None => t_max,
                    };
                    let hit_right = right.hit(crossings, ray, t_min, t);
                    let r = match hit_right {
                        Some(rec) => Some(rec),
                        None => hit_left,
                    };
                    assert(prefer(hit_right, hit_left) == r);
                    r
                },
                BVHNode::Leaf(object) => object.hit(ray, t_min, t_max),
            }
        }
    }
}

impl<H: Hittable> BVH<H> {
    /// Whether the slab test is fair to the leaves: where it can fail for
    /// the box of a leaf under a numeric ceiling, the primitive of that leaf
    /// is not hit under that ceiling.
    pub open spec fn fair_to_leaves<F: Fn(&AABB, &Ray) -> [Slab; 3]>(
        self,
        crossings: F,
        ray: Ray,
        t_min: Real,
    ) -> bool {
        forall|c: Real, i: int|
            #![trigger self.leaves()[i].hit_spec(ray, t_min, c)]
            !c.nan() && 0 <= i < self.leaves().len() && may_pass(
                crossings,
                self.boxes()[i],
                ray,
                t_min,
                c,
                false,
            ) ==> self.leaves()[i].hit_spec(ray, t_min, c) is None
    }
}

/// Whether the slab test is monotone in the box: where, under a numeric
/// ceiling, it can fail for a box, it can fail for every box within that
/// one.
pub open spec fn monotone<F: Fn(&AABB, &Ray) -> [Slab; 3]>(
    crossings: F,
    ray: Ray,
    t_min: Real,
) -> bool {
    forall|outer: AABB, inner: AABB, c: Real|
        #![trigger outer.contains(inner), may_pass(crossings, outer, ray, t_min, c, false)]
        !c.nan() && outer.contains(inner) && may_pass(crossings, outer, ray, t_min, c, false)
            ==> may_pass(crossings, inner, ray, t_min, c, false)
}

/// Whether `crossings` can give crossings of the box.
pub open spec fn answers<F: Fn(&AABB, &Ray) -> [Slab; 3]>(crossings: F, aabb: AABB, ray: Ray) -> bool {
    exists|slabs: [Slab; 3]| call_ensures(crossings, (&aabb, &ray), slabs)
}

/// Whether the crossings widen with the box: `crossings` answers for every
/// box, and on every axis the slab that it gives for a box covers the slab
/// that it gives for a box within that one.
pub open spec fn widening<F: Fn(&AABB, &Ray) -> [Slab; 3]>(crossings: F, ray: Ray) -> bool {
    &&& forall|aabb: AABB| #[trigger] answers(crossings, aabb, ray)
    &&& forall|outer: AABB, inner: AABB, wide: [Slab; 3], narrow: [Slab; 3], k: int|
        #![trigger
            call_ensures(crossings, (&outer, &ray), wide),
            call_ensures(crossings, (&inner, &ray), narrow),
            wide@[k],
        ]
        outer.contains(inner) && call_ensures(crossings, (&outer, &ray), wide) && call_ensures(
            crossings,
            (&inner, &ray),
            narrow,
        ) && 0 <= k < 3 ==> covers(wide@[k], narrow@[k])
}

/// Where the crossings widen with the box and the floor is a number, the
/// slab test is monotone in the box.
pub proof fn lemma_widening_is_monotone<F: Fn(&AABB, &Ray) -> [Slab; 3]>(
    crossings: F,
    ray: Ray,
    t_min: Real,
)
    requires
        widening(crossings, ray),
        !t_min.nan(),
    ensures
        monotone(crossings, ray, t_min),
{
    assert forall|outer: AABB, inner: AABB, c: Real|
        #![trigger outer.contains(inner), may_pass(crossings, outer, ray, t_min, c, false)]
        !c.nan() && outer.contains(inner) && may_pass(
            crossings,
            outer,
            ray,
            t_min,
            c,
            false,
        ) implies may_pass(crossings, inner, ray, t_min, c, false) by {
        let wide = choose|slabs: [Slab; 3]| #[trigger]
            call_ensures(crossings, (&outer, &ray), slabs) && slabs_hit(slabs@, t_min, c) == false;
        assert(answers(crossings, inner, ray));
        let narrow = choose|slabs: [Slab; 3]| call_ensures(crossings, (&inner, &ray), slabs);
        assert forall|k: int| 0 <= k < wide@.len() implies covers(#[trigger] wide@[k], narrow@[k]) by {}
        if slabs_hit(narrow@, t_min, c) {
            lemma_slab_test_monotone(wide@, narrow@, t_min, c, t_min, c);
        }
        assert(call_ensures(crossings, (&inner, &ray), narrow));
    }
}

/// A slab test that is monotone in the box and fair to the leaves prunes
/// soundly, in a tree with the right boxes over well-formed leaf boxes.
pub proof fn lemma_prunes_soundly<H: Hittable, F: Fn(&AABB, &Ray) -> [Slab; 3]>(
    bvh: BVH<H>,
    crossings: F,
    ray: Ray,
    t_min: Real,
    t0: Real,
    t1: Real,
)
    requires
        bvh.wf(t0, t1),
        forall|i: int| 0 <= i < bvh.boxes().len() ==> (#[trigger] bvh.boxes()[i]).wf(),
        monotone(crossings, ray, t_min),
        bvh.fair_to_leaves(crossings, ray, t_min),
    ensures
        bvh.prunes_soundly(crossings, ray, t_min),
    decreases bvh,
{
    lemma_box_holds_leaves(bvh, t0, t1);
    lemma_boxes_of_leaves(bvh, t0, t1);
    assert forall|c: Real, i: int|
        #![trigger bvh.leaves()[i].hit_spec(ray, t_min, c)]
        !c.nan() && may_pass(crossings, bvh.aabb, ray, t_min, c, false) && 0 <= i
            < bvh.leaves().len() implies bvh.leaves()[i].hit_spec(ray, t_min, c) is None by {
        assert(bvh.aabb.contains(bvh.boxes()[i]));
        assert(may_pass(crossings, bvh.boxes()[i], ray, t_min, c, false));
    }
    match bvh.node {
        BVHNode::Branch { left, right } => {
            lemma_boxes_of_leaves(*left, t0, t1);
            lemma_boxes_of_leaves(*right, t0, t1);
            assert(bvh.boxes() == left.boxes() + right.boxes());
            assert(bvh.leaves() == left.leaves() + right.leaves());
            assert forall|i: int| 0 <= i < left.boxes().len() implies (#[trigger] left.boxes()[i]).wf() by {
                assert(left.boxes()[i] == bvh.boxes()[i]);
            }
            assert forall|i: int| 0 <= i < right.boxes().len() implies (#[trigger] right.boxes()[i]).wf() by {
                assert(right.boxes()[i] == bvh.boxes()[i + left.boxes().len()]);
            }
            assert forall|c: Real, i: int|
                #![trigger left.leaves()[i].hit_spec(ray, t_min, c)]
                !c.nan() && 0 <= i < left.leaves().len() && may_pass(
                    crossings,
                    left.boxes()[i],
                    ray,
                    t_min,
                    c,
                    false,
                ) implies left.leaves()[i].hit_spec(ray, t_min, c) is None by {
                assert(left.boxes()[i] == bvh.boxes()[i]);
                assert(left.leaves()[i] == bvh.leaves()[i]);
                assert(bvh.leaves()[i].hit_spec(ray, t_min, c) is None);
            }
            assert forall|c: Real, i: int|
                #![trigger right.leaves()[i].hit_spec(ray, t_min, c)]
                !c.nan() && 0 <= i < right.leaves().len() && may_pass(
                    crossings,
                    right.boxes()[i],
                    ray,
                    t_min,
                    c,
                    false,
                ) implies right.leaves()[i].hit_spec(ray, t_min, c) is None by {
                let k = i + left.leaves().len();
                assert(right.boxes()[i] == bvh.boxes()[k]);
                assert(right.leaves()[i] == bvh.leaves()[k]);
                assert(bvh.leaves()[k].hit_spec(ray, t_min, c) is None);
            }
            lemma_prunes_soundly(*left, crossings, ray, t_min, t0, t1);
            lemma_prunes_soundly(*right, crossings, ray, t_min, t0, t1);
        },
        BVHNode::Leaf(_) => {},
    }
}

/// With a slab test that prunes soundly, steady primitives and a numeric
/// ceiling, a traversal of the tree finds exactly what a scan of its leaves
/// from left to right keeps.
pub proof fn lemma_traversal_is_scan<H: Hittable, F: Fn(&AABB, &Ray) -> [Slab; 3]>(
    bvh: BVH<H>,
    crossings: F,
    ray: Ray,
    t_min: Real,
    t_max: Real,
    r: Option<HitRecord<H::Mat>>,
)
    requires
        bvh.traverses(crossings, ray, t_min, t_max, r),
        bvh.prunes_soundly(crossings, ray, t_min),
        all_steady(bvh.leaves(), ray, t_min),
        !t_max.nan(),
    ensures
        r == closest_hit(bvh.leaves(), ray, t_min, t_max),
    decreases bvh,
{
    let leaves = bvh.leaves();
    lemma_closest_hit_is_nearest(leaves, ray, t_min, t_max);
    if may_pass(crossings, bvh.aabb, ray, t_min, t_max, false) && r is None {
        assert forall|i: int| 0 <= i < leaves.len() implies #[trigger] leaves[i].hit_spec(
            ray,
            t_min,
            t_max,
        ) is None by {
            assert(bvh.leaves()[i].hit_spec(ray, t_min, t_max) is None);
        }
    } else {
        match bvh.node {
            BVHNode::Branch { left, right } => {
                let (from_left, from_right) = choose|
                    from_left: Option<HitRecord<H::Mat>>,
                    from_right: Option<HitRecord<H::Mat>>,
                |
                    {
                        &&& #[trigger] prefer(from_right, from_left) == r
                        &&& left.traverses(crossings, ray, t_min, t_max, from_left)
                        &&& right.traverses(
                            crossings,
                            ray,
                            t_min,
                            ceiling(from_left, t_max),
                            from_right,
                        )
                    };
                assert(leaves == left.leaves() + right.leaves());
                assert forall|i: int| 0 <= i < left.leaves().len() implies #[trigger] steady(
                    left.leaves()[i],
                    ray,
                    t_min,
                ) by {
                    assert(left.leaves()[i] == leaves[i]);
                }
                assert forall|i: int| 0 <= i < right.leaves().len() implies #[trigger] steady(
                    right.leaves()[i],
                    ray,
                    t_min,
                ) by {
                    assert(right.leaves()[i] == leaves[i + left.leaves().len()]);
                }
                lemma_traversal_is_scan(*left, crossings, ray, t_min, t_max, from_left);
                lemma_closest_hit_is_nearest(left.leaves(), ray, t_min, t_max);
                let c = ceiling(from_left, t_max);
                assert(!c.nan());
                lemma_traversal_is_scan(*right, crossings, ray, t_min, c, from_right);
                lemma_closest_hit_concat(left.leaves(), right.leaves(), ray, t_min, t_max);
            },
            BVHNode::Leaf(object) => {
                assert(leaves =~= seq![object]);
                assert(leaves.drop_last() =~= Seq::<H>::empty());
                assert(leaves.last() == object);
            },
        }
    }
}

/// A hierarchy finds what a scan of all its primitives finds, in whatever
/// order the scan takes them: with a slab test that prunes soundly, steady
/// primitives and a numeric ceiling, both find nothing or both find a hit,
/// and the two hits lie at the same ray parameter.
pub proof fn lemma_hierarchy_agrees_with_scan<H: Hittable, F: Fn(&AABB, &Ray) -> [Slab; 3]>(
    bvh: BVH<H>,
    list: Seq<H>,
    crossings: F,
    ray: Ray,
    t_min: Real,
    t_max: Real,
    r: Option<HitRecord<H::Mat>>,
)
    requires
        bvh.leaves().to_multiset() == list.to_multiset(),
        bvh.traverses(crossings, ray, t_min, t_max, r),
        bvh.prunes_soundly(crossings, ray, t_min),
        all_steady(list, ray, t_min),
        !t_max.nan(),
    ensures
        r is None <==> closest_hit(list, ray, t_min, t_max) is None,
        r matches Some(found) ==> (closest_hit(list, ray, t_min, t_max) matches Some(scanned)
            && found.t.ord() == scanned.t.ord()),
{
    lemma_steady_any_order(list, bvh.leaves(), ray, t_min);
    lemma_traversal_is_scan(bvh, crossings, ray, t_min, t_max, r);
    lemma_closest_hit_any_order(bvh.leaves(), list, ray, t_min, t_max);
}

/// The same, from what can be said of the crossings and of each leaf by
/// itself: in a tree with the right boxes over well-formed leaf boxes, with
/// crossings that widen with the box, a slab test that is fair to the
/// leaves, steady primitives and a window whose bounds are numbers, a
/// traversal and a scan of all the primitives both find nothing, or find
/// hits at the same ray parameter.
pub proof fn lemma_hierarchy_agrees_where_crossings_widen<
    H: Hittable,
    F: Fn(&AABB, &Ray) -> [Slab; 3],
>(
    bvh: BVH<H>,
    list: Seq<H>,
    crossings: F,
    ray: Ray,
    t_min: Real,
    t_max: Real,
    t0: Real,
    t1: Real,
    r: Option<HitRecord<H::Mat>>,
)
    requires
        bvh.wf(t0, t1),
        forall|i: int| 0 <= i < bvh.boxes().len() ==> (#[trigger] bvh.boxes()[i]).wf(),
        bvh.leaves().to_multiset() == list.to_multiset(),
        bvh.traverses(crossings, ray, t_min, t_max, r),
        widening(crossings, ray),
        bvh.fair_to_leaves(crossings, ray, t_min),
        all_steady(list, ray, t_min),
        !t_min.nan(),
        !t_max.nan(),
    ensures
        r is None <==> closest_hit(list, ray, t_min, t_max) is None,
        r matches Some(found) ==> (closest_hit(list, ray, t_min, t_max) matches Some(scanned)
            && found.t.ord() == scanned.t.ord()),
{
    lemma_widening_is_monotone(crossings, ray, t_min);
    lemma_prunes_soundly(bvh, crossings, ray, t_min, t0, t1);
    lemma_hierarchy_agrees_with_scan(bvh, list, crossings, ray, t_min, t_max, r);
}

} // verus!
