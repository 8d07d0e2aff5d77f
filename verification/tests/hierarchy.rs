use rand::rngs::StdRng;
use rand::SeedableRng;
use raytracer::aabb::AABB;
use raytracer::bvh::BVHNode;
use raytracer::bvh::BVH;
use raytracer::compare::box_compare;
use raytracer::hittable::HitRecord;
use raytracer::hittable::Hittable;
use raytracer::ray::Ray;
use raytracer::scalar::Real;
use raytracer::scene::Scene;
use raytracer::slab::Slab;
use raytracer::sphere::nearest_root;
use raytracer::vec3::Vec3;
use std::cmp::Ordering;

fn scalar(x: f32) -> Real {
    Real::from_bits(x.to_bits())
}

fn value(r: Real) -> f32 {
    f32::from_bits(r.to_bits())
}

fn vec3(v: [f32; 3]) -> Vec3 {
    Vec3::new(scalar(v[0]), scalar(v[1]), scalar(v[2]))
}

fn triple(v: Vec3) -> [f32; 3] {
    [value(v.x), value(v.y), value(v.z)]
}

fn dot(a: [f32; 3], b: [f32; 3]) -> f32 {
    a[0] * b[0] + a[1] * b[1] + a[2] * b[2]
}

fn ray(origin: [f32; 3], dir: [f32; 3]) -> Ray {
    let len: f32 = dot(dir, dir).sqrt();
    Ray { origin: vec3(origin), dir: vec3([dir[0] / len, dir[1] / len, dir[2] / len]) }
}

/// A sphere that knows its number, and may lack a box.
#[derive(Clone)]
struct Ball {
    center: [f32; 3],
    radius: f32,
    tag: usize,
    boxed: bool,
}

fn ball(center: [f32; 3], radius: f32, tag: usize) -> Ball {
    Ball { center, radius, tag, boxed: true }
}

impl Hittable for Ball {
    type Mat = usize;

    fn hit_spec(&self, ray: Ray, t_min: Real, t_max: Real) -> Option<HitRecord<usize>> {
        self.hit(&ray, t_min, t_max)
    }

    fn box_spec(&self, t0: Real, t1: Real) -> Option<AABB> {
        self.bounding_box(t0, t1)
    }

    fn hit(&self, ray: &Ray, t_min: Real, t_max: Real) -> Option<HitRecord<usize>> {
        let o = triple(ray.origin());
        let d = triple(ray.direction());
        let oc = [o[0] - self.center[0], o[1] - self.center[1], o[2] - self.center[2]];
        let a: f32 = dot(d, d);
        let half_b: f32 = dot(oc, d);
        let c: f32 = dot(oc, oc) - self.radius * self.radius;
        let discriminant: f32 = half_b * half_b - a * c;
        let sqrtd: f32 = discriminant.sqrt();
        let near: f32 = (-half_b - sqrtd) / a;
        let far: f32 = (-half_b + sqrtd) / a;
        let t = value(nearest_root(scalar(discriminant), scalar(near), scalar(far), t_min, t_max)?);
        let pos = [o[0] + d[0] * t, o[1] + d[1] * t, o[2] + d[2] * t];
        let outward = [
            (pos[0] - self.center[0]) / self.radius,
            (pos[1] - self.center[1]) / self.radius,
            (pos[2] - self.center[2]) / self.radius,
        ];
        let mut rec = HitRecord {
            pos: vec3(pos),
            normal: vec3(outward),
            t: scalar(t),
            front_face: false,
            mat: self.tag,
        };
        rec.set_face_normal(scalar(dot(d, outward)), vec3(outward));
        Some(rec)
    }

    fn bounding_box(&self, _t0: Real, _t1: Real) -> Option<AABB> {
        if !self.boxed {
            return None;
        }
        let r = self.radius;
        Some(AABB {
            min: vec3([self.center[0] - r, self.center[1] - r, self.center[2] - r]),
            max: vec3([self.center[0] + r, self.center[1] + r, self.center[2] + r]),
        })
    }
}

fn crossings(b: &AABB, r: &Ray) -> [Slab; 3] {
    let lo = triple(b.min);
    let hi = triple(b.max);
    let o = triple(r.origin());
    let d = triple(r.direction());
    let mut slabs = [Slab { inv_d: scalar(0.0), t0: scalar(0.0), t1: scalar(0.0) }; 3];
    for a in 0..3usize {
        let inv_d: f32 = 1.0 / d[a];
        slabs[a] = Slab {
            inv_d: scalar(inv_d),
            t0: scalar((lo[a] - o[a]) * inv_d),
            t1: scalar((hi[a] - o[a]) * inv_d),
        };
    }
    slabs
}

/// A small generator of its own, so that the rays are the same on every run.
struct Lcg(u64);

impl Lcg {
    fn next(&mut self) -> f32 {
        self.0 = self.0.wrapping_mul(6364136223846793005).wrapping_add(1442695040888963407);
        ((self.0 >> 40) as f32) / ((1u64 << 24) as f32)
    }

    fn between(&mut self, lo: f32, hi: f32) -> f32 {
        lo + (hi - lo) * self.next()
    }
}

fn grid(n: usize) -> Vec<Ball> {
    let mut balls: Vec<Ball> = Vec::new();
    for i in 0..n {
        let x: f32 = (i % 4) as f32 * 3.0;
        let y: f32 = ((i / 4) % 4) as f32 * 3.0;
        let z: f32 = (i / 16) as f32 * 3.0;
        balls.push(ball([x, y, z], 0.5 + 0.125 * ((i % 3) as f32), i));
    }
    balls
}

fn leaves(node: &BVH<Ball>, out: &mut Vec<usize>) {
    match &node.node {
        BVHNode::Branch { left, right } => {
            leaves(left, out);
            leaves(right, out);
        },
        BVHNode::Leaf(b) => out.push(b.tag),
    }
}

fn leaf_boxes(node: &BVH<Ball>, out: &mut Vec<AABB>) {
    match &node.node {
        BVHNode::Branch { left, right } => {
            leaf_boxes(left, out);
            leaf_boxes(right, out);
        },
        BVHNode::Leaf(_) => out.push(node.aabb),
    }
}

fn check_shape(node: &BVH<Ball>) {
    match &node.node {
        BVHNode::Branch { left, right } => {
            check_shape(left);
            check_shape(right);
            let mut l: Vec<AABB> = Vec::new();
            let mut r: Vec<AABB> = Vec::new();
            leaf_boxes(left, &mut l);
            leaf_boxes(right, &mut r);
            assert_eq!(l.len(), (l.len() + r.len()) / 2);
            for k in 0..3usize {
                assert_eq!(
                    value(node.aabb.min.get(k as u8)),
                    value(left.aabb.min.get(k as u8)).min(value(right.aabb.min.get(k as u8)))
                );
                assert_eq!(
                    value(node.aabb.max.get(k as u8)),
                    value(left.aabb.max.get(k as u8)).max(value(right.aabb.max.get(k as u8)))
                );
            }
            let split = (0..3u8).any(|axis| {
                l.iter().all(|a| r.iter().all(|b| value(a.min.get(axis)) <= value(b.min.get(axis))))
            });
            assert!(split, "no axis separates the two halves");
        },
        BVHNode::Leaf(b) => {
            let own = b.bounding_box(scalar(0.0), scalar(0.0)).unwrap();
            assert_eq!(triple(node.aabb.min), triple(own.min));
            assert_eq!(triple(node.aabb.max), triple(own.max));
        },
    }
}

#[test]
fn no_hierarchy_over_an_empty_list() {
    let mut rng = StdRng::seed_from_u64(1);
    let list: Vec<Ball> = Vec::new();
    assert!(BVH::new(&mut rng, list, scalar(0.0), scalar(0.0)).is_none());
}

#[test]
fn no_hierarchy_over_an_object_without_a_box() {
    let mut rng = StdRng::seed_from_u64(1);
    let mut lone = ball([0.0, 0.0, 0.0], 1.0, 0);
    lone.boxed = false;
    assert!(BVH::new(&mut rng, vec![lone.clone()], scalar(0.0), scalar(0.0)).is_none());
    let mut list = grid(5);
    list.insert(3, lone);
    assert!(BVH::new(&mut rng, list, scalar(0.0), scalar(0.0)).is_none());
}

#[test]
fn one_object_becomes_a_leaf_with_its_own_box() {
    let mut rng = StdRng::seed_from_u64(1);
    let tree = BVH::new(&mut rng, vec![ball([1.0, 2.0, 3.0], 0.5, 7)], scalar(0.0), scalar(0.0)).unwrap();
    assert!(matches!(&tree.node, BVHNode::Leaf(b) if b.tag == 7));
    assert_eq!(triple(tree.aabb.min), [0.5, 1.5, 2.5]);
    assert_eq!(triple(tree.aabb.max), [1.5, 2.5, 3.5]);
    let cached = tree.bounding_box(scalar(0.0), scalar(0.0)).unwrap();
    assert_eq!(triple(cached.min), [0.5, 1.5, 2.5]);
}

#[test]
fn two_objects_go_one_to_each_side() {
    for seed in 0..8u64 {
        let mut rng = StdRng::seed_from_u64(seed);
        let list = vec![ball([5.0, 5.0, 5.0], 1.0, 0), ball([0.0, 0.0, 0.0], 1.0, 1)];
        let tree = BVH::new(&mut rng, list, scalar(0.0), scalar(0.0)).unwrap();
        match &tree.node {
            BVHNode::Branch { left, right } => {
                assert!(matches!(&left.node, BVHNode::Leaf(b) if b.tag == 1));
                assert!(matches!(&right.node, BVHNode::Leaf(b) if b.tag == 0));
            },
            BVHNode::Leaf(_) => panic!("two objects in one leaf"),
        }
        assert_eq!(triple(tree.aabb.min), [-1.0, -1.0, -1.0]);
        assert_eq!(triple(tree.aabb.max), [6.0, 6.0, 6.0]);
    }
}

#[test]
fn every_object_sits_in_exactly_one_leaf() {
    for n in 1..40usize {
        let mut rng = StdRng::seed_from_u64(n as u64);
        let tree = BVH::new(&mut rng, grid(n), scalar(0.0), scalar(0.0)).unwrap();
        let mut tags: Vec<usize> = Vec::new();
        leaves(&tree, &mut tags);
        tags.sort();
        assert_eq!(tags, (0..n).collect::<Vec<usize>>());
    }
}

#[test]
fn every_branch_splits_at_the_midpoint_along_an_axis() {
    for n in 1..40usize {
        let mut rng = StdRng::seed_from_u64(100 + n as u64);
        let mut list = grid(n);
        list.reverse();
        let tree = BVH::new(&mut rng, list, scalar(0.0), scalar(0.0)).unwrap();
        check_shape(&tree);
    }
}

#[test]
fn hierarchy_finds_what_a_scan_of_all_spheres_finds() {
    let mut rays = Lcg(7);
    for n in 1..34usize {
        let mut rng = StdRng::seed_from_u64(n as u64);
        let tree = BVH::new(&mut rng, grid(n), scalar(0.0), scalar(0.0)).unwrap();
        let scene = Scene::new(grid(n));
        for _ in 0..200 {
            let origin = [rays.between(-4.0, 13.0), rays.between(-4.0, 13.0), rays.between(-6.0, 10.0)];
            let target = [rays.between(0.0, 9.0), rays.between(0.0, 9.0), rays.between(0.0, 6.0)];
            let r = ray(origin, [target[0] - origin[0], target[1] - origin[1], target[2] - origin[2]]);
            let t_max: f32 = if rays.next() < 0.5 { f32::INFINITY } else { rays.between(0.0, 12.0) };
            let fast = tree.hit(&crossings, &r, scalar(0.001), scalar(t_max));
            let slow = scene.hit(&mut rng, &r, scalar(0.001), scalar(t_max));
            match (fast, slow) {
                (None, None) => {},
                (Some(a), Some(b)) => {
                    assert_eq!(a.t.to_bits(), b.t.to_bits());
                    assert_eq!(a.mat, b.mat);
                    assert_eq!(triple(a.pos), triple(b.pos));
                    assert_eq!(triple(a.normal), triple(b.normal));
                    assert_eq!(a.front_face, b.front_face);
                    assert!(0.001 <= value(a.t) && value(a.t) <= t_max);
                },
                (a, b) => panic!("hierarchy found {:?}, scan found {:?}", a.map(|h| h.mat), b.map(|h| h.mat)),
            }
        }
    }
}

#[test]
fn traversal_goes_no_further_where_the_slab_test_fails() {
    let mut rng = StdRng::seed_from_u64(3);
    let tree = BVH::new(&mut rng, grid(8), scalar(0.0), scalar(0.0)).unwrap();
    let r = ray([0.0, 0.0, -5.0], [0.0, 0.0, 1.0]);
    let shut = Slab { inv_d: scalar(1.0), t0: scalar(1.0), t1: scalar(0.0) };
    let open = Slab { inv_d: scalar(1.0), t0: scalar(f32::NEG_INFINITY), t1: scalar(f32::INFINITY) };
    let never = |_b: &AABB, _r: &Ray| [shut; 3];
    let always = |_b: &AABB, _r: &Ray| [open; 3];
    assert!(tree.hit(&never, &r, scalar(0.001), scalar(f32::INFINITY)).is_none());
    let found = tree.hit(&always, &r, scalar(0.001), scalar(f32::INFINITY)).unwrap();
    assert_eq!(found.mat, 0);
    assert_eq!(value(found.t), 4.5);
}

#[test]
fn scan_keeps_the_nearest_hit_and_the_later_of_equals() {
    let mut rng = StdRng::seed_from_u64(0);
    let r = ray([0.0, 0.0, 10.0], [0.0, 0.0, -1.0]);
    let scene = Scene::new(vec![
        ball([0.0, 0.0, 0.0], 1.0, 0),
        ball([0.0, 0.0, 4.0], 1.0, 1),
        ball([0.0, 0.0, -4.0], 1.0, 2),
        ball([0.0, 0.0, 4.0], 1.0, 3),
    ]);
    let found = scene.hit(&mut rng, &r, scalar(0.001), scalar(f32::INFINITY)).unwrap();
    assert_eq!(found.mat, 3);
    assert_eq!(value(found.t), 5.0);
    let beyond = scene.hit(&mut rng, &r, scalar(5.5), scalar(f32::INFINITY)).unwrap();
    assert_eq!(beyond.mat, 3);
    assert_eq!(value(beyond.t), 7.0);
    assert!(scene.hit(&mut rng, &r, scalar(0.001), scalar(4.0)).is_none());
    let empty: Scene<Ball> = Scene::new(Vec::new());
    assert!(empty.hit(&mut rng, &r, scalar(0.001), scalar(f32::INFINITY)).is_none());
}

#[test]
fn boxes_compare_by_their_least_coordinates() {
    let a = ball([0.0, 5.0, 1.0], 1.0, 0);
    let b = ball([3.0, 2.0, 1.0], 1.0, 1);
    assert_eq!(box_compare(&a, &b, 0), Some(Ordering::Less));
    assert_eq!(box_compare(&a, &b, 1), Some(Ordering::Greater));
    assert_eq!(box_compare(&a, &b, 2), Some(Ordering::Equal));
    let mut bare = ball([0.0, 0.0, 0.0], 1.0, 2);
    bare.boxed = false;
    assert_eq!(box_compare(&a, &bare, 0), None);
    assert_eq!(box_compare(&bare, &a, 0), None);
    let lost = ball([f32::NAN, 0.0, 0.0], 1.0, 3);
    assert_eq!(box_compare(&a, &lost, 0), None);
    assert_eq!(box_compare(&a, &lost, 1), Some(Ordering::Greater));
}

#[test]
fn the_split_axis_is_drawn_among_all_three() {
    // The least of the three on x is 0, on y it is 2, on z it is 1: the
    // object that goes left alone tells the axis that was drawn.
    let mut seen = [false; 3];
    for seed in 0..64u64 {
        let mut rng = StdRng::seed_from_u64(seed);
        let list = vec![
            ball([0.0, 3.0, 6.0], 1.0, 0),
            ball([3.0, 6.0, 0.0], 1.0, 1),
            ball([6.0, 0.0, 3.0], 1.0, 2),
        ];
        let tree = BVH::new(&mut rng, list, scalar(0.0), scalar(0.0)).unwrap();
        match &tree.node {
            BVHNode::Branch { left, right } => {
                let lone = match &left.node {
                    BVHNode::Leaf(b) => b.tag,
                    BVHNode::Branch { .. } => panic!("the lower half of three is one object"),
                };
                let axis: usize = [0usize, 2, 1][lone];
                seen[axis] = true;
                let mut rest: Vec<usize> = Vec::new();
                leaves(right, &mut rest);
                assert_eq!(rest.len(), 2);
            },
            BVHNode::Leaf(_) => panic!("three objects in one leaf"),
        }
    }
    assert_eq!(seen, [true, true, true]);
}

#[test]
fn boxes_that_are_not_numbers_are_sorted_last() {
    for seed in 0..8u64 {
        let mut rng = StdRng::seed_from_u64(seed);
        let list = vec![
            ball([f32::NAN, f32::NAN, f32::NAN], 1.0, 0),
            ball([1.0, 1.0, 1.0], 1.0, 1),
            ball([0.0, 0.0, 0.0], 1.0, 2),
        ];
        let tree = BVH::new(&mut rng, list, scalar(0.0), scalar(0.0)).unwrap();
        let mut tags: Vec<usize> = Vec::new();
        leaves(&tree, &mut tags);
        assert_eq!(tags, vec![2, 1, 0]);
    }
}
