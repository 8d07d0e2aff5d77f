//! Portals: two spheres, each of which sends the rays that reach it on from
//! the place of the other.

use vstd::prelude::*;
use rand::rngs::StdRng;
use crate::aabb::AABB;
use crate::hittable::ceiling;
use crate::hittable::closest_hit;
use crate::hittable::prefer;
use crate::hittable::HitRecord;
use crate::hittable::Hittable;
use crate::material::Material;
use crate::material::MaterialResult;
use crate::ray::Ray;
use crate::scalar::Real;
use crate::sphere::Sphere;
use crate::vec3::Vec3;

verus! {

/// The bit pattern of the radius of a portal's spheres (one half).
pub const PORTAL_RADIUS_BITS: u32 = 0x3f00_0000;

/// The bit pattern of one, the value of every channel of white.
pub const WHITE_BITS: u32 = 0x3f80_0000;

/// The material of one end of a portal: it holds the place of the other end.
#[derive(Clone, Copy, Debug)]
pub struct PortalMaterial {
    pub other_portal_pos: Vec3,
}

impl PortalMaterial {
    /// What becomes of a ray at this end: it goes on from the other end in
    /// the direction in which it came, and loses nothing.
    pub open spec fn relocate(self, ray: Ray) -> MaterialResult {
        MaterialResult {
            attenuation: Vec3 {
                x: Real { bits: WHITE_BITS },
                y: Real { bits: WHITE_BITS },
                z: Real { bits: WHITE_BITS },
            },
            scattered: Ray { origin: self.other_portal_pos, dir: ray.dir },
        }
    }
}

impl Material for PortalMaterial {
    /// A portal draws nothing: the ray goes on from the other end, and the
    /// generator stays as it was.
    open spec fn scatter_spec(&self, rng: StdRng, ray: Ray, hit_record: HitRecord<Self>) -> (
        Option<MaterialResult>,
        StdRng,
    ) {
        (Some(self.relocate(ray)), rng)
    }

    fn scatter(&self, rng: &mut StdRng, ray: &Ray, hit_record: &HitRecord<Self>) -> (r: Option<
        MaterialResult,
    >) {
        let _ = hit_record;
        let white = Real::from_bits(WHITE_BITS);
        Some(
            MaterialResult {
                attenuation: Vec3::new(white, white, white),
                scattered: Ray { origin: self.other_portal_pos, dir: ray.direction() },
            },
        )
    }
}

/// The two spheres of a portal between two places: each stands at its own
/// place and sends rays on to the place of the other.
pub fn portal_spheres(portal_1_pos: Vec3, portal_2_pos: Vec3) -> (ends: (
    Sphere<PortalMaterial>,
    Sphere<PortalMaterial>,
))
    ensures
        ends.0.center == portal_1_pos,
        ends.0.material.other_portal_pos == portal_2_pos,
        ends.1.center == portal_2_pos,
        ends.1.material.other_portal_pos == portal_1_pos,
        ends.0.radius.bits == PORTAL_RADIUS_BITS,
        ends.1.radius.bits == PORTAL_RADIUS_BITS,
{
    (
        Sphere::new(
            portal_1_pos,
            Real::from_bits(PORTAL_RADIUS_BITS),
            PortalMaterial { other_portal_pos: portal_2_pos },
        ),
        Sphere::new(
            portal_2_pos,
            Real::from_bits(PORTAL_RADIUS_BITS),
            PortalMaterial { other_portal_pos: portal_1_pos },
        ),
    )
}

/// A portal: its two ends, as objects that a ray can hit.
pub struct Portal<S> {
    pub portal1: S,
    pub portal2: S,
}

impl<S: Hittable> Portal<S> {
    pub fn new(portal1: S, portal2: S) -> (portal: Portal<S>)
        ensures
            portal.portal1 == portal1,
            portal.portal2 == portal2,
    {
        Portal { portal1, portal2 }
    }
}

impl<S: Hittable> Hittable for Portal<S> {
    type Mat = S::Mat;

    /// The nearer of the hits on the two ends: the first end is tested, then
    /// the second under the ceiling that the first has left.
    open spec fn hit_spec(&self, ray: Ray, t_min: Real, t_max: Real) -> Option<HitRecord<S::Mat>> {
        let first = self.portal1.hit_spec(ray, t_min, t_max);
        prefer(self.portal2.hit_spec(ray, t_min, ceiling(first, t_max)), first)
    }

    /// A portal has no box of its own.
    open spec fn box_spec(&self, t0: Real, t1: Real) -> Option<AABB> {
        None
    }

    fn hit(&self, ray: &Ray, t_min: Real, t_max: Real) -> (r: Option<HitRecord<S::Mat>>) {
        let mut hit_record: Option<HitRecord<S::Mat>> = None;
        let mut closest = t_max;
        match self.portal1.hit(ray, t_min, closest) {
            Some(rec) => {
                closest = rec.t;
                hit_record = Some(rec);
            },
            None => {},
        }
        match self.portal2.hit(ray, t_min, closest) {
            Some(rec) => {
                hit_record = Some(rec);
            },
            None => {},
        }
        hit_record
    }

    fn bounding_box(&self, t0: Real, t1: Real) -> (r: Option<AABB>) {
        let _ = t0;
        let _ = t1;
        None
    }
}

/// A portal's hit is what a scan of its two ends keeps.
pub proof fn lemma_portal_hit_is_scan<S: Hittable>(
    portal: Portal<S>,
    ray: Ray,
    t_min: Real,
    t_max: Real,
)
    ensures
        portal.hit_spec(ray, t_min, t_max) == closest_hit(
            seq![portal.portal1, portal.portal2],
            ray,
            t_min,
            t_max,
        ),
{
    let both = seq![portal.portal1, portal.portal2];
    let one = seq![portal.portal1];
    assert(both.drop_last() =~= one);
    assert(one.drop_last() =~= Seq::<S>::empty());
    assert(closest_hit(one, ray, t_min, t_max) == portal.portal1.hit_spec(ray, t_min, t_max)) by {
        assert(closest_hit(Seq::<S>::empty(), ray, t_min, t_max) is None);
    }
}

} // verus!
