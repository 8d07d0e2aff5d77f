//! The scene: the objects a ray is tested against, and the bounded walk of
//! a light path among them.

use vstd::prelude::*;
use rand::rngs::StdRng;
use crate::hittable::ceiling;
use crate::hittable::closest_hit;
use crate::hittable::prefer;
use crate::hittable::HitRecord;
use crate::hittable::Hittable;
use crate::material::Material;
use crate::material::MaterialResult;
use crate::ray::Ray;
use crate::scalar::Real;
use crate::scalar::INFINITY_BITS;
use crate::vec3::Vec3;

verus! {

/// The bit pattern of the least ray parameter at which a bounce may hit
/// (one thousandth): a ray must not hit the surface it has just left.
pub const BOUNCE_FLOOR_BITS: u32 = 0x3a83_126f;

/// A light path that has left the scene.
///
/// The colour it carries is the colour of the sky in the direction of
/// `escaped`, scaled channel by channel by every attenuation in turn.
pub struct LightPath {
    /// The attenuation of every bounce, from the first to the last.
    pub attenuations: Vec<Vec3>,
    /// The ray on which the path has left the scene.
    pub escaped: Ray,
}

/// The objects of a scene, in the order in which they are tested.
pub struct Scene<H> {
    pub objects: Vec<H>,
}

impl<H: Hittable> Scene<H> {
    /// Whether a ray hits nothing in the scene on a bounce.
    pub open spec fn misses(self, ray: Ray) -> bool {
        closest_hit(
            self.objects@,
            ray,
            Real { bits: BOUNCE_FLOOR_BITS },
            Real { bits: INFINITY_BITS },
        ) is None
    }

    pub fn new(objects: Vec<H>) -> (scene: Scene<H>)
        ensures
            scene.objects@ == objects@,
    {
        Scene { objects }
    }

    /// The hit that a scan of the objects in order keeps: each object is
    /// tested under the ceiling that the hits before it have left.
    pub fn hit(&self, rng: &mut StdRng, r: &Ray, t_min: Real, t_max: Real) -> (found: Option<
        HitRecord<H::Mat>,
    >)
        ensures
            found == closest_hit(self.objects@, *r, t_min, t_max),
            *final(rng) == *old(rng),
    {
        let mut hit_record: Option<HitRecord<H::Mat>> = None;
        let mut closest = t_max;
        let mut i: usize = 0;
        assert(self.objects@.subrange(0, 0) =~= Seq::<H>::empty());
        while i < self.objects.len()
            invariant
                i <= self.objects@.len(),
                hit_record == closest_hit(self.objects@.subrange(0, i as int), *r, t_min, t_max),
                closest == ceiling(hit_record, t_max),
            decreases self.objects@.len() - i,
        {
            let ghost before = hit_record;
            let ghost upto = self.objects@.subrange(0, i as int + 1);
            assert(upto.drop_last() =~= self.objects@.subrange(0, i as int));
            assert(upto.last() == self.objects@[i as int]);
            match self.objects[i].hit(r, t_min, closest) {
                Some(rec) => {
                    closest = rec.t;
                    hit_record = Some(rec);
                },
                None => {},
            }
            assert(hit_record == prefer(
                self.objects@[i as int].hit_spec(*r, t_min, ceiling(before, t_max)),
                before,
            ));
            i += 1;
        }
        assert(self.objects@.subrange(0, i as int) =~= self.objects@);
        hit_record
    }
}

/// In a scene without objects every ray hits nothing.
pub proof fn lemma_empty_scene_misses<H: Hittable>(scene: Scene<H>, ray: Ray)
    requires
        scene.objects@.len() == 0,
    ensures
        scene.misses(ray),
{
}

/// What one bounce adds to a path, given what the material has answered.
///
/// Where the material has absorbed the ray there is no ray to go on with,
/// and the path stays as it is. Otherwise the path is longer by the
/// attenuation of this bounce, and the walk goes on with the scattered ray.
pub fn bounce(attenuations: &mut Vec<Vec3>, answer: Option<MaterialResult>) -> (next: Option<Ray>)
    ensures
        answer is None ==> next is None && final(attenuations)@ == old(attenuations)@,
        answer matches Some(m) ==> next == Some(m.scattered) && final(attenuations)@ == old(
            attenuations,
        )@.push(m.attenuation),
{
    match answer {
        None => None,
        Some(scatter) => {
            attenuations.push(scatter.attenuation);
            Some(scatter.scattered)
        },
    }
}

/// What a walk has come to: the attenuations of its bounces and the ray on
/// which it has left the scene, or nothing where it has ended in darkness;
/// and the generator as the walk has left it.
pub type Walked = (Option<(Seq<Vec3>, Ray)>, StdRng);

/// A walk with the attenuations of earlier bounces put in front of its own.
pub open spec fn after(earlier: Seq<Vec3>, walked: Walked) -> Walked {
    match walked.0 {
        Some((attenuations, escaped)) => (Some((earlier + attenuations, escaped)), walked.1),
        None => (None, walked.1),
    }
}

/// The walk of a ray through the objects for at most `depth` bounces.
///
/// With no bounce left the walk ends in darkness. A ray that hits nothing,
/// from the bounce floor upwards, leaves the scene as it is. A ray that hits
/// a surface is handed to the material of the nearest hit, with the
/// generator as the walk has it: where the material absorbs the ray the walk
/// ends in darkness; otherwise the walk is the attenuation of this bounce
/// followed by the walk of the scattered ray with one bounce less.
pub open spec fn walk<H: Hittable>(objects: Seq<H>, rng: StdRng, ray: Ray, depth: nat) -> Walked where
    H::Mat: Material,

    decreases depth,
{
    if depth == 0 {
        (None, rng)
    } else {
        match closest_hit(
            objects,
            ray,
            Real { bits: BOUNCE_FLOOR_BITS },
            Real { bits: INFINITY_BITS },
        ) {
            None => (Some((Seq::<Vec3>::empty(), ray)), rng),
            Some(rec) => {
                let (answer, drawn) = rec.mat.scatter_spec(rng, ray, rec);
                match answer {
                    None => (None, drawn),
                    Some(m) => after(
                        seq![m.attenuation],
                        walk(objects, drawn, m.scattered, (depth - 1) as nat),
                    ),
                }
            },
        }
    }
}

/// Putting attenuations in front of a walk one bounce at a time is putting
/// them in front all at once.
pub proof fn lemma_after_push(earlier: Seq<Vec3>, attenuation: Vec3, walked: Walked)
    ensures
        after(earlier, after(seq![attenuation], walked)) == after(earlier.push(attenuation), walked),
{
    match walked.0 {
        Some((attenuations, escaped)) => {
            assert(earlier + (seq![attenuation] + attenuations) =~= earlier.push(attenuation)
                + attenuations);
        },
        None => {},
    }
}

impl<H: Hittable> Scene<H> where H::Mat: Material {
    /// Follows a ray through the scene for at most `depth` bounces.
    ///
    /// On every bounce the ray is tested against the scene from the bounce
    /// floor upwards. A ray that hits nothing leaves the scene, and the walk
    /// ends with the path so far. A ray that hits a surface is handed to
    /// that surface's material: where the material absorbs it the walk ends
    /// in darkness, otherwise it goes on with the scattered ray. A walk that
    /// has used up its bounces ends in darkness too.
    ///
    /// `None` is darkness. The path and the generator come out as `walk`
    /// says. In particular, with no bounce allowed there is only darkness
    /// and nothing is drawn; a ray that hits nothing at once escapes as it
    /// came; and the ray on which any path escapes hits nothing.
    pub fn raytrace(&self, rng: &mut StdRng, ray: &Ray, depth: usize) -> (path: Option<LightPath>)
        ensures
            *final(rng) == walk(self.objects@, *old(rng), *ray, depth as nat).1,
            match path {
                Some(p) => walk(self.objects@, *old(rng), *ray, depth as nat).0 == Some(
                    (p.attenuations@, p.escaped),
                ),
                None => walk(self.objects@, *old(rng), *ray, depth as nat).0 is None,
            },
            depth == 0 ==> path is None && *final(rng) == *old(rng),
            depth > 0 && self.misses(*ray) ==> path is Some,
            path matches Some(p) ==> {
                &&& self.misses(p.escaped)
                &&& p.attenuations@.len() < depth
                &&& (p.attenuations@.len() == 0 <==> self.misses(*ray))
                &&& p.attenuations@.len() == 0 ==> p.escaped == *ray
            },
    {
        let ghost start = *rng;
        let mut attenuations: Vec<Vec3> = Vec::new();
        let mut current = *ray;
        let mut remaining = depth;
        assert(after(attenuations@, walk(self.objects@, start, *ray, depth as nat)) == walk(
            self.objects@,
            start,
            *ray,
            depth as nat,
        )) by {
            match walk(self.objects@, start, *ray, depth as nat).0 {
                Some((all, escaped)) => {
                    assert(attenuations@ + all =~= all);
                },
                None => {},
            }
        }
        while remaining > 0
            invariant
                start == *old(rng),
                remaining <= depth,
                attenuations@.len() == depth - remaining,
                attenuations@.len() == 0 ==> current == *ray && *rng == start,
                attenuations@.len() > 0 ==> !self.misses(*ray),
                walk(self.objects@, start, *ray, depth as nat) == after(
                    attenuations@,
                    walk(self.objects@, *rng, current, remaining as nat),
                ),
            decreases remaining,
        {
            let ghost earlier = attenuations@;
            let ghost before = *rng;
            let found = self.hit(
                rng,
                &current,
                Real::from_bits(BOUNCE_FLOOR_BITS),
                Real::infinity(),
            );
            match found {
                None => {
                    assert(earlier + Seq::<Vec3>::empty() =~= earlier);
                    return Some(LightPath { attenuations, escaped: current });
                },
                Some(rec) => {
                    let answer = rec.mat.scatter(rng, &current, &rec);
                    let ghost m = answer;
                    match bounce(&mut attenuations, answer) {
                        None => {
                            return None;
                        },
                        Some(scattered) => {
                            proof {
                                lemma_after_push(
                                    earlier,
                                    m->0.attenuation,
                                    walk(
                                        self.objects@,
                                        *rng,
                                        scattered,
                                        (remaining - 1) as nat,
                                    ),
                                );
                            }
                            current = scattered;
                            remaining -= 1;
                        },
                    }
                },
            }
        }
        None
    }
}

} // verus!
