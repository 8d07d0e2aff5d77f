//! Surface materials: what becomes of a ray where it meets a surface.

use vstd::prelude::*;
use rand::rngs::StdRng;
use crate::hittable::HitRecord;
use crate::ray::Ray;
use crate::scalar::Real;
use crate::vec3::Vec3;

verus! {

/// A ray that a surface has sent on, and how much of each colour channel it
/// carries.
pub struct MaterialResult {
    pub attenuation: Vec3,
    pub scattered: Ray,
}

/// A surface material.
///
/// `scatter` sends the incoming ray on, or returns `None` where the surface
/// absorbs it. It may draw from the generator: its answer and the state in
/// which it leaves the generator are functions of the material, the state in
/// which it finds the generator, the ray and the hit. `scatter_spec` names
/// them; an implementation in compiled code lets it return what `scatter`
/// returns and leaves.
pub trait Material: Sized + Send + Sync {
    /// What `scatter` answers, and the generator as it leaves it.
    spec fn scatter_spec(&self, rng: StdRng, ray: Ray, hit_record: HitRecord<Self>) -> (
        Option<MaterialResult>,
        StdRng,
    );

    /// What becomes of the ray at the hit.
    fn scatter(&self, rng: &mut StdRng, ray: &Ray, hit_record: &HitRecord<Self>) -> (r: Option<
        MaterialResult,
    >)
        ensures
            (r, *final(rng)) == self.scatter_spec(*old(rng), *ray, *hit_record),
    ;
}

/// The bit pattern of one: the product over which a ray cannot be
/// refracted, and the value of every channel of white.
pub const ONE_BITS: u32 = 0x3f80_0000;

/// A diffuse surface of one colour.
#[derive(Clone, Copy, Debug)]
pub struct Lambertian {
    pub albedo: Vec3,
}

impl Lambertian {
    /// The scattered ray of a diffuse bounce at `pos`.
    ///
    /// `candidate` is the unit surface normal displaced by a random unit
    /// vector, and `direction` is `candidate` brought to unit length. Where
    /// normal and displacement all but cancel, the ray leaves along the
    /// normal.
    pub fn scatter_with(&self, pos: Vec3, normal: Vec3, candidate: Vec3, direction: Vec3) -> (r:
        MaterialResult)
        ensures
            r.attenuation == self.albedo,
            r.scattered.origin == pos,
            r.scattered.dir == if candidate.spec_near_zero() {
                normal
            } else {
                direction
            },
    {
        let mut scatter_direction = direction;
        if candidate.near_zero() {
            scatter_direction = normal;
        }
        MaterialResult {
            scattered: Ray { origin: pos, dir: scatter_direction },
            attenuation: self.albedo,
        }
    }
}

/// A mirroring surface of one colour, roughened by `fuzz`.
#[derive(Clone, Copy, Debug)]
pub struct Metal {
    pub albedo: Vec3,
    /// The roughness of the surface: how far a random point of the unit
    /// sphere displaces the mirrored direction. Zero is a perfect mirror.
    pub fuzz: Real,
}

impl Metal {
    /// A metal of the given colour and roughness.
    pub fn new(albedo: Vec3, fuzz: Real) -> (metal: Metal)
        ensures
            metal.albedo == albedo,
            metal.fuzz == fuzz,
    {
        Metal { albedo, fuzz }
    }

    /// The scattered ray of a reflection at `pos`.
    ///
    /// `direction` is the mirrored direction displaced by the roughness
    /// times a random point of the unit sphere, brought to unit length;
    /// `facing` is its dot product with the surface normal. A ray that would
    /// go on along or beneath the surface is absorbed.
    pub fn scatter_with(&self, pos: Vec3, direction: Vec3, facing: Real) -> (r: Option<
        MaterialResult,
    >)
        ensures
            r is Some <==> (Real { bits: 0 }).spec_lt(facing),
            r matches Some(m) ==> m.attenuation == self.albedo && m.scattered.origin == pos
                && m.scattered.dir == direction,
    {
        if facing.gt(Real::zero()) {
            Some(MaterialResult { scattered: Ray { origin: pos, dir: direction }, attenuation: self.albedo })
        } else {
            None
        }
    }
}

/// A clear refracting surface.
#[derive(Clone, Copy, Debug)]
pub struct Dielectric {
    /// The index of refraction.
    pub ir: Real,
}

impl Dielectric {
    pub fn new(ir: Real) -> (glass: Dielectric)
        ensures
            glass.ir == ir,
    {
        Dielectric { ir }
    }

    /// The refraction ratio at a surface: a ray that comes from outside
    /// passes from air into the glass, at the reciprocal of the index; a ray
    /// that comes from within passes out of it, at the index itself.
    /// `reciprocal` is one over the index.
    pub fn ratio(&self, front_face: bool, reciprocal: Real) -> (r: Real)
        ensures
            r == if front_face {
                reciprocal
            } else {
                self.ir
            },
    {
        if front_face {
            reciprocal
        } else {
            self.ir
        }
    }

    /// Whether a ray is mirrored rather than refracted: it cannot be
    /// refracted where `bend`, the refraction ratio times the sine of the
    /// angle of incidence, is over one, and it is mirrored by chance where
    /// the reflectance is over the number drawn.
    pub open spec fn spec_reflects(bend: Real, reflectance: Real, draw: Real) -> bool {
        (Real { bits: ONE_BITS }).spec_lt(bend) || draw.spec_lt(reflectance)
    }

    /// Whether a ray is mirrored rather than refracted.
    #[verifier::when_used_as_spec(spec_reflects)]
    pub fn reflects(bend: Real, reflectance: Real, draw: Real) -> (r: bool)
        ensures
            r == Self::spec_reflects(bend, reflectance, draw),
    {
        bend.gt(Real::from_bits(ONE_BITS)) || reflectance.gt(draw)
    }

    /// The scattered ray at `pos`: the mirrored direction where the ray is
    /// mirrored, the refracted one otherwise, both handed in at unit length.
    /// Glass takes nothing from the light.
    pub fn scatter_with(
        pos: Vec3,
        reflected: Vec3,
        refracted: Vec3,
        bend: Real,
        reflectance: Real,
        draw: Real,
    ) -> (r: MaterialResult)
        ensures
            r.attenuation == (Vec3 {
                x: Real { bits: ONE_BITS },
                y: Real { bits: ONE_BITS },
                z: Real { bits: ONE_BITS },
            }),
            r.scattered.origin == pos,
            r.scattered.dir == if Self::spec_reflects(bend, reflectance, draw) {
                reflected
            } else {
                refracted
            },
    {
        let direction = if Dielectric::reflects(bend, reflectance, draw) {
            reflected
        } else {
            refracted
        };
        let one = Real::from_bits(ONE_BITS);
        MaterialResult {
            attenuation: Vec3::new(one, one, one),
            scattered: Ray { origin: pos, dir: direction },
        }
    }
}

} // verus!
