//! Spheres: their data, and which root of the intersection equation counts.

use vstd::prelude::*;
use crate::scalar::Real;
use crate::scalar::INFINITY_BITS;
use crate::vec3::Vec3;

verus! {

/// A sphere with the material of its surface.
pub struct Sphere<M> {
    pub center: Vec3,
    pub radius: Real,
    pub material: M,
}

impl<M> Sphere<M> {
    pub fn new(center: Vec3, radius: Real, material: M) -> (sphere: Sphere<M>)
        ensures
            sphere.center == center,
            sphere.radius == radius,
            sphere.material == material,
    {
        Sphere { center, radius, material }
    }
}

/// Whether a ray parameter lies in the window: it is not under the floor and
/// the ceiling is not under it.
pub open spec fn in_window(t: Real, t_min: Real, t_max: Real) -> bool {
    !t.spec_lt(t_min) && !t_max.spec_lt(t)
}

/// The root at which a ray hits a sphere: the nearer root where it lies in
/// the window, else the farther one where that does, else none. A negative
/// discriminant means that the ray passes the sphere by.
pub open spec fn root_in_window(
    discriminant: Real,
    near: Real,
    far: Real,
    t_min: Real,
    t_max: Real,
) -> Option<Real> {
    if discriminant.spec_lt(Real { bits: 0 }) {
        None
    } else if in_window(near, t_min, t_max) {
        Some(near)
    } else if in_window(far, t_min, t_max) {
        Some(far)
    } else {
        None
    }
}

/// Picks the ray parameter of a sphere hit.
///
/// `discriminant` is that of the intersection equation, `near` and `far` are
/// its smaller and its larger root.
pub fn nearest_root(discriminant: Real, near: Real, far: Real, t_min: Real, t_max: Real) -> (root:
    Option<Real>)
    ensures
        root == root_in_window(discriminant, near, far, t_min, t_max),
{
    if discriminant.lt(Real::zero()) {
        return None;
    }
    let mut root = near;
    if root.lt(t_min) || t_max.lt(root) {
        root = far;
        if root.lt(t_min) || t_max.lt(root) {
            return None;
        }
    }
    Some(root)
}

/// With a window and roots that are numbers, a root that is picked lies in
/// the window, and the nearer root is passed over only where it lies
/// outside.
pub proof fn lemma_root_in_window(
    discriminant: Real,
    near: Real,
    far: Real,
    t_min: Real,
    t_max: Real,
)
    requires
        !near.nan(),
        !far.nan(),
        !t_min.nan(),
        !t_max.nan(),
    ensures
        root_in_window(discriminant, near, far, t_min, t_max) matches Some(t) ==> t_min.spec_le(t)
            && t.spec_le(t_max) && (t == near || (t == far && !in_window(near, t_min, t_max))),
{
}

/// With roots in order and a floor that are numbers, the root that is
/// picked does not depend on the ceiling: under every numeric ceiling it is
/// the root picked under an infinite one, or none where that root lies
/// beyond the ceiling.
pub proof fn lemma_root_is_steady(
    discriminant: Real,
    near: Real,
    far: Real,
    t_min: Real,
    t_max: Real,
)
    requires
        near.spec_le(far),
        !t_min.nan(),
        !t_max.nan(),
    ensures
        root_in_window(discriminant, near, far, t_min, t_max) == (match root_in_window(
            discriminant,
            near,
            far,
            t_min,
            Real { bits: INFINITY_BITS },
        ) {
            Some(t) => if t.spec_le(t_max) {
                Some(t)
            } else {
                None
            },
            None => None,
        }),
{
}

} // verus!
