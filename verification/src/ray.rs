//! Rays: an origin and a direction.

use vstd::prelude::*;
use crate::vec3::Vec3;

verus! {

/// A half-line through the scene. Ray parameters measure distance along
/// `dir`, which whoever makes the ray keeps at unit length.
#[derive(Clone, Copy, Debug)]
pub struct Ray {
    pub origin: Vec3,
    pub dir: Vec3,
}

impl Ray {
    pub fn origin(&self) -> (o: Vec3)
        ensures
            o == self.origin,
    {
        self.origin
    }

    pub fn direction(&self) -> (d: Vec3)
        ensures
            d == self.dir,
    {
        self.dir
    }
}

} // verus!
