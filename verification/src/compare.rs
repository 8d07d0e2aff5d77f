//! The order of two objects along an axis.

use vstd::prelude::*;
use std::cmp::Ordering;
use crate::aabb::AABB;
use crate::hittable::Hittable;
use crate::scalar::Real;

verus! {

/// The order of two scalars as numbers; none where either is not a number.
pub open spec fn partial_order(p: Real, q: Real) -> Option<Ordering> {
    if p.spec_lt(q) {
        Some(Ordering::Less)
    } else if q.spec_lt(p) {
        Some(Ordering::Greater)
    } else if p.spec_le(q) {
        Some(Ordering::Equal)
    } else {
        None
    }
}

/// The order of two boxes along an axis, by their least coordinates, where
/// both are there.
pub open spec fn box_order(a: Option<AABB>, b: Option<AABB>, axis: u8) -> Option<Ordering> {
    match (a, b) {
        (Some(box_a), Some(box_b)) => partial_order(box_a.min_on(axis), box_b.min_on(axis)),
        _ => None,
    }
}

/// Compares two objects by the least coordinates of their boxes on an axis.
/// There is no order where an object has no box, or where a coordinate is
/// not a number.
pub fn box_compare<H: Hittable>(a: &H, b: &H, axis: u8) -> (r: Option<Ordering>)
    requires
        axis < 3,
    ensures
        r == box_order(
            a.box_spec(Real { bits: 0 }, Real { bits: 0 }),
            b.box_spec(Real { bits: 0 }, Real { bits: 0 }),
            axis,
        ),
{
    let box_a = a.bounding_box(Real::zero(), Real::zero());
    let box_b = b.bounding_box(Real::zero(), Real::zero());
    match (box_a, box_b) {
        (Some(box_a), Some(box_b)) => {
            let p = box_a.min.get(axis);
            let q = box_b.min.get(axis);
            if p.lt(q) {
                Some(Ordering::Less)
            } else if q.lt(p) {
                Some(Ordering::Greater)
            } else if p.le(q) {
                Some(Ordering::Equal)
            } else {
                None
            }
        },
        _ => None,
    }
}

} // verus!
