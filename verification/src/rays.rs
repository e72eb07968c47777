//! Rays: an origin point and a direction vector.
use crate::matrices::{s_mat_tuple, Matrix};
use crate::tuples::{s_add, s_scale, Tuple};
use vstd::prelude::*;

verus! {

#[derive(Clone, Copy, Debug, PartialEq, Eq, Structural, Hash)]
pub struct Ray {
    pub origin: Tuple,
    pub direction: Tuple,
}

/// A ray from a point along a vector.
pub fn ray(origin: &Tuple, direction: &Tuple) -> (r: Ray)
    ensures
        r == (Ray { origin: *origin, direction: *direction }),
{
    Ray { origin: *origin, direction: *direction }
}

/// The point reached after `t` along the ray.
pub open spec fn s_position(r: Ray, t: i64) -> Tuple {
    s_add(r.origin, s_scale(r.direction, t))
}

pub fn position(r: &Ray, t: i64) -> (p: Tuple)
    ensures
        p == s_position(*r, t),
{
    r.origin.add(&r.direction.scale(t))
}

/// The ray carried through a transform: both ends are mapped.
pub open spec fn s_transform(r: Ray, m: Matrix) -> Ray {
    Ray { origin: s_mat_tuple(m, r.origin), direction: s_mat_tuple(m, r.direction) }
}

pub fn transform(r: &Ray, m: &Matrix) -> (t: Ray)
    ensures
        t == s_transform(*r, *m),
{
    Ray { origin: m.mul_tuple(&r.origin), direction: m.mul_tuple(&r.direction) }
}

} // verus!
