//! Rays and the record of a ray/surface intersection.

use vstd::prelude::*;
use crate::fix::{in_range, SCALE};
use crate::materials::{m_ok, Material};
use crate::vec3::{p_ok, v_add, v_scale, Point3D};

verus! {

/// A directed half-line: origin plus direction scaled by the parameter.
#[derive(Clone, Copy, Debug)]
pub struct Ray {
    pub origin: Point3D,
    pub direction: Point3D,
}

pub open spec fn ray_ok(r: Ray) -> bool {
    p_ok(r.origin) && p_ok(r.direction)
}

/// The point a ray reaches at parameter `t`.
pub open spec fn ray_at(r: Ray, t: int) -> Point3D {
    v_add(r.origin, v_scale(r.direction, t))
}

impl Ray {
    pub fn new(origin: Point3D, direction: Point3D) -> (r: Ray)
        ensures
            r == (Ray { origin, direction }),
    {
        Ray { origin, direction }
    }

    pub fn at(&self, t: i64) -> (r: Point3D)
        requires
            ray_ok(*self),
            in_range(t as int),
        ensures
            r == ray_at(*self, t as int),
            p_ok(r),
    {
        self.origin.add(self.direction.scale(t))
    }
}

/// A successful intersection: distance, point, outward-opposing unit-oriented
/// normal, whether the outward side was hit, the surface's material and the
/// texture coordinates.
#[derive(Clone, Copy, Debug)]
#[verifier::ext_equal]
pub struct HitRecord {
    pub t: i64,
    pub point: Point3D,
    pub normal: Point3D,
    pub front_face: bool,
    pub material: Material,
    pub u: i64,
    pub v: i64,
}

pub open spec fn hit_ok(h: HitRecord) -> bool {
    &&& in_range(h.t as int)
    &&& p_ok(h.point)
    &&& p_ok(h.normal)
    &&& m_ok(h.material)
    &&& 0 <= h.u <= SCALE
    &&& 0 <= h.v <= SCALE
}

} // verus!
