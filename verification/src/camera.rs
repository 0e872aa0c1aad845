//! The camera: maps normalized image-plane coordinates to world-space rays.

use vstd::prelude::*;
use crate::fix::in_range;
use crate::ray::{ray_ok, Ray};
use crate::vec3::{p_ok, v_add, v_div_s, v_scale, v_sub, Point3D};

verus! {

/// Two units, the divisor that centers the viewport on the origin.
pub const TWO_FIX: i64 = 2_000_000;

/// An axis-aligned viewport camera, derived once and then read-only.
#[derive(Clone, Copy, Debug)]
pub struct Camera {
    pub origin: Point3D,
    pub lower_left_corner: Point3D,
    pub focal_length: i64,
    pub horizontal: Point3D,
    pub vertical: Point3D,
}

pub open spec fn camera_ok(c: Camera) -> bool {
    &&& p_ok(c.origin)
    &&& p_ok(c.lower_left_corner)
    &&& in_range(c.focal_length as int)
    &&& p_ok(c.horizontal)
    &&& p_ok(c.vertical)
}

/// The corner the camera construction owes: the origin, less half the
/// horizontal and vertical spans, less the focal distance along the forward
/// axis.
pub open spec fn spec_lower_left(origin: Point3D, horizontal: Point3D, vertical: Point3D,
    focal_length: i64) -> Point3D {
    v_sub(
        v_sub(v_sub(origin, v_div_s(horizontal, TWO_FIX as int)), v_div_s(vertical,
            TWO_FIX as int)),
        Point3D { x: 0, y: 0, z: focal_length },
    )
}

/// The direction of the ray through image-plane coordinates (u, v).
pub open spec fn spec_ray_direction(c: Camera, u: int, v: int) -> Point3D {
    v_sub(
        v_add(v_add(c.lower_left_corner, v_scale(c.horizontal, u)), v_scale(c.vertical, v)),
        c.origin,
    )
}

impl Camera {
    /// A camera looking down the negative z axis with the given viewport.
    pub fn new(origin: Point3D, viewport_height: i64, viewport_width: i64, focal_length: i64)
        -> (r: Camera)
        requires
            p_ok(origin),
            in_range(viewport_height as int),
            in_range(viewport_width as int),
            in_range(focal_length as int),
        ensures
            r.origin == origin,
            r.focal_length == focal_length,
            r.horizontal == (Point3D { x: viewport_width, y: 0, z: 0 }),
            r.vertical == (Point3D { x: 0, y: viewport_height, z: 0 }),
            r.lower_left_corner == spec_lower_left(origin, r.horizontal, r.vertical,
                focal_length),
            camera_ok(r),
    {
        let horizontal = Point3D::new(viewport_width, 0, 0);
        let vertical = Point3D::new(0, viewport_height, 0);
        let lower_left_corner = origin.sub(horizontal.div_s(TWO_FIX)).sub(
            vertical.div_s(TWO_FIX)).sub(Point3D::new(0, 0, focal_length));
        Camera { origin, lower_left_corner, focal_length, horizontal, vertical }
    }

    /// A camera from a precomputed basis, for viewports that are not
    /// axis-aligned.
    pub fn from_basis(origin: Point3D, lower_left_corner: Point3D, horizontal: Point3D,
        vertical: Point3D, focal_length: i64) -> (r: Camera)
        requires
            p_ok(origin),
            p_ok(lower_left_corner),
            p_ok(horizontal),
            p_ok(vertical),
            in_range(focal_length as int),
        ensures
            r == (Camera { origin, lower_left_corner, focal_length, horizontal, vertical }),
            camera_ok(r),
    {
        Camera { origin, lower_left_corner, focal_length, horizontal, vertical }
    }

    /// The ray from the camera origin through the image-plane point (u, v);
    /// u runs left to right and v bottom to top, each normally in [0, 1].
    pub fn get_ray(&self, u: i64, v: i64) -> (r: Ray)
        requires
            camera_ok(*self),
            in_range(u as int),
            in_range(v as int),
        ensures
            r.origin == self.origin,
            r.direction == spec_ray_direction(*self, u as int, v as int),
            ray_ok(r),
    {
        Ray::new(
            self.origin,
            self.lower_left_corner.add(self.horizontal.scale(u)).add(self.vertical.scale(v)).sub(
                self.origin),
        )
    }
}

} // verus!
