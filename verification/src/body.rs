//! Geometric surfaces: spheres and ellipsoids, their ray intersection and
//! their texture coordinates.

use vstd::prelude::*;
use crate::fix::{
    add_fix, clamp, clamp01, div_fix, fadd, fdiv, fmul, fsqrt, fsub, iabs, in_range,
    lemma_fdiv_monotone, lemma_fdiv_unit, lemma_fdiv_zero, lemma_fmul_unit_sq,
    lemma_sqrt_exists, mul_fix, sqrt_fix, sub_fix, SCALE,
};
use crate::materials::{m_ok, Material};
use crate::ray::{hit_ok, ray_at, ray_ok, HitRecord, Ray};
use crate::vec3::{
    p_ok, v_div, v_div_s, v_dot, v_len_sq, v_mul, v_neg, v_sub, Point3D,
};
use vstd::arithmetic::div_mod::lemma_div_is_ordered;

verus! {

pub const PI_FIX: i64 = 3_141_592;
pub const HALF_PI_FIX: i64 = 1_570_796;
pub const QUARTER_PI_FIX: i64 = 785_398;
pub const TWO_PI_FIX: i64 = 6_283_185;

/// Coefficient of the quadratic arctangent approximation.
pub const ATAN_COEF: i64 = 273_000;

/// Clamp an angle into [0, pi/4].
pub open spec fn clamp_q(a: int) -> int {
    if a < 0 {
        0
    } else if a > QUARTER_PI_FIX as int {
        QUARTER_PI_FIX as int
    } else {
        a
    }
}

/// Arctangent of a ratio in [0, 1], in [0, pi/4]: the quadratic
/// approximation (pi/4)q + 0.273 q (1 - q), clamped.
pub open spec fn s_atan01(q: int) -> int {
    clamp_q(
        fadd(
            fmul(QUARTER_PI_FIX as int, q),
            fmul(fmul(ATAN_COEF as int, q), fsub(SCALE as int, q)),
        ),
    )
}

/// The angle of the point (x, y) from the positive x axis, in (-pi, pi].
pub open spec fn s_atan2(y: int, x: int) -> int {
    let ax = iabs(x);
    let ay = iabs(y);
    let base = if ax == 0 && ay == 0 {
        0
    } else if ay <= ax {
        s_atan01(fdiv(ay, ax))
    } else {
        fsub(HALF_PI_FIX as int, s_atan01(fdiv(ax, ay)))
    };
    let swung = if x < 0 {
        fsub(PI_FIX as int, base)
    } else {
        base
    };
    if y < 0 {
        -swung
    } else {
        swung
    }
}

fn atan01(q: i64) -> (r: i64)
    requires
        0 <= q <= SCALE,
    ensures
        r == s_atan01(q as int),
        0 <= r <= QUARTER_PI_FIX,
{
    let raw = add_fix(
        mul_fix(QUARTER_PI_FIX, q),
        mul_fix(mul_fix(ATAN_COEF, q), sub_fix(SCALE, q)),
    );
    if raw < 0 {
        0
    } else if raw > QUARTER_PI_FIX {
        QUARTER_PI_FIX
    } else {
        raw
    }
}

/// Quotients of magnitudes with the larger below stay within one unit.
proof fn lemma_ratio_le_one(n: int, d: int)
    requires
        0 <= n <= d,
        0 < d,
    ensures
        0 <= fdiv(n, d) <= SCALE as int,
{
    assert(n * (SCALE as int) <= d * (SCALE as int)) by (nonlinear_arith)
        requires n <= d, 0 < SCALE as int;
    lemma_div_is_ordered(n * (SCALE as int), d * (SCALE as int), d);
    assert((d * (SCALE as int)) / d == SCALE as int) by (nonlinear_arith)
        requires 0 < d;
    assert((n * (SCALE as int)) / d >= 0) by (nonlinear_arith)
        requires n >= 0, d > 0;
}

/// The angle of the point (x, y) from the positive x axis.
pub fn atan2_fix(y: i64, x: i64) -> (r: i64)
    requires
        in_range(y as int),
        in_range(x as int),
    ensures
        r == s_atan2(y as int, x as int),
        -PI_FIX <= r <= PI_FIX,
        (y == 0 && x >= 0) ==> r == 0,
        (y == 0 && x < 0) ==> r == PI_FIX,
{
    let ax: i64 = if x < 0 {
        -x
    } else {
        x
    };
    let ay: i64 = if y < 0 {
        -y
    } else {
        y
    };
    let base: i64 = if ax == 0 && ay == 0 {
        0
    } else if ay <= ax {
        proof {
            lemma_ratio_le_one(ay as int, ax as int);
        }
        atan01(div_fix(ay, ax))
    } else {
        proof {
            lemma_ratio_le_one(ax as int, ay as int);
        }
        sub_fix(HALF_PI_FIX, atan01(div_fix(ax, ay)))
    };
    let swung: i64 = if x < 0 {
        sub_fix(PI_FIX, base)
    } else {
        base
    };
    if y < 0 {
        -swung
    } else {
        swung
    }
}

/// The texture coordinate u derived from a surface point normalized by the
/// radii: the angle around the vertical axis, shifted into [0, 1].
pub open spec fn uv_u(n: Point3D) -> int {
    clamp01(fadd(fdiv(s_atan2(n.x as int, n.z as int), TWO_PI_FIX as int), (SCALE as int) / 2))
}

/// The texture coordinate v: the height, shifted into [0, 1].
pub open spec fn uv_v(n: Point3D) -> int {
    clamp01(fadd(fmul(n.y as int, (SCALE as int) / 2), (SCALE as int) / 2))
}

/// Texture coordinates of a hit point (taken relative to the center),
/// normalized by the radii as a point on the unit sphere.
pub fn u_v_from_ellipsoid_hit_point(hit_point_on_ellipsoid: Point3D, radii: Point3D) -> (r: (
    i64,
    i64,
))
    requires
        p_ok(hit_point_on_ellipsoid),
        p_ok(radii),
        radii.x != 0,
        radii.y != 0,
        radii.z != 0,
    ensures
        r.0 == uv_u(v_div(hit_point_on_ellipsoid, radii)),
        r.1 == uv_v(v_div(hit_point_on_ellipsoid, radii)),
        0 <= r.0 <= SCALE,
        0 <= r.1 <= SCALE,
{
    let n = hit_point_on_ellipsoid.div(radii);
    let angle = atan2_fix(n.x, n.z);
    let u = clamp(add_fix(div_fix(angle, TWO_PI_FIX), SCALE / 2));
    let v = clamp(add_fix(mul_fix(n.y, SCALE / 2), SCALE / 2));
    (u, v)
}

/// The root the intersection keeps: the smaller one when it lies in
/// (t_min, t_max), else the larger one when it does, else none; no root at
/// all when the quadratic is degenerate or the discriminant negative.
pub open spec fn chosen_root(a: int, hb: int, disc: int, t_min: int, t_max: int) -> Option<int> {
    if a <= 0 || disc < 0 {
        None
    } else {
        let sq = fsqrt(disc);
        let ra = fdiv(fsub(-hb, sq), a);
        let rb = fdiv(fadd(-hb, sq), a);
        if t_min < ra && ra < t_max {
            Some(ra)
        } else if t_min < rb && rb < t_max {
            Some(rb)
        } else {
            None
        }
    }
}

/// Solve for the hit distance given the quadratic's coefficients.
fn solve_root(a: i64, hb: i64, disc: i64, t_min: i64, t_max: i64) -> (r: Option<i64>)
    requires
        in_range(a as int),
        in_range(hb as int),
        in_range(disc as int),
        in_range(t_min as int),
        in_range(t_max as int),
    ensures
        (r is Some) == (chosen_root(a as int, hb as int, disc as int, t_min as int,
            t_max as int) is Some),
        r matches Some(t) ==> (chosen_root(a as int, hb as int, disc as int, t_min as int,
            t_max as int) == Some(t as int) && in_range(t as int)),
{
    if a <= 0 || disc < 0 {
        return None;
    }
    let sq = sqrt_fix(disc);
    let ra = div_fix(sub_fix(-hb, sq), a);
    let rb = div_fix(add_fix(-hb, sq), a);
    if t_min < ra && ra < t_max {
        Some(ra)
    } else if t_min < rb && rb < t_max {
        Some(rb)
    } else {
        None
    }
}


/// A sphere: center, radius and material.
#[derive(Clone, Copy, Debug)]
pub struct Sphere {
    pub center: Point3D,
    pub radius: i64,
    pub material: Material,
}

pub open spec fn sphere_ok(s: Sphere) -> bool {
    p_ok(s.center) && in_range(s.radius as int) && m_ok(s.material)
}

/// An ellipsoid: center, semi-axis lengths along x, y and z, and material.
#[derive(Clone, Copy, Debug)]
pub struct Ellipsoid {
    pub center: Point3D,
    pub radii: Point3D,
    pub material: Material,
}

pub open spec fn ellipsoid_ok(e: Ellipsoid) -> bool {
    p_ok(e.center) && p_ok(e.radii) && m_ok(e.material)
}

impl Sphere {
    pub fn new(center: Point3D, radius: i64, material: Material) -> (r: Sphere)
        ensures
            r == (Sphere { center, radius, material }),
    {
        Sphere { center, radius, material }
    }
}

impl Ellipsoid {
    pub fn new(center: Point3D, radii: Point3D, material: Material) -> (r: Ellipsoid)
        ensures
            r == (Ellipsoid { center, radii, material }),
    {
        Ellipsoid { center, radii, material }
    }
}

pub open spec fn sph_oc(s: Sphere, ray: Ray) -> Point3D {
    v_sub(ray.origin, s.center)
}

pub open spec fn sph_a(s: Sphere, ray: Ray) -> int {
    v_len_sq(ray.direction)
}

pub open spec fn sph_half_b(s: Sphere, ray: Ray) -> int {
    v_dot(sph_oc(s, ray), ray.direction)
}

pub open spec fn sph_c(s: Sphere, ray: Ray) -> int {
    fsub(v_len_sq(sph_oc(s, ray)), fmul(s.radius as int, s.radius as int))
}

pub open spec fn sph_disc(s: Sphere, ray: Ray) -> int {
    fsub(fmul(sph_half_b(s, ray), sph_half_b(s, ray)), fmul(sph_a(s, ray), sph_c(s, ray)))
}

/// The record a sphere hit at distance `t` carries.
pub open spec fn sph_record(s: Sphere, ray: Ray, t: int) -> HitRecord {
    let p = ray_at(ray, t);
    let outward = v_div_s(v_sub(p, s.center), s.radius as int);
    let ff = v_dot(ray.direction, outward) < 0;
    let rvec = Point3D { x: s.radius, y: s.radius, z: s.radius };
    let nd = v_div(v_sub(p, s.center), rvec);
    HitRecord {
        t: t as i64,
        point: p,
        normal: if ff { outward } else { v_neg(outward) },
        front_face: ff,
        material: s.material,
        u: uv_u(nd) as i64,
        v: uv_v(nd) as i64,
    }
}

/// What a sphere's hit returns: the closest root of |O + tD - C|^2 = r^2
/// inside (t_min, t_max), with a radius that is not positive treated as
/// never hit.
pub open spec fn sph_hit(s: Sphere, ray: Ray, t_min: int, t_max: int) -> Option<HitRecord> {
    if s.radius <= 0 {
        None
    } else {
        match chosen_root(sph_a(s, ray), sph_half_b(s, ray), sph_disc(s, ray), t_min, t_max) {
            Some(t) => Some(sph_record(s, ray, t)),
            None => None,
        }
    }
}

pub open spec fn ell_oc(e: Ellipsoid, ray: Ray) -> Point3D {
    v_sub(ray.origin, e.center)
}

pub open spec fn ell_dr(e: Ellipsoid, ray: Ray) -> Point3D {
    v_div(ray.direction, e.radii)
}

pub open spec fn ell_a(e: Ellipsoid, ray: Ray) -> int {
    v_len_sq(ell_dr(e, ray))
}

pub open spec fn ell_half_b(e: Ellipsoid, ray: Ray) -> int {
    v_dot(ell_oc(e, ray), ell_dr(e, ray))
}

pub open spec fn ell_c(e: Ellipsoid, ray: Ray) -> int {
    fsub(fdiv(v_len_sq(ell_oc(e, ray)), v_len_sq(e.radii)), SCALE as int)
}

pub open spec fn ell_disc(e: Ellipsoid, ray: Ray) -> int {
    fsub(fmul(ell_half_b(e, ray), ell_half_b(e, ray)), fmul(ell_a(e, ray), ell_c(e, ray)))
}

/// The record an ellipsoid hit at distance `t` carries; the normal is the
/// offset from the center divided by the squared radii, flipped to oppose
/// the ray.
pub open spec fn ell_record(e: Ellipsoid, ray: Ray, t: int) -> HitRecord {
    let p = ray_at(ray, t);
    let r2 = v_mul(e.radii, e.radii);
    let outward = v_div(v_sub(p, e.center), r2);
    let ff = v_dot(ray.direction, outward) < 0;
    let nd = v_div(v_sub(p, e.center), e.radii);
    HitRecord {
        t: t as i64,
        point: p,
        normal: if ff { outward } else { v_neg(outward) },
        front_face: ff,
        material: e.material,
        u: uv_u(nd) as i64,
        v: uv_v(nd) as i64,
    }
}

/// Whether the ellipsoid's radii are too degenerate to intersect: not
/// strictly positive, or so small that their squares round away.
pub open spec fn ell_degenerate(e: Ellipsoid) -> bool {
    ||| e.radii.x <= 0
    ||| e.radii.y <= 0
    ||| e.radii.z <= 0
    ||| v_len_sq(e.radii) == 0
    ||| fmul(e.radii.x as int, e.radii.x as int) == 0
    ||| fmul(e.radii.y as int, e.radii.y as int) == 0
    ||| fmul(e.radii.z as int, e.radii.z as int) == 0
}

/// What an ellipsoid's hit returns: the same quadratic scaled by the
/// per-axis radii, the constant term divided by the radii's squared length.
pub open spec fn ell_hit(e: Ellipsoid, ray: Ray, t_min: int, t_max: int) -> Option<HitRecord> {
    if ell_degenerate(e) {
        None
    } else {
        match chosen_root(ell_a(e, ray), ell_half_b(e, ray), ell_disc(e, ray), t_min, t_max) {
            Some(t) => Some(ell_record(e, ray, t)),
            None => None,
        }
    }
}

impl Sphere {
    /// The closest intersection of the ray with the sphere at a distance in
    /// (t_min, t_max), if any.
    pub fn hit(&self, ray: &Ray, t_min: i64, t_max: i64) -> (r: Option<HitRecord>)
        requires
            sphere_ok(*self),
            ray_ok(*ray),
            in_range(t_min as int),
            in_range(t_max as int),
        ensures
            r == sph_hit(*self, *ray, t_min as int, t_max as int),
            r matches Some(h) ==> hit_ok(h),
    {
        if self.radius <= 0 {
            return None;
        }
        let oc = ray.origin.sub(self.center);
        let a = ray.direction.length_squared();
        let half_b = oc.dot(&ray.direction);
        let c = sub_fix(oc.length_squared(), mul_fix(self.radius, self.radius));
        let disc = sub_fix(mul_fix(half_b, half_b), mul_fix(a, c));
        match solve_root(a, half_b, disc, t_min, t_max) {
            None => None,
            Some(root) => {
                let p = ray.at(root);
                let outward = p.sub(self.center).div_s(self.radius);
                let front_face = ray.direction.dot(&outward) < 0;
                let normal = if front_face {
                    outward
                } else {
                    outward.neg()
                };
                let rvec = Point3D::new(self.radius, self.radius, self.radius);
                let (u, v) = u_v_from_ellipsoid_hit_point(p.sub(self.center), rvec);
                let h = HitRecord {
                    t: root,
                    point: p,
                    normal,
                    front_face,
                    material: self.material,
                    u,
                    v,
                };
                proof {
                    assert(h =~= sph_record(*self, *ray, root as int));
                }
                Some(h)
            },
        }
    }
}

impl Ellipsoid {
    /// The closest intersection of the ray with the ellipsoid at a distance
    /// in (t_min, t_max), if any; degenerate radii are never hit.
    pub fn hit(&self, ray: &Ray, t_min: i64, t_max: i64) -> (r: Option<HitRecord>)
        requires
            ellipsoid_ok(*self),
            ray_ok(*ray),
            in_range(t_min as int),
            in_range(t_max as int),
        ensures
            r == ell_hit(*self, *ray, t_min as int, t_max as int),
            r matches Some(h) ==> hit_ok(h),
    {
        if self.radii.x <= 0 || self.radii.y <= 0 || self.radii.z <= 0 {
            return None;
        }
        let lr = self.radii.length_squared();
        if lr == 0 {
            return None;
        }
        let r2 = self.radii.mul(self.radii);
        if r2.x == 0 || r2.y == 0 || r2.z == 0 {
            return None;
        }
        let oc = ray.origin.sub(self.center);
        let dr = ray.direction.div(self.radii);
        let a = dr.length_squared();
        let half_b = oc.dot(&dr);
        let c = sub_fix(div_fix(oc.length_squared(), lr), SCALE);
        let disc = sub_fix(mul_fix(half_b, half_b), mul_fix(a, c));
        match solve_root(a, half_b, disc, t_min, t_max) {
            None => None,
            Some(root) => {
                let p = ray.at(root);
                let outward = p.sub(self.center).div(r2);
                let front_face = ray.direction.dot(&outward) < 0;
                let normal = if front_face {
                    outward
                } else {
                    outward.neg()
                };
                let (u, v) = u_v_from_ellipsoid_hit_point(p.sub(self.center), self.radii);
                let h = HitRecord {
                    t: root,
                    point: p,
                    normal,
                    front_face,
                    material: self.material,
                    u,
                    v,
                };
                proof {
                    assert(h =~= ell_record(*self, *ray, root as int));
                }
                Some(h)
            },
        }
    }
}

/// The closed set of surface variants.
#[derive(Clone, Copy, Debug)]
pub enum Body {
    Sphere(Sphere),
    Ellipsoid(Ellipsoid),
}

/// The material a surface carries.
pub open spec fn body_material(b: Body) -> Material {
    match b {
        Body::Sphere(s) => s.material,
        Body::Ellipsoid(e) => e.material,
    }
}

/// The center of a surface.
pub open spec fn body_center(b: Body) -> Point3D {
    match b {
        Body::Sphere(s) => s.center,
        Body::Ellipsoid(e) => e.center,
    }
}

pub open spec fn body_ok(b: Body) -> bool {
    match b {
        Body::Sphere(s) => sphere_ok(s),
        Body::Ellipsoid(e) => ellipsoid_ok(e),
    }
}

pub open spec fn body_hit(b: Body, ray: Ray, t_min: int, t_max: int) -> Option<HitRecord> {
    match b {
        Body::Sphere(s) => sph_hit(s, ray, t_min, t_max),
        Body::Ellipsoid(e) => ell_hit(e, ray, t_min, t_max),
    }
}

impl Body {
    pub fn center(&self) -> (r: Point3D)
        ensures
            r == body_center(*self),
    {
        match self {
            Body::Sphere(s) => s.center,
            Body::Ellipsoid(e) => e.center,
        }
    }

    /// The closest intersection of the ray with the surface at a distance in
    /// (t_min, t_max), if any.
    pub fn hit(&self, ray: &Ray, t_min: i64, t_max: i64) -> (r: Option<HitRecord>)
        requires
            body_ok(*self),
            ray_ok(*ray),
            in_range(t_min as int),
            in_range(t_max as int),
        ensures
            r == body_hit(*self, *ray, t_min as int, t_max as int),
            r matches Some(h) ==> hit_ok(h),
    {
        match self {
            Body::Sphere(s) => s.hit(ray, t_min, t_max),
            Body::Ellipsoid(e) => e.hit(ray, t_min, t_max),
        }
    }
}


/// The smaller of the quadratic's two roots.
pub open spec fn root_small(a: int, hb: int, disc: int) -> int {
    fdiv(fsub(-hb, fsqrt(disc)), a)
}

/// The larger of the quadratic's two roots.
pub open spec fn root_large(a: int, hb: int, disc: int) -> int {
    fdiv(fadd(-hb, fsqrt(disc)), a)
}

/// When both roots of a surface's quadratic lie inside (t_min, t_max), the
/// intersection keeps the smaller one.
pub proof fn lemma_hit_prefers_smaller_root(a: int, hb: int, disc: int, t_min: int, t_max: int)
    requires
        a > 0,
        disc >= 0,
        t_min < root_small(a, hb, disc) < t_max,
        t_min < root_large(a, hb, disc) < t_max,
    ensures
        root_small(a, hb, disc) <= root_large(a, hb, disc),
        chosen_root(a, hb, disc, t_min, t_max) == Some(root_small(a, hb, disc)),
{
    let sq = fsqrt(disc);
    assert(disc * (SCALE as int) >= 0) by (nonlinear_arith)
        requires disc >= 0;
    lemma_sqrt_exists(disc * (SCALE as int));
    assert(sq >= 0);
    lemma_fdiv_monotone(fsub(-hb, sq), fadd(-hb, sq), a);
}

/// A unit sphere and the ellipsoid with unit radii agree: for a ray cast
/// from the shared center, the generic ellipsoid formula returns exactly
/// the hit the sphere's own formula returns, distance, normal and texture
/// coordinates alike.
pub proof fn lemma_unit_sphere_matches_ellipsoid(s: Sphere, e: Ellipsoid, ray: Ray, t_min: int,
    t_max: int)
    requires
        e.center == s.center,
        e.material == s.material,
        s.radius == SCALE,
        e.radii == (Point3D { x: SCALE, y: SCALE, z: SCALE }),
        ray_ok(ray),
        p_ok(s.center),
        v_len_sq(v_sub(ray.origin, s.center)) == 0,
    ensures
        sph_hit(s, ray, t_min, t_max) == ell_hit(e, ray, t_min, t_max),
{
    let sc = SCALE as int;
    let d = ray.direction;
    lemma_fdiv_unit(d.x as int);
    lemma_fdiv_unit(d.y as int);
    lemma_fdiv_unit(d.z as int);
    assert(ell_dr(e, ray) =~= d);
    assert(ell_a(e, ray) == sph_a(s, ray));
    assert(ell_half_b(e, ray) == sph_half_b(s, ray));
    lemma_fmul_unit_sq();
    let lsr = v_len_sq(e.radii);
    assert(lsr == fadd(fadd(sc, sc), sc));
    assert(lsr == 3 * sc);
    lemma_fdiv_zero(lsr);
    assert(ell_c(e, ray) == fsub(0, sc));
    assert(sph_c(s, ray) == fsub(0, sc));
    assert(ell_disc(e, ray) == sph_disc(s, ray));
    assert(!ell_degenerate(e));
    let cr = chosen_root(sph_a(s, ray), sph_half_b(s, ray), sph_disc(s, ray), t_min, t_max);
    match cr {
        None => {},
        Some(t) => {
        let p = ray_at(ray, t);
        let off = v_sub(p, s.center);
        lemma_fdiv_unit(off.x as int);
        lemma_fdiv_unit(off.y as int);
        lemma_fdiv_unit(off.z as int);
        assert(v_mul(e.radii, e.radii) =~= e.radii);
        assert(v_div(off, v_mul(e.radii, e.radii)) =~= v_div_s(off, s.radius as int));
        assert(v_div(off, (Point3D { x: s.radius, y: s.radius, z: s.radius })) =~= v_div(off,
            e.radii));
        assert(sph_record(s, ray, t) =~= ell_record(e, ray, t));
        },
    }
}


/// For a sphere whose quadratic has both roots inside (t_min, t_max), the
/// hit is the record at the smaller root.
pub proof fn lemma_sphere_prefers_smaller_root(s: Sphere, ray: Ray, t_min: int, t_max: int)
    requires
        s.radius > 0,
        sph_a(s, ray) > 0,
        sph_disc(s, ray) >= 0,
        t_min < root_small(sph_a(s, ray), sph_half_b(s, ray), sph_disc(s, ray)) < t_max,
        t_min < root_large(sph_a(s, ray), sph_half_b(s, ray), sph_disc(s, ray)) < t_max,
    ensures
        sph_hit(s, ray, t_min, t_max) == Some(sph_record(s, ray, root_small(sph_a(s, ray),
            sph_half_b(s, ray), sph_disc(s, ray)))),
{
    lemma_hit_prefers_smaller_root(sph_a(s, ray), sph_half_b(s, ray), sph_disc(s, ray), t_min,
        t_max);
}

/// For an ellipsoid whose quadratic has both roots inside (t_min, t_max),
/// the hit is the record at the smaller root.
pub proof fn lemma_ellipsoid_prefers_smaller_root(e: Ellipsoid, ray: Ray, t_min: int, t_max: int)
    requires
        !ell_degenerate(e),
        ell_a(e, ray) > 0,
        ell_disc(e, ray) >= 0,
        t_min < root_small(ell_a(e, ray), ell_half_b(e, ray), ell_disc(e, ray)) < t_max,
        t_min < root_large(ell_a(e, ray), ell_half_b(e, ray), ell_disc(e, ray)) < t_max,
    ensures
        ell_hit(e, ray, t_min, t_max) == Some(ell_record(e, ray, root_small(ell_a(e, ray),
            ell_half_b(e, ray), ell_disc(e, ray)))),
{
    lemma_hit_prefers_smaller_root(ell_a(e, ray), ell_half_b(e, ray), ell_disc(e, ray), t_min,
        t_max);
}

} // verus!
