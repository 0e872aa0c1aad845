//! Materials: how a surface absorbs, reflects, refracts or emits a ray.

use vstd::prelude::*;
use crate::color::{c_ok, Color};
use crate::fix::{add_fix, div_fix, fadd, fdiv, fmul, fsqrt, fsub, in_range, mul_fix, sqrt_fix,
    sub_fix, SCALE};
use crate::ray::{hit_ok, ray_ok, HitRecord, Ray};
use crate::rng::rand_range;
use crate::vec3::{p_ok, v_add, v_dot, v_len_sq, v_neg, v_scale, v_sub, v_unit, Point3D};

verus! {

/// Smallest squared length a random direction is allowed to have, so that it
/// can always be normalized.
pub const MIN_RAND_LEN_SQ: i64 = 10_000;

pub open spec fn white() -> Color {
    Color { red: SCALE, green: SCALE, blue: SCALE }
}

/// A diffuse surface: scatters in a random direction about the normal.
#[derive(Clone, Copy, Debug, PartialEq, Eq, Structural)]
pub struct Lambertian {
    pub albedo: Color,
}

impl Lambertian {
    pub fn new(albedo: Color) -> (r: Lambertian)
        ensures
            r == (Lambertian { albedo }),
    {
        Lambertian { albedo }
    }
}

/// A reflective surface, optionally roughened by a fuzz radius.
#[derive(Clone, Copy, Debug, PartialEq, Eq, Structural)]
pub struct Metal {
    pub albedo: Color,
    pub fuzz: i64,
}

impl Metal {
    pub fn new(albedo: Color, fuzz: i64) -> (r: Metal)
        ensures
            r == (Metal { albedo, fuzz }),
    {
        Metal { albedo, fuzz }
    }
}

/// A refractive surface with an index of refraction.
#[derive(Clone, Copy, Debug, PartialEq, Eq, Structural)]
pub struct Glass {
    pub index_of_refraction: i64,
}

impl Glass {
    pub fn new(index_of_refraction: i64) -> (r: Glass)
        ensures
            r == (Glass { index_of_refraction }),
    {
        Glass { index_of_refraction }
    }
}

/// An emissive surface: contributes its color as terminal radiance.
#[derive(Clone, Copy, Debug, PartialEq, Eq, Structural)]
pub struct Light {
    pub color: Color,
}

impl Light {
    /// A plain white light.
    pub fn new() -> (r: Light)
        ensures
            r == (Light { color: white() }),
            c_ok(r.color),
    {
        Light { color: Color { red: SCALE, green: SCALE, blue: SCALE } }
    }

    pub fn with_color(color: Color) -> (r: Light)
        ensures
            r == (Light { color }),
    {
        Light { color }
    }
}

/// The closed set of material variants.
#[derive(Clone, Copy, Debug, PartialEq, Eq, Structural)]
pub enum Material {
    Lambertian(Lambertian),
    Metal(Metal),
    Glass(Glass),
    Light(Light),
}

pub open spec fn m_ok(m: Material) -> bool {
    match m {
        Material::Lambertian(l) => c_ok(l.albedo),
        Material::Metal(mt) => c_ok(mt.albedo) && 0 <= mt.fuzz <= SCALE,
        Material::Glass(g) => in_range(g.index_of_refraction as int),
        Material::Light(l) => c_ok(l.color),
    }
}

/// A random vector inside the unit ball whose length is large enough to
/// normalize; drawn by rejection, with a fixed axis as the rare fallback.
fn random_in_unit_sphere() -> (r: Point3D)
    ensures
        p_ok(r),
        MIN_RAND_LEN_SQ <= v_len_sq(r) <= SCALE,
{
    let mut tries: u32 = 0;
    while tries < 32
        invariant
            tries <= 32,
        decreases 32 - tries,
    {
        let x = rand_range(-SCALE, SCALE);
        let y = rand_range(-SCALE, SCALE);
        let z = rand_range(-SCALE, SCALE);
        let v = Point3D::new(x, y, z);
        let ls = v.length_squared();
        if MIN_RAND_LEN_SQ <= ls && ls <= SCALE {
            return v;
        }
        tries = tries + 1;
    }
    Point3D::new(0, 0, SCALE)
}

/// A direction drawn on the unit sphere: the normalization of some vector
/// whose squared length is representable and large enough to normalize.
pub open spec fn unit_drawn(u: Point3D) -> bool {
    exists|w: Point3D|
        {
            &&& #[trigger] v_unit(w) == u
            &&& p_ok(w)
            &&& MIN_RAND_LEN_SQ <= v_len_sq(w) <= SCALE
        }
}

/// A scattered diffuse direction: the surface normal plus a drawn unit
/// vector.
pub open spec fn lambertian_direction_ok(hit: HitRecord, s: Ray) -> bool {
    exists|u: Point3D| #[trigger] v_add(hit.normal, u) == s.direction && unit_drawn(u)
}

/// A random direction of unit length.
fn random_unit_vector() -> (r: Point3D)
    ensures
        p_ok(r),
        unit_drawn(r),
{
    let v = random_in_unit_sphere();
    let u = v.unit_vector();
    proof {
        assert(v_unit(v) == u);
    }
    u
}

/// Mirror reflection of a direction about a normal: v - 2 (v . n) n.
pub open spec fn v_reflect(v: Point3D, n: Point3D) -> Point3D {
    v_sub(v, v_scale(n, fadd(v_dot(v, n), v_dot(v, n))))
}

/// Refraction of a unit direction through a normal with the given ratio of
/// refraction indices and incident cosine, per Snell's law; a negative
/// radicand (total internal reflection's edge, reached only by rounding) is
/// taken as zero.
pub open spec fn v_refract(uv: Point3D, n: Point3D, ratio: int, cos: int) -> Point3D {
    let perp = v_scale(v_add(uv, v_scale(n, cos)), ratio);
    let k0 = fsub(SCALE as int, v_len_sq(perp));
    let k = if k0 < 0 {
        0
    } else {
        k0
    };
    v_add(perp, v_scale(n, -fsqrt(k)))
}

/// Mirror reflection of `v` about the normal `n`.
fn reflect(v: Point3D, n: Point3D) -> (r: Point3D)
    requires
        p_ok(v),
        p_ok(n),
    ensures
        r == v_reflect(v, n),
        p_ok(r),
{
    let d = v.dot(&n);
    let two_d = add_fix(d, d);
    v.sub(n.scale(two_d))
}

/// Refraction of the unit direction `uv` through the normal `n` with the
/// given ratio of refraction indices and incident cosine.
fn refract(uv: Point3D, n: Point3D, etai_over_etat: i64, cos_theta: i64) -> (r: Point3D)
    requires
        p_ok(uv),
        p_ok(n),
        in_range(etai_over_etat as int),
        in_range(cos_theta as int),
    ensures
        r == v_refract(uv, n, etai_over_etat as int, cos_theta as int),
        p_ok(r),
{
    let r_out_perp = uv.add(n.scale(cos_theta)).scale(etai_over_etat);
    let mut k = sub_fix(SCALE, r_out_perp.length_squared());
    if k < 0 {
        k = 0;
    }
    let r_out_parallel = n.scale(-sqrt_fix(k));
    r_out_perp.add(r_out_parallel)
}

/// Schlick's approximation of the Fresnel reflectance.
fn reflectance(cosine: i64, ratio: i64) -> (r: i64)
    requires
        in_range(cosine as int),
        in_range(ratio as int),
        ratio >= 0,
    ensures
        in_range(r as int),
{
    let q = div_fix(sub_fix(SCALE, ratio), add_fix(SCALE, ratio));
    let r0 = mul_fix(q, q);
    let m = sub_fix(SCALE, cosine);
    let m2 = mul_fix(m, m);
    let m4 = mul_fix(m2, m2);
    let m5 = mul_fix(m4, m);
    add_fix(r0, mul_fix(sub_fix(SCALE, r0), m5))
}

/// What the mirror path of a metal with no fuzz owes: the reflection of the
/// incoming unit direction is returned exactly when it leaves the surface,
/// and absorbed exactly when it points into it.
pub open spec fn metal_mirror_ok(ray: Ray, hit: HitRecord, r: Option<(Option<Ray>, Color)>)
    -> bool {
    let rd = v_reflect(v_unit(ray.direction), hit.normal);
    &&& ((r is Some) <==> v_dot(rd, hit.normal) > 0)
    &&& (r matches Some((sr, _att)) ==> (sr matches Some(s) ==> s.direction == rd))
}

/// What a glass scatter owes whichever way the Fresnel draw went: the ray
/// that comes back is the mirror reflection or the refraction of the unit
/// incoming direction, and absorption happens only when the drawn direction
/// rounded to zero length.
pub open spec fn glass_outcome_ok(g: Glass, ray: Ray, hit: HitRecord, r: Option<(Option<Ray>,
    Color)>) -> bool {
    let ratio = if hit.front_face {
        fdiv(SCALE as int, g.index_of_refraction as int)
    } else {
        g.index_of_refraction as int
    };
    let unit = v_unit(ray.direction);
    let cos0 = v_dot(v_neg(unit), hit.normal);
    let cos = if cos0 > SCALE as int {
        SCALE as int
    } else {
        cos0
    };
    let refl = v_reflect(unit, hit.normal);
    let refr = v_refract(unit, hit.normal, ratio, cos);
    &&& (r is None ==> (v_len_sq(refl) == 0 || v_len_sq(refr) == 0))
    &&& (r matches Some((sr, _att)) ==> (sr matches Some(s) ==> (s.direction == refl
        || s.direction == refr)))
}

impl Material {
    /// How an incoming ray leaves the surface: `None` when fully absorbed,
    /// otherwise an optional scattered ray (none for pure emission) and the
    /// attenuation color.
    pub fn scatter(&self, ray: &Ray, hit: &HitRecord) -> (r: Option<(Option<Ray>, Color)>)
        requires
            m_ok(*self),
            ray_ok(*ray),
            hit_ok(*hit),
        ensures
            (self matches Material::Light(l) ==> r == Some((Option::<Ray>::None, l.color))),
            (self matches Material::Lambertian(l) ==> (r matches Some((sr, att)) && ((
            sr matches Some(s) && (s.origin == hit.point && ray_ok(s)
                && lambertian_direction_ok(*hit, s))) && att == l.albedo))),
            (self matches Material::Metal(mt) ==> (r matches Some((sr, att)) ==> ((
            sr matches Some(s) && (s.origin == hit.point && ray_ok(s) && v_dot(s.direction,
                hit.normal) > 0)) && att == mt.albedo))),
            (self matches Material::Glass(_g) ==> (r matches Some((sr, att)) ==> ((
            sr matches Some(s) && (s.origin == hit.point && ray_ok(s) && v_len_sq(s.direction)
                > 0)) && att == white()))),
            (r matches Some((_sr, att)) ==> c_ok(att)),
            (self is Metal && v_len_sq(ray.direction) == 0) ==> r is None,
            (self matches Material::Metal(mt) ==> ((mt.fuzz == 0 && v_len_sq(ray.direction) > 0)
                ==> metal_mirror_ok(*ray, *hit, r))),
            (self matches Material::Glass(g) ==> (g.index_of_refraction <= 0 ==> r is None)),
            (self is Glass && v_len_sq(ray.direction) == 0) ==> r is None,
            (self matches Material::Glass(g) ==> ((g.index_of_refraction > 0
                && v_len_sq(ray.direction) > 0) ==> glass_outcome_ok(*g, *ray, *hit, r))),
    {
        match self {
            Material::Lambertian(l) => scatter_lambertian(l, hit),
            Material::Metal(mt) => scatter_metal(mt, ray, hit),
            Material::Glass(g) => scatter_glass(g, ray, hit),
            Material::Light(l) => Some((None, l.color)),
        }
    }
}

fn scatter_lambertian(l: &Lambertian, hit: &HitRecord) -> (r: Option<(Option<Ray>, Color)>)
    requires
        c_ok(l.albedo),
        hit_ok(*hit),
    ensures
        (r matches Some((sr, att)) && ((sr matches Some(s) && (s.origin == hit.point
            && ray_ok(s) && lambertian_direction_ok(*hit, s))) && att == l.albedo)),
{
    let rv = random_unit_vector();
    let dir = hit.normal.add(rv);
    proof {
        assert(v_add(hit.normal, rv) == dir);
    }
    Some((Some(Ray::new(hit.point, dir)), l.albedo))
}

fn scatter_metal(m: &Metal, ray: &Ray, hit: &HitRecord) -> (r: Option<(Option<Ray>, Color)>)
    requires
        c_ok(m.albedo),
        0 <= m.fuzz <= SCALE,
        ray_ok(*ray),
        hit_ok(*hit),
    ensures
        (r matches Some((sr, att)) ==> ((sr matches Some(s) && (s.origin == hit.point
            && ray_ok(s) && v_dot(s.direction, hit.normal) > 0)) && att == m.albedo)),
        v_len_sq(ray.direction) == 0 ==> r is None,
        (m.fuzz == 0 && v_len_sq(ray.direction) > 0) ==> metal_mirror_ok(*ray, *hit, r),
{
    let ls = ray.direction.length_squared();
    if ls == 0 {
        return None;
    }
    let unit = ray.direction.unit_vector();
    let reflected = reflect(unit, hit.normal);
    let dir = if m.fuzz > 0 {
        reflected.add(random_in_unit_sphere().scale(m.fuzz))
    } else {
        reflected
    };
    let d = dir.dot(&hit.normal);
    if d > 0 {
        Some((Some(Ray::new(hit.point, dir)), m.albedo))
    } else {
        None
    }
}

fn scatter_glass(g: &Glass, ray: &Ray, hit: &HitRecord) -> (r: Option<(Option<Ray>, Color)>)
    requires
        in_range(g.index_of_refraction as int),
        ray_ok(*ray),
        hit_ok(*hit),
    ensures
        (r matches Some((sr, att)) ==> ((sr matches Some(s) && (s.origin == hit.point
            && ray_ok(s) && v_len_sq(s.direction) > 0)) && att == white())),
        g.index_of_refraction <= 0 ==> r is None,
        v_len_sq(ray.direction) == 0 ==> r is None,
        (g.index_of_refraction > 0 && v_len_sq(ray.direction) > 0) ==> glass_outcome_ok(*g, *ray,
            *hit, r),
{
    if g.index_of_refraction <= 0 {
        // A degenerate index of refraction would divide by zero: absorb.
        return None;
    }
    let ls = ray.direction.length_squared();
    if ls == 0 {
        return None;
    }
    let ratio = if hit.front_face {
        div_fix(SCALE, g.index_of_refraction)
    } else {
        g.index_of_refraction
    };
    let unit = ray.direction.unit_vector();
    let mut cos_theta = unit.neg().dot(&hit.normal);
    if cos_theta > SCALE {
        cos_theta = SCALE;
    }
    let mut sin2 = sub_fix(SCALE, mul_fix(cos_theta, cos_theta));
    if sin2 < 0 {
        sin2 = 0;
    }
    let sin_theta = sqrt_fix(sin2);
    let cannot_refract = mul_fix(ratio, sin_theta) > SCALE;
    let dir = if cannot_refract || reflectance(cos_theta, ratio) > rand_range(0, SCALE) {
        reflect(unit, hit.normal)
    } else {
        refract(unit, hit.normal, ratio, cos_theta)
    };
    let dls = dir.length_squared();
    if dls == 0 {
        // A scattered ray with no direction would spread nothing but noise:
        // absorb instead of propagating it.
        return None;
    }
    Some((Some(Ray::new(hit.point, dir)), white_color()))
}

fn white_color() -> (r: Color)
    ensures
        r == white(),
        c_ok(r),
{
    Color { red: SCALE, green: SCALE, blue: SCALE }
}

} // verus!
