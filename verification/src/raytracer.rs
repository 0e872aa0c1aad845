//! The light-transport engine and the scanline render driver.

use vstd::prelude::*;
use rayon::iter::IntoParallelIterator;
use rayon::iter::ParallelIterator;
use crate::body::{body_hit, body_material, body_ok, Body};
use crate::camera::{camera_ok, spec_ray_direction, Camera};
use crate::color::{black, c_ok, Color};
use crate::fix::{
    add_fix, clamp, clamp01, div_fix, fadd, fdiv, fmul, fsqrt, fsub, in_range,
    lemma_fdiv_le_one, lemma_fdiv_le_two, lemma_fdiv_self, lemma_fdiv_zero, lemma_fmul_one,
    lemma_fmul_unit_interval, lemma_fsqrt_one, mul_fix, sqrt_fix, sub_fix, FIX_MAX, SCALE,
};
use crate::materials::{v_reflect, white, Material};
use crate::ray::{hit_ok, ray_ok, HitRecord, Ray};
use crate::rng::rand_range;
use crate::vec3::{p_ok, v_dot, v_len_sq, v_unit};

verus! {

/// Distance below which an intersection is taken for the ray's own origin
/// and ignored, against shadow acne.
pub const HIT_EPS: i64 = 1000;

/// Half a unit.
pub const HALF_FIX: i64 = 500_000;

/// The gradient sky's blue-channel factor at the zenith, and the factors of
/// the other channels.
pub const SKY_R_FIX: i64 = 500_000;

pub const SKY_G_FIX: i64 = 700_000;

/// Probability weight of sampling the lights from a glass surface, per
/// light.
pub const GLASS_LIGHT_PROB: i64 = 50_000;

/// Probability weight of sampling the lights from any other surface, per
/// light.
pub const OTHER_LIGHT_PROB: i64 = 100_000;

/// An equirectangular backdrop image.
pub struct SkyTexture {
    pub pixels: Vec<u8>,
    pub width: usize,
    pub height: usize,
}

/// The sky: a gradient when no texture is set.
pub struct Sky {
    pub texture: Option<SkyTexture>,
}

pub open spec fn sky_ok(s: Sky) -> bool {
    match s.texture {
        None => true,
        Some(t) => {
            &&& 1 <= t.width <= 10000
            &&& 1 <= t.height <= 10000
            &&& t.pixels@.len() == t.width * t.height * 3
        },
    }
}

impl Sky {
    /// The plain gradient sky.
    pub fn new_default_sky() -> (r: Sky)
        ensures
            r.texture is None,
            sky_ok(r),
    {
        Sky { texture: None }
    }
}

/// A scene: image dimensions, sampling parameters, sky, camera and surfaces.
pub struct Scene {
    pub width: usize,
    pub height: usize,
    pub samples_per_pixel: u32,
    pub max_depth: u32,
    pub sky: Option<Sky>,
    pub camera: Camera,
    pub objects: Vec<Body>,
}

pub open spec fn scene_ok(s: Scene) -> bool {
    &&& 2 <= s.width <= 10000
    &&& 2 <= s.height <= 10000
    &&& 1 <= s.samples_per_pixel <= 10000
    &&& s.max_depth <= 1000
    &&& camera_ok(s.camera)
    &&& (s.sky matches Some(sk) ==> sky_ok(sk))
    &&& s.objects@.len() <= 10000
    &&& (forall|i: int| 0 <= i < s.objects@.len() ==> body_ok(#[trigger] s.objects@[i]))
}

/// The closest hit over the whole world: each surface is asked for a hit
/// nearer than the best so far, in order.
pub open spec fn spec_hit_world(world: Seq<Body>, ray: Ray, t_min: int, t_max: int)
    -> Option<HitRecord>
    decreases world.len(),
{
    if world.len() == 0 {
        None
    } else {
        let prev = spec_hit_world(world.drop_last(), ray, t_min, t_max);
        let cur_max = match prev {
            Some(h) => h.t as int,
            None => t_max,
        };
        match body_hit(world.last(), ray, t_min, cur_max) {
            Some(h) => Some(h),
            None => prev,
        }
    }
}

/// The closest intersection of the ray with any surface of the world at a
/// distance in (t_min, t_max).
#[verifier::rlimit(100)]
pub fn hit_world(world: &Vec<Body>, r: &Ray, t_min: i64, t_max: i64) -> (res: Option<HitRecord>)
    requires
        forall|i: int| 0 <= i < world@.len() ==> body_ok(#[trigger] world@[i]),
        ray_ok(*r),
        in_range(t_min as int),
        in_range(t_max as int),
    ensures
        res == spec_hit_world(world@, *r, t_min as int, t_max as int),
        res matches Some(h) ==> hit_ok(h),
{
    let mut closest_so_far: i64 = t_max;
    let mut hit_record: Option<HitRecord> = None;
    let mut i: usize = 0;
    while i < world.len()
        invariant
            0 <= i <= world@.len(),
            forall|k: int| 0 <= k < world@.len() ==> body_ok(#[trigger] world@[k]),
            ray_ok(*r),
            in_range(t_min as int),
            in_range(t_max as int),
            in_range(closest_so_far as int),
            hit_record == spec_hit_world(world@.take(i as int), *r, t_min as int, t_max as int),
            closest_so_far as int == (match hit_record {
                Some(h) => h.t as int,
                None => t_max as int,
            }),
            hit_record matches Some(h) ==> hit_ok(h),
        decreases world@.len() - i,
    {
        let body = &world[i];
        if let Some(hit) = body.hit(r, t_min, closest_so_far) {
            closest_so_far = hit.t;
            hit_record = Some(hit);
        }
        i = i + 1;
        proof {
            assert(world@.take(i as int).drop_last() =~= world@.take(i as int - 1));
            assert(world@.take(i as int).last() == world@[i as int - 1]);
        }
    }
    proof {
        assert(world@.take(world@.len() as int) =~= world@);
    }
    hit_record
}

/// The light-emitting surfaces of a world, in order: every surface whose
/// material is the Light variant, whatever its shape.
pub open spec fn spec_lights(world: Seq<Body>) -> Seq<Body>
    decreases world.len(),
{
    if world.len() == 0 {
        Seq::empty()
    } else {
        let rest = spec_lights(world.drop_last());
        if body_material(world.last()) is Light {
            rest.push(world.last())
        } else {
            rest
        }
    }
}

/// The surfaces a shadow probe can aim at: every surface whose material is
/// the Light variant, in world order.
pub fn find_lights(world: &Vec<Body>) -> (r: Vec<Body>)
    requires
        forall|i: int| 0 <= i < world@.len() ==> body_ok(#[trigger] world@[i]),
    ensures
        r@ == spec_lights(world@),
        r@.len() <= world@.len(),
        forall|i: int| 0 <= i < r@.len() ==> body_ok(#[trigger] r@[i]),
{
    let mut out: Vec<Body> = Vec::new();
    let mut i: usize = 0;
    while i < world.len()
        invariant
            0 <= i <= world@.len(),
            forall|k: int| 0 <= k < world@.len() ==> body_ok(#[trigger] world@[k]),
            out@ == spec_lights(world@.take(i as int)),
            out@.len() <= i,
            forall|k: int| 0 <= k < out@.len() ==> body_ok(#[trigger] out@[k]),
        decreases world@.len() - i,
    {
        let body = &world[i];
        let emits = match body {
            Body::Sphere(s) => matches!(s.material, Material::Light(_)),
            Body::Ellipsoid(e) => matches!(e.material, Material::Light(_)),
        };
        if emits {
            out.push(*body);
        }
        i = i + 1;
        proof {
            assert(world@.take(i as int).drop_last() =~= world@.take(i as int - 1));
            assert(world@.take(i as int).last() == world@[i as int - 1]);
        }
    }
    proof {
        assert(world@.take(world@.len() as int) =~= world@);
    }
    out
}

/// The vertical interpolation parameter of the sky for a ray.
pub open spec fn sky_t(r: Ray) -> int {
    clamp01(fmul(HALF_FIX as int, fadd(v_unit(r.direction).y as int, SCALE as int)))
}

/// The horizontal lookup parameter of the sky for a ray.
pub open spec fn sky_u(r: Ray) -> int {
    clamp01(fmul(HALF_FIX as int, fadd(v_unit(r.direction).x as int, SCALE as int)))
}

/// The sky's color for vertical parameter t and horizontal parameter u:
/// black without a sky, the white-to-blue gradient without a texture, and
/// otherwise the texture's pixel scaled by 0.7.
pub open spec fn sky_rgb(sky: Option<Sky>, t: int, u: int) -> (int, int, int) {
    match sky {
        None => (0, 0, 0),
        Some(sk) => match sk.texture {
            None => (
                clamp01(fadd(fsub(SCALE as int, t), fmul(t, SKY_R_FIX as int))),
                clamp01(fadd(fsub(SCALE as int, t), fmul(t, SKY_G_FIX as int))),
                clamp01(fadd(fsub(SCALE as int, t), fmul(t, SCALE as int))),
            ),
            Some(tex) => {
                let x = (u * (tex.width - 1)) / (SCALE as int);
                let y = ((SCALE as int - t) * (tex.height - 1)) / (SCALE as int);
                let idx = (y * tex.width + x) * 3;
                (
                    (tex.pixels@[idx] * 700_000) / 255,
                    (tex.pixels@[idx + 1] * 700_000) / 255,
                    (tex.pixels@[idx + 2] * 700_000) / 255,
                )
            },
        },
    }
}

/// Index bounds for the texture lookup.
proof fn lemma_lookup_bounds(p: int, n: int)
    requires
        0 <= p <= SCALE as int,
        1 <= n <= 10000,
    ensures
        0 <= (p * (n - 1)) / (SCALE as int) <= n - 1,
{
    assert(p * (n - 1) >= 0) by (nonlinear_arith)
        requires p >= 0, n >= 1;
    assert(p * (n - 1) <= (SCALE as int) * (n - 1)) by (nonlinear_arith)
        requires p <= SCALE as int, n >= 1;
    vstd::arithmetic::div_mod::lemma_div_is_ordered(p * (n - 1), (SCALE as int) * (n - 1),
        SCALE as int);
    assert(((SCALE as int) * (n - 1)) / (SCALE as int) == n - 1) by (nonlinear_arith);
    assert((p * (n - 1)) / (SCALE as int) >= 0) by (nonlinear_arith)
        requires p * (n - 1) >= 0;
}

/// The sky's color for a ray that hit nothing.
fn sky_color(sky: &Option<Sky>, t: i64, u: i64) -> (c: Color)
    requires
        0 <= t <= SCALE,
        0 <= u <= SCALE,
        (*sky) matches Some(sk) ==> sky_ok(sk),
    ensures
        (c.red as int, c.green as int, c.blue as int) == sky_rgb(*sky, t as int, u as int),
        c_ok(c),
{
    match sky {
        None => Color::new(0, 0, 0),
        Some(sk) => match &sk.texture {
            None => Color::new(
                clamp(add_fix(sub_fix(SCALE, t), mul_fix(t, SKY_R_FIX))),
                clamp(add_fix(sub_fix(SCALE, t), mul_fix(t, SKY_G_FIX))),
                clamp(add_fix(sub_fix(SCALE, t), mul_fix(t, SCALE))),
            ),
            Some(tex) => {
                proof {
                    lemma_lookup_bounds(u as int, tex.width as int);
                    lemma_lookup_bounds(SCALE as int - t as int, tex.height as int);
                    assert((tex.height as int - 1) * tex.width as int + (tex.width as int - 1)
                        < tex.height as int * tex.width as int) by (nonlinear_arith)
                        requires tex.width as int >= 1, tex.height as int >= 1;
                    assert(tex.height as int * tex.width as int * 3
                        == tex.width as int * tex.height as int * 3) by (nonlinear_arith);
                }
                let x: usize = (((u as u64) * ((tex.width as u64) - 1)) / (SCALE as u64)) as usize;
                let y: usize = ((((SCALE - t) as u64) * ((tex.height as u64) - 1))
                    / (SCALE as u64)) as usize;
                proof {
                    assert(y as int * tex.width as int + x as int <= tex.height as int
                        * tex.width as int - 1) by (nonlinear_arith)
                        requires
                            0 <= y as int <= tex.height as int - 1,
                            0 <= x as int <= tex.width as int - 1,
                            tex.width as int >= 1;
                    assert(tex.height as int * tex.width as int <= 100_000_000)
                        by (nonlinear_arith)
                        requires
                            1 <= tex.height as int <= 10000,
                            1 <= tex.width as int <= 10000;
                    assert((tex.height as int * tex.width as int - 1) * 3 + 2 < tex.width as int
                        * tex.height as int * 3) by (nonlinear_arith)
                        requires tex.height as int * tex.width as int >= 1;
                    assert((y as int * tex.width as int + x as int) * 3 + 2 <= (tex.height as int
                        * tex.width as int - 1) * 3 + 2) by (nonlinear_arith)
                        requires y as int * tex.width as int + x as int <= tex.height as int
                            * tex.width as int - 1;
                }
                let idx: usize = (y * tex.width + x) * 3;
                let pr = tex.pixels[idx];
                let pg = tex.pixels[idx + 1];
                let pb = tex.pixels[idx + 2];
                Color::new(
                    (((pr as u64) * 700_000) / 255) as i64,
                    (((pg as u64) * 700_000) / 255) as i64,
                    (((pb as u64) * 700_000) / 255) as i64,
                )
            },
        },
    }
}


/// When the closest hit's material is emissive, the engine returns exactly
/// its emission color.
pub open spec fn emissive_hit_returns_emission(res: Option<HitRecord>, c: Color) -> bool {
    res matches Some(h) ==> (h.material matches Material::Light(l) ==> c == l.color)
}

/// When the closest hit's material is glass with a degenerate index of
/// refraction, its scatter absorbs the path and the engine returns black.
pub open spec fn absorbed_glass_returns_black(res: Option<HitRecord>, c: Color) -> bool {
    res matches Some(h) ==> (h.material matches Material::Glass(g) ==> (g.index_of_refraction
        <= 0 ==> c == black()))
}

/// The attenuation a material hands back whenever its scatter returns one.
pub open spec fn scatter_attenuation(m: Material) -> Color {
    match m {
        Material::Lambertian(l) => l.albedo,
        Material::Metal(mt) => mt.albedo,
        Material::Glass(_) => white(),
        Material::Light(l) => l.color,
    }
}

/// When the closest hit is a fuzz-free metal whose mirror direction points
/// into the surface, its scatter absorbs the path and the engine returns
/// black.
pub open spec fn absorbed_mirror_returns_black(res: Option<HitRecord>, ray: Ray, c: Color)
    -> bool {
    res matches Some(h) ==> (h.material matches Material::Metal(mt) ==> ((mt.fuzz == 0
        && v_len_sq(ray.direction) > 0 && v_dot(v_reflect(v_unit(ray.direction), h.normal),
        h.normal) <= 0) ==> c == black()))
}

/// A light-probe average plus an attenuation applied channelwise to a traced
/// radiance, each channel clamped into [0, 1].
pub open spec fn lit_clamped(lt: Color, att: Color, sub: Color) -> Color {
    Color {
        red: clamp01(fadd(lt.red as int, fmul(att.red as int, sub.red as int))) as i64,
        green: clamp01(fadd(lt.green as int, fmul(att.green as int, sub.green as int))) as i64,
        blue: clamp01(fadd(lt.blue as int, fmul(att.blue as int, sub.blue as int))) as i64,
    }
}

/// A hit resolves to black (the path absorbed), to the material's
/// attenuation itself (no scattered ray: pure emission), or to some bounded
/// averaged light-probe term plus the attenuation applied to some bounded
/// radiance traced along the scattered ray, clamped per channel; with no
/// lights the probe term is black.
pub open spec fn hit_composition_ok(res: Option<HitRecord>, c: Color, n_lights: int) -> bool {
    res matches Some(h) ==> {
        ||| c == black()
        ||| c == scatter_attenuation(h.material)
        ||| exists|lt: Color, sub: Color|
            {
                &&& c_ok(lt)
                &&& c_ok(sub)
                &&& (n_lights == 0 ==> lt == black())
                &&& c == #[trigger] lit_clamped(lt, scatter_attenuation(h.material), sub)
            }
    }
}

/// The color a ray contributes to its pixel: black at exhausted depth; the
/// sky on a miss; on a hit, the scattered ray traced one bounce shallower
/// and weighted by the attenuation, with emissive materials contributing
/// their color as terminal radiance. At the first couple of bounces, with
/// probability proportional to the number of lights, a shallow single-bounce
/// probe toward every light's center is averaged in: a documented
/// approximation that trades bias for less noise, kept as designed.
#[verifier::rlimit(100)]
pub fn ray_color(ray: &Ray, scene: &Scene, lights: &Vec<Body>, max_depth: u32, depth: u32)
    -> (c: Color)
    requires
        scene_ok(*scene),
        ray_ok(*ray),
        forall|i: int| 0 <= i < lights@.len() ==> body_ok(#[trigger] lights@[i]),
        lights@.len() <= 10000,
        max_depth <= 1_000_000,
        depth <= 1_000_000,
    ensures
        c_ok(c),
        depth == 0 ==> c == black(),
        (depth > 0 && spec_hit_world(scene.objects@, *ray, HIT_EPS as int, FIX_MAX as int)
            is None && v_len_sq(ray.direction) == 0) ==> c == black(),
        (depth > 0 && spec_hit_world(scene.objects@, *ray, HIT_EPS as int, FIX_MAX as int)
            is None && v_len_sq(ray.direction) > 0) ==> (c.red as int, c.green as int,
            c.blue as int) == sky_rgb(scene.sky, sky_t(*ray), sky_u(*ray)),
        depth > 0 ==> emissive_hit_returns_emission(spec_hit_world(scene.objects@, *ray,
            HIT_EPS as int, FIX_MAX as int), c),
        depth > 0 ==> absorbed_glass_returns_black(spec_hit_world(scene.objects@, *ray,
            HIT_EPS as int, FIX_MAX as int), c),
        depth > 0 ==> absorbed_mirror_returns_black(spec_hit_world(scene.objects@, *ray,
            HIT_EPS as int, FIX_MAX as int), *ray, c),
        depth > 0 ==> hit_composition_ok(spec_hit_world(scene.objects@, *ray, HIT_EPS as int,
            FIX_MAX as int), c, lights@.len() as int),
    decreases max_depth, depth,
{
    if depth == 0 {
        return Color::new(0, 0, 0);
    }
    let hit = hit_world(&scene.objects, ray, HIT_EPS, FIX_MAX);
    match hit {
        Some(hit_record) => {
            let scattered = hit_record.material.scatter(ray, &hit_record);
            match scattered {
                Some((scattered_ray, albedo)) => {
                    let mut light_red: i64 = 0;
                    let mut light_green: i64 = 0;
                    let mut light_blue: i64 = 0;
                    let prob: i64 = match hit_record.material {
                        Material::Glass(_) => GLASS_LIGHT_PROB,
                        _ => OTHER_LIGHT_PROB,
                    };
                    let n_lights = lights.len();
                    if n_lights > 0 && depth + 2 > max_depth && max_depth >= 2 {
                        let weight = mul_fix((n_lights as i64) * SCALE, prob);
                        let threshold = sub_fix(SCALE, weight);
                        if rand_range(0, SCALE) > threshold {
                            let mut j: usize = 0;
                            while j < lights.len()
                                invariant
                                    scene_ok(*scene),
                                    forall|k: int| 0 <= k < lights@.len()
                                        ==> body_ok(#[trigger] lights@[k]),
                                    lights@.len() <= 10000,
                                    max_depth >= 2,
                                    j <= lights@.len(),
                                    p_ok(hit_record.point),
                                    c_ok(albedo),
                                    0 <= light_red <= j * SCALE,
                                    0 <= light_green <= j * SCALE,
                                    0 <= light_blue <= j * SCALE,
                                decreases lights@.len() - j,
                            {
                                let light = &lights[j];
                                let ldir = light.center().sub(hit_record.point);
                                let light_ray = Ray::new(hit_record.point, ldir);
                                let target = ray_color(&light_ray, scene, lights, 1, 1);
                                proof {
                                    lemma_fmul_unit_interval(albedo.red as int,
                                        target.red as int);
                                    lemma_fmul_unit_interval(albedo.green as int,
                                        target.green as int);
                                    lemma_fmul_unit_interval(albedo.blue as int,
                                        target.blue as int);
                                }
                                light_red = add_fix(light_red, mul_fix(albedo.red, target.red));
                                light_green = add_fix(light_green, mul_fix(albedo.green,
                                    target.green));
                                light_blue = add_fix(light_blue, mul_fix(albedo.blue,
                                    target.blue));
                                j = j + 1;
                            }
                            let n_fix = (n_lights as i64) * SCALE;
                            proof {
                                lemma_fdiv_le_one(light_red as int, n_fix as int);
                                lemma_fdiv_le_one(light_green as int, n_fix as int);
                                lemma_fdiv_le_one(light_blue as int, n_fix as int);
                            }
                            light_red = div_fix(light_red, n_fix);
                            light_green = div_fix(light_green, n_fix);
                            light_blue = div_fix(light_blue, n_fix);
                        }
                    }
                    proof {
                        assert(0 <= light_red <= SCALE);
                        assert(0 <= light_green <= SCALE);
                        assert(0 <= light_blue <= SCALE);
                    }
                    match scattered_ray {
                        Some(sr) => {
                            let target = ray_color(&sr, scene, lights, max_depth, depth - 1);
                            let out = Color::new(
                                add_fix(light_red, mul_fix(albedo.red, target.red)),
                                add_fix(light_green, mul_fix(albedo.green, target.green)),
                                add_fix(light_blue, mul_fix(albedo.blue, target.blue)),
                            ).clamped();
                            proof {
                                let ltc = Color {
                                    red: light_red,
                                    green: light_green,
                                    blue: light_blue,
                                };
                                assert(c_ok(ltc));
                                if lights@.len() == 0 {
                                    assert(ltc =~= black());
                                }
                                assert(out =~= lit_clamped(ltc, scatter_attenuation(
                                    hit_record.material), target));
                            }
                            out
                        },
                        None => albedo,
                    }
                },
                None => {
                    // Absorbed rays are not bounced toward the lights: they
                    // would be absorbed in the opposite direction too.
                    Color::new(0, 0, 0)
                },
            }
        },
        None => {
            let ls = ray.direction.length_squared();
            if ls == 0 {
                // A direction too short to normalize contributes nothing.
                return Color::new(0, 0, 0);
            }
            let unit = ray.direction.unit_vector();
            let t = clamp(mul_fix(HALF_FIX, add_fix(unit.y, SCALE)));
            let u = clamp(mul_fix(HALF_FIX, add_fix(unit.x, SCALE)));
            sky_color(&scene.sky, t, u)
        },
    }
}

fn to_byte(g: i64) -> (b: u8)
    requires
        0 <= g <= SCALE,
    ensures
        b as int == ((g as int) * 255 + 500_000) / 1_000_000,
        g == 0 ==> b == 0,
        g == SCALE ==> b == 255,
{
    proof {
        assert(500_000int / 1_000_000int == 0) by (nonlinear_arith);
        assert(255_500_000int / 1_000_000int == 255) by (nonlinear_arith);
    }
    let v: u64 = ((g as u64) * 255 + 500_000) / 1_000_000;
    v as u8
}

/// The scene's sky is the plain gradient.
pub open spec fn gradient_sky(s: Scene) -> bool {
    s.sky matches Some(sk) && sk.texture is None
}

/// Every image-plane coordinate the scanline sampler can draw yields a
/// camera ray whose direction does not round to zero length.
pub open spec fn camera_rays_nonzero(c: Camera) -> bool {
    forall|u: int, v: int|
        0 <= u <= 2 * (SCALE as int) && 0 <= v <= 2 * (SCALE as int)
            ==> v_len_sq(#[trigger] spec_ray_direction(c, u, v)) > 0
}

/// The byte one channel of a pixel takes for an accumulated sample sum:
/// averaged over the samples, clamped, gamma-encoded by square root and
/// rounded to eight bits.
pub open spec fn pixel_byte(spp: int, sum: int) -> int {
    (fsqrt(clamp01(fdiv(sum, spp * (SCALE as int)))) * 255 + 500_000) / 1_000_000
}

/// A pixel's three bytes come from accumulated channel sums of at most one
/// unit per sample, pushed through the averaging pipeline.
pub open spec fn pixel_ok(spp: int, b0: u8, b1: u8, b2: u8) -> bool {
    exists|sr: int, sg: int, sb: int|
        #![trigger pixel_byte(spp, sr), pixel_byte(spp, sg), pixel_byte(spp, sb)]
        {
            &&& 0 <= sr <= spp * (SCALE as int)
            &&& 0 <= sg <= spp * (SCALE as int)
            &&& 0 <= sb <= spp * (SCALE as int)
            &&& b0 as int == pixel_byte(spp, sr)
            &&& b1 as int == pixel_byte(spp, sg)
            &&& b2 as int == pixel_byte(spp, sb)
        }
}

/// Everything one rendered scanline owes: its length; all zeros when there
/// is nothing to trace at all; full blue on every pixel under the gradient
/// sky alone (its blue term is (1-t) + t, one unit for every direction);
/// and every pixel's three bytes shaped by the sampling pipeline.
pub open spec fn row_ok(scene: Scene, row: Seq<u8>) -> bool {
    &&& row.len() == scene.width * 3
    &&& ((scene.objects@.len() == 0 && scene.sky is None) ==> (forall|i: int| 0 <= i < row.len()
        ==> row[i] == 0))
    &&& ((scene.objects@.len() == 0 && gradient_sky(scene) && camera_rays_nonzero(scene.camera)
        && scene.max_depth >= 1) ==> (forall|i: int| 0 <= i < row.len() && i % 3 == 2
        ==> row[i] == 255))
    &&& (forall|p: int| 0 <= p < scene.width ==> pixel_ok(scene.samples_per_pixel as int,
        row[3 * p], row[3 * p + 1], #[trigger] row[3 * p + 2]))
}

/// One scanline: every pixel accumulates jittered camera-ray samples, is
/// averaged, gamma-encoded by square root and written as three 8-bit
/// channels.
#[verifier::rlimit(100)]
pub fn render_line(scene: &Scene, lights: &Vec<Body>, y: usize) -> (row: Vec<u8>)
    requires
        scene_ok(*scene),
        forall|i: int| 0 <= i < lights@.len() ==> body_ok(#[trigger] lights@[i]),
        lights@.len() <= 10000,
        y < scene.height,
    ensures
        row@.len() == scene.width * 3,
        row_ok(*scene, row@),
{
    let mut row: Vec<u8> = Vec::new();
    let mut x: usize = 0;
    while x < scene.width
        invariant
            scene_ok(*scene),
            forall|k: int| 0 <= k < lights@.len() ==> body_ok(#[trigger] lights@[k]),
            lights@.len() <= 10000,
            y < scene.height,
            x <= scene.width,
            row@.len() == x * 3,
            (scene.objects@.len() == 0 && scene.sky is None) ==> (forall|i: int| 0 <= i
                < row@.len() ==> row@[i] == 0),
            (scene.objects@.len() == 0 && gradient_sky(*scene)
                && camera_rays_nonzero(scene.camera) && scene.max_depth >= 1) ==> (forall|i: int|
                0 <= i < row@.len() && i % 3 == 2 ==> row@[i] == 255),
            forall|p: int| 0 <= p < x ==> pixel_ok(scene.samples_per_pixel as int, row@[3 * p],
                row@[3 * p + 1], #[trigger] row@[3 * p + 2]),
        decreases scene.width - x,
    {
        let mut sum_red: i64 = 0;
        let mut sum_green: i64 = 0;
        let mut sum_blue: i64 = 0;
        let mut s: u32 = 0;
        while s < scene.samples_per_pixel
            invariant
                scene_ok(*scene),
                forall|k: int| 0 <= k < lights@.len() ==> body_ok(#[trigger] lights@[k]),
                lights@.len() <= 10000,
                x < scene.width,
                y < scene.height,
                s <= scene.samples_per_pixel,
                0 <= sum_red <= s * SCALE,
                0 <= sum_green <= s * SCALE,
                0 <= sum_blue <= s * SCALE,
                (scene.objects@.len() == 0 && scene.sky is None) ==> (sum_red == 0 && sum_green
                    == 0 && sum_blue == 0),
                (scene.objects@.len() == 0 && gradient_sky(*scene)
                    && camera_rays_nonzero(scene.camera) && scene.max_depth >= 1)
                    ==> sum_blue == s * SCALE,
            decreases scene.samples_per_pixel - s,
        {
            let ju = rand_range(0, SCALE);
            let jv = rand_range(0, SCALE);
            let nu = add_fix((x as i64) * SCALE, ju);
            let du = ((scene.width - 1) as i64) * SCALE;
            let nv = sub_fix((scene.height as i64) * SCALE, add_fix((y as i64) * SCALE, jv));
            let dv = ((scene.height - 1) as i64) * SCALE;
            proof {
                lemma_fdiv_le_two(nu as int, du as int);
                lemma_fdiv_le_two(nv as int, dv as int);
            }
            let u = div_fix(nu, du);
            let v = div_fix(nv, dv);
            let r = scene.camera.get_ray(u, v);
            let c = ray_color(&r, scene, lights, scene.max_depth, scene.max_depth);
            proof {
                if scene.objects@.len() == 0 {
                    assert(spec_hit_world(scene.objects@, r, HIT_EPS as int,
                        FIX_MAX as int) is None);
                    if scene.sky is None {
                        assert(c.red == 0 && c.green == 0 && c.blue == 0);
                    }
                    if gradient_sky(*scene) && camera_rays_nonzero(scene.camera)
                        && scene.max_depth >= 1 {
                        assert(v_len_sq(spec_ray_direction(scene.camera, u as int,
                            v as int)) > 0);
                        assert(v_len_sq(r.direction) > 0);
                        lemma_fmul_one(sky_t(r));
                        assert(c.blue == SCALE);
                    }
                }
            }
            sum_red = add_fix(sum_red, c.red);
            sum_green = add_fix(sum_green, c.green);
            sum_blue = add_fix(sum_blue, c.blue);
            s = s + 1;
        }
        let spp_fix = (scene.samples_per_pixel as i64) * SCALE;
        proof {
            if scene.objects@.len() == 0 && scene.sky is None {
                lemma_fdiv_zero(spp_fix as int);
            }
            if scene.objects@.len() == 0 && gradient_sky(*scene)
                && camera_rays_nonzero(scene.camera) && scene.max_depth >= 1 {
                lemma_fdiv_self(spp_fix as int);
                lemma_fsqrt_one();
            }
        }
        let avg_red = clamp(div_fix(sum_red, spp_fix));
        let avg_green = clamp(div_fix(sum_green, spp_fix));
        let avg_blue = clamp(div_fix(sum_blue, spp_fix));
        let b0 = to_byte(sqrt_fix(avg_red));
        let b1 = to_byte(sqrt_fix(avg_green));
        let b2 = to_byte(sqrt_fix(avg_blue));
        proof {
            assert(b0 as int == pixel_byte(scene.samples_per_pixel as int, sum_red as int));
            assert(b1 as int == pixel_byte(scene.samples_per_pixel as int, sum_green as int));
            assert(b2 as int == pixel_byte(scene.samples_per_pixel as int, sum_blue as int));
            assert(pixel_ok(scene.samples_per_pixel as int, b0, b1, b2));
        }
        row.push(b0);
        row.push(b1);
        row.push(b2);
        proof {
            let base = 3 * (x as int);
            assert(base % 3 == 0) by (nonlinear_arith)
                requires base == 3 * (x as int), x as int >= 0;
            assert((base + 1) % 3 == 1) by (nonlinear_arith)
                requires base == 3 * (x as int), x as int >= 0;
            assert((base + 2) % 3 == 2) by (nonlinear_arith)
                requires base == 3 * (x as int), x as int >= 0;
        }
        x = x + 1;
    }
    proof {
        assert(row_ok(*scene, row@));
    }
    row
}

/// Relies on rayon's into_par_iter, map and collect over the row indices:
/// an indexed parallel map collects in index order, so the result holds one
/// entry per index, each exactly what the verified render_line returns for
/// that row — hence each entry satisfies render_line's postcondition.
#[verifier::external_body]
fn par_render_rows(scene: &Scene, lights: &Vec<Body>) -> (rows: Vec<Vec<u8>>)
    requires
        scene_ok(*scene),
        forall|i: int| 0 <= i < lights@.len() ==> body_ok(#[trigger] lights@[i]),
        lights@.len() <= 10000,
    ensures
        rows@.len() == scene.height,
        forall|i: int| 0 <= i < rows@.len() ==> call_ensures(render_line, (scene, lights,
            i as usize), #[trigger] rows@[i]),
{
    (0..scene.height).into_par_iter().map(|y| render_line(scene, lights, y)).collect()
}

/// The rows of an image laid end to end, top row first.
pub open spec fn flatten_rows(rows: Seq<Seq<u8>>) -> Seq<u8>
    decreases rows.len(),
{
    if rows.len() == 0 {
        Seq::empty()
    } else {
        flatten_rows(rows.drop_last()) + rows.last()
    }
}

/// Render the scene into a flat byte buffer, three channels per pixel,
/// row-major with the top row first: the lights are derived once, each
/// scanline is rendered as an independent parallel task, and the rows —
/// each owing everything render_line's contract states — are assembled in
/// order. Writing the buffer to an encoder is the caller's business.
#[verifier::rlimit(100)]
pub fn render(scene: &Scene) -> (pixels: Vec<u8>)
    requires
        scene_ok(*scene),
    ensures
        pixels@.len() == scene.width * scene.height * 3,
        (scene.objects@.len() == 0 && scene.sky is None) ==> (forall|i: int| 0 <= i
            < pixels@.len() ==> pixels@[i] == 0),
        (scene.objects@.len() == 0 && gradient_sky(*scene) && camera_rays_nonzero(scene.camera)
            && scene.max_depth >= 1) ==> (forall|i: int| 0 <= i < pixels@.len() && i % 3 == 2
            ==> pixels@[i] == 255),
        exists|rows: Seq<Seq<u8>>|
            {
                &&& rows.len() == scene.height
                &&& (forall|k: int| 0 <= k < rows.len() ==> row_ok(*scene, #[trigger] rows[k]))
                &&& pixels@ == flatten_rows(rows)
            },
{
    let lights = find_lights(&scene.objects);
    let rows = par_render_rows(scene, &lights);
    let ghost rseq = rows@.map_values(|v: Vec<u8>| v@);
    let mut pixels: Vec<u8> = Vec::new();
    let mut i: usize = 0;
    proof {
        assert(rseq.take(0) =~= Seq::<Seq<u8>>::empty());
    }
    while i < rows.len()
        invariant
            rows@.len() == scene.height,
            rseq == rows@.map_values(|v: Vec<u8>| v@),
            forall|k: int| 0 <= k < rows@.len() ==> row_ok(*scene, (#[trigger] rows@[k])@),
            2 <= scene.width <= 10000,
            2 <= scene.height <= 10000,
            i <= rows@.len(),
            pixels@.len() == i * (scene.width * 3),
            pixels@ == flatten_rows(rseq.take(i as int)),
            (scene.objects@.len() == 0 && scene.sky is None) ==> (forall|n: int| 0 <= n
                < pixels@.len() ==> pixels@[n] == 0),
            (scene.objects@.len() == 0 && gradient_sky(*scene)
                && camera_rays_nonzero(scene.camera) && scene.max_depth >= 1) ==> (forall|n: int|
                0 <= n < pixels@.len() && n % 3 == 2 ==> pixels@[n] == 255),
        decreases rows@.len() - i,
    {
        let rl = rows[i].len();
        let mut j: usize = 0;
        while j < rl
            invariant
                rows@.len() == scene.height,
                rseq == rows@.map_values(|v: Vec<u8>| v@),
                forall|k: int| 0 <= k < rows@.len() ==> row_ok(*scene, (#[trigger] rows@[k])@),
                2 <= scene.width <= 10000,
                2 <= scene.height <= 10000,
                i < rows@.len(),
                rl == scene.width * 3,
                j <= rl,
                pixels@.len() == i * (scene.width * 3) + j,
                pixels@ == flatten_rows(rseq.take(i as int)) + rows@[i as int]@.take(j as int),
                (scene.objects@.len() == 0 && scene.sky is None) ==> (forall|n: int| 0 <= n
                    < pixels@.len() ==> pixels@[n] == 0),
                (scene.objects@.len() == 0 && gradient_sky(*scene)
                    && camera_rays_nonzero(scene.camera) && scene.max_depth >= 1)
                    ==> (forall|n: int| 0 <= n < pixels@.len() && n % 3 == 2
                    ==> pixels@[n] == 255),
            decreases rl - j,
        {
            let b = rows[i][j];
            proof {
                assert((i as int) * ((scene.width as int) * 3) + (j as int) == 3 * ((i as int)
                    * (scene.width as int)) + (j as int)) by (nonlinear_arith);
                assert((3 * ((i as int) * (scene.width as int)) + (j as int)) % 3
                    == (j as int) % 3) by (nonlinear_arith)
                    requires (i as int) * (scene.width as int) >= 0;
                assert((i as int) * (scene.width as int) >= 0) by (nonlinear_arith)
                    requires i as int >= 0, scene.width as int >= 0;
            }
            pixels.push(b);
            j = j + 1;
            proof {
                assert(rows@[i as int]@.take(j as int) =~= rows@[i as int]@.take(
                    j as int - 1).push(rows@[i as int]@[j as int - 1]));
                assert(pixels@ =~= flatten_rows(rseq.take(i as int)) + rows@[i as int]@.take(
                    j as int));
            }
        }
        proof {
            assert(rows@[i as int]@.take(rl as int) =~= rows@[i as int]@);
            assert(rseq.take(i as int + 1).drop_last() =~= rseq.take(i as int));
            assert(rseq.take(i as int + 1).last() == rows@[i as int]@);
            assert(pixels@ =~= flatten_rows(rseq.take(i as int + 1)));
            assert((i + 1) * (scene.width * 3) == i * (scene.width * 3) + scene.width * 3)
                by (nonlinear_arith);
        }
        i = i + 1;
    }
    proof {
        assert(rseq.take(rows@.len() as int) =~= rseq);
        assert(scene.height * (scene.width * 3) == scene.width * scene.height * 3)
            by (nonlinear_arith);
        assert(rseq.len() == scene.height);
        assert(forall|k: int| 0 <= k < rseq.len() ==> row_ok(*scene, #[trigger] rseq[k]));
        assert(pixels@ == flatten_rows(rseq));
    }
    pixels
}

/// Every surface the light-finding keeps is emissive.
pub proof fn lemma_lights_all_emissive(world: Seq<Body>)
    ensures
        forall|i: int| 0 <= i < spec_lights(world).len() ==> body_material(
            #[trigger] spec_lights(world)[i]) is Light,
    decreases world.len(),
{
    if world.len() > 0 {
        lemma_lights_all_emissive(world.drop_last());
    }
}

} // verus!
