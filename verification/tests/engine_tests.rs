use raytracer::body::{atan2_fix, Body, Ellipsoid, Sphere, HALF_PI_FIX, PI_FIX, QUARTER_PI_FIX};
use raytracer::camera::Camera;
use raytracer::color::Color;
use raytracer::fix::{FIX_MAX, SCALE};
use raytracer::materials::{Glass, Lambertian, Light, Material, Metal};
use raytracer::ray::{HitRecord, Ray};
use raytracer::raytracer::{find_lights, hit_world, ray_color, render, render_line, Scene, Sky,
    SkyTexture};
use raytracer::vec3::Point3D;

fn default_camera() -> Camera {
    Camera::new(Point3D::new(0, 0, -3 * SCALE), 2 * SCALE, 2_666_000, SCALE)
}

fn empty_scene() -> Scene {
    Scene {
        width: 80,
        height: 60,
        samples_per_pixel: 1,
        max_depth: 2,
        sky: Some(Sky::new_default_sky()),
        camera: default_camera(),
        objects: Vec::new(),
    }
}

#[test]
fn test_ray_color() {
    let p = Point3D::new(0, 0, 0);
    let q = Point3D::new(SCALE, 0, 0);
    let r = Ray::new(p, q);
    let scene = empty_scene();
    let l = Vec::new();
    assert_eq!(ray_color(&r, &scene, &l, 2, 2), Color::new(750_000, 850_000, SCALE));
}

#[test]
fn raytracer_test_ray_color() {
    let p = Point3D::new(0, 0, 0);
    let q = Point3D::new(SCALE, 0, 0);
    let r = Ray::new(p, q);
    let scene = empty_scene();
    let l = Vec::new();
    assert_eq!(ray_color(&r, &scene, &l, 2, 2), Color::new(750_000, 850_000, SCALE));
}

#[test]
fn test_find_lights() {
    let gray = Color::new(500_000, 500_000, 500_000);
    let world = vec![
        Body::Sphere(Sphere::new(
            Point3D::new(0, 0, -SCALE),
            500_000,
            Material::Light(Light::new()),
        )),
        Body::Sphere(Sphere::new(
            Point3D::new(0, 0, -SCALE),
            500_000,
            Material::Lambertian(Lambertian::new(gray)),
        )),
    ];
    assert_eq!(find_lights(&world).len(), 1);
}

#[test]
fn raytracer_test_find_lights() {
    let gray = Color::new(500_000, 500_000, 500_000);
    let world = vec![
        Body::Sphere(Sphere::new(
            Point3D::new(0, 0, -SCALE),
            500_000,
            Material::Light(Light::new()),
        )),
        Body::Sphere(Sphere::new(
            Point3D::new(0, 0, -SCALE),
            500_000,
            Material::Lambertian(Lambertian::new(gray)),
        )),
    ];
    assert_eq!(find_lights(&world).len(), 1);
}

#[test]
fn test_ray_color_depth_zero() {
    let gray = Color::new(500_000, 500_000, 500_000);
    let mut scene = empty_scene();
    scene.objects.push(Body::Sphere(Sphere::new(
        Point3D::new(0, 0, -2 * SCALE),
        SCALE,
        Material::Lambertian(Lambertian::new(gray)),
    )));
    let r = Ray::new(Point3D::new(0, 0, 0), Point3D::new(0, 0, -SCALE));
    let l = Vec::new();
    assert_eq!(ray_color(&r, &scene, &l, 2, 0), Color::new(0, 0, 0));
}

#[test]
fn test_ray_color_no_sky_is_black() {
    let mut scene = empty_scene();
    scene.sky = None;
    let r = Ray::new(Point3D::new(0, 0, 0), Point3D::new(SCALE, 0, 0));
    let l = Vec::new();
    assert_eq!(ray_color(&r, &scene, &l, 2, 2), Color::new(0, 0, 0));
}

#[test]
fn test_ray_color_emissive_hit() {
    let mut scene = empty_scene();
    scene.objects.push(Body::Sphere(Sphere::new(
        Point3D::new(0, 0, -2 * SCALE),
        SCALE,
        Material::Light(Light::new()),
    )));
    let r = Ray::new(Point3D::new(0, 0, 0), Point3D::new(0, 0, -SCALE));
    let l = Vec::new();
    assert_eq!(ray_color(&r, &scene, &l, 2, 2), Color::new(SCALE, SCALE, SCALE));
}

#[test]
fn test_ray_color_texture_sky() {
    let mut scene = empty_scene();
    scene.sky = Some(Sky {
        texture: Some(SkyTexture {
            pixels: vec![255, 0, 0, 0, 255, 0],
            width: 2,
            height: 1,
        }),
    });
    let r = Ray::new(Point3D::new(0, 0, 0), Point3D::new(SCALE, 0, 0));
    let l = Vec::new();
    // u lands on the second texel; its green is scaled by 0.7.
    assert_eq!(ray_color(&r, &scene, &l, 2, 2), Color::new(0, 700_000, 0));
}

#[test]
fn test_hit_world_picks_closest() {
    let gray = Color::new(500_000, 500_000, 500_000);
    let far = Body::Sphere(Sphere::new(
        Point3D::new(0, 0, -6 * SCALE),
        SCALE,
        Material::Lambertian(Lambertian::new(gray)),
    ));
    let near = Body::Sphere(Sphere::new(
        Point3D::new(0, 0, -3 * SCALE),
        SCALE,
        Material::Lambertian(Lambertian::new(gray)),
    ));
    let world = vec![far, near];
    let ray = Ray::new(Point3D::new(0, 0, 0), Point3D::new(0, 0, -SCALE));
    let hit = hit_world(&world, &ray, 1000, FIX_MAX).unwrap();
    assert_eq!(hit.t, 2 * SCALE);
}

fn sample_hit(material: Material) -> HitRecord {
    HitRecord {
        t: SCALE,
        point: Point3D::new(0, 0, -SCALE),
        normal: Point3D::new(0, 0, SCALE),
        front_face: true,
        material,
        u: 0,
        v: 0,
    }
}

#[test]
fn test_lambertian_always_scatters() {
    let albedo = Color::new(300_000, 400_000, 500_000);
    let m = Material::Lambertian(Lambertian::new(albedo));
    let ray = Ray::new(Point3D::new(0, 0, 0), Point3D::new(0, 0, -SCALE));
    let hit = sample_hit(m);
    for _ in 0..16 {
        let (scattered, attenuation) = m.scatter(&ray, &hit).unwrap();
        let s = scattered.unwrap();
        assert_eq!(s.origin.z(), -SCALE);
        assert_eq!(attenuation, albedo);
    }
}

#[test]
fn test_metal_absorbs_into_surface() {
    let albedo = Color::new(800_000, 800_000, 800_000);
    let m = Material::Metal(Metal::new(albedo, 0));
    // The ray leaves the surface along the normal's side, so its mirror
    // image points into the surface and is absorbed.
    let ray = Ray::new(Point3D::new(0, 0, -2 * SCALE), Point3D::new(0, 0, SCALE));
    let hit = sample_hit(m);
    assert!(m.scatter(&ray, &hit).is_none());
}

#[test]
fn test_metal_reflects() {
    let albedo = Color::new(800_000, 800_000, 800_000);
    let m = Material::Metal(Metal::new(albedo, 0));
    let ray = Ray::new(Point3D::new(0, 0, 0), Point3D::new(0, 0, -SCALE));
    let hit = sample_hit(m);
    let (scattered, attenuation) = m.scatter(&ray, &hit).unwrap();
    let s = scattered.unwrap();
    assert_eq!(attenuation, albedo);
    assert_eq!(s.direction.z(), SCALE);
}

#[test]
fn test_glass_zero_index_absorbs() {
    let m = Material::Glass(Glass::new(0));
    let ray = Ray::new(Point3D::new(0, 0, 0), Point3D::new(0, 0, -SCALE));
    let hit = sample_hit(m);
    assert!(m.scatter(&ray, &hit).is_none());
}

#[test]
fn test_glass_scatters_transparent() {
    let m = Material::Glass(Glass::new(1_500_000));
    let ray = Ray::new(Point3D::new(0, 0, 0), Point3D::new(0, 0, -SCALE));
    let hit = sample_hit(m);
    for _ in 0..16 {
        let (scattered, attenuation) = m.scatter(&ray, &hit).unwrap();
        assert!(scattered.is_some());
        assert_eq!(attenuation, Color::new(SCALE, SCALE, SCALE));
    }
}

#[test]
fn test_light_scatter_emits() {
    let m = Material::Light(Light::new());
    let ray = Ray::new(Point3D::new(0, 0, 0), Point3D::new(0, 0, -SCALE));
    let hit = sample_hit(m);
    let (scattered, attenuation) = m.scatter(&ray, &hit).unwrap();
    assert!(scattered.is_none());
    assert_eq!(attenuation, Color::new(SCALE, SCALE, SCALE));
}

#[test]
fn test_render_line_length() {
    let gray = Color::new(500_000, 500_000, 500_000);
    let mut scene = empty_scene();
    scene.objects.push(Body::Sphere(Sphere::new(
        Point3D::new(0, 0, 0),
        SCALE,
        Material::Lambertian(Lambertian::new(gray)),
    )));
    let lights = find_lights(&scene.objects);
    let row = render_line(&scene, &lights, 0);
    assert_eq!(row.len(), scene.width * 3);
}

#[test]
fn test_render_full_scene_buffer() {
    let gray = Color::new(500_000, 500_000, 500_000);
    let mut scene = empty_scene();
    scene.objects.push(Body::Sphere(Sphere::new(
        Point3D::new(0, 0, 0),
        SCALE,
        Material::Lambertian(Lambertian::new(gray)),
    )));
    scene.objects.push(Body::Sphere(Sphere::new(
        Point3D::new(2 * SCALE, 2 * SCALE, 0),
        500_000,
        Material::Light(Light::new()),
    )));
    scene.objects.push(Body::Sphere(Sphere::new(
        Point3D::new(-2 * SCALE, 0, 0),
        500_000,
        Material::Glass(Glass::new(1_500_000)),
    )));
    let pixels = render(&scene);
    assert_eq!(pixels.len(), scene.width * scene.height * 3);
}

#[test]
fn test_render_size_stable_across_runs() {
    let mut scene = empty_scene();
    scene.width = 16;
    scene.height = 12;
    scene.objects.push(Body::Sphere(Sphere::new(
        Point3D::new(0, 0, 0),
        SCALE,
        Material::Metal(Metal::new(Color::new(800_000, 800_000, 800_000), 100_000)),
    )));
    let first = render(&scene);
    let second = render(&scene);
    // Stochastic sampling may change the pixels, never the buffer's shape.
    assert_eq!(first.len(), 16 * 12 * 3);
    assert_eq!(second.len(), 16 * 12 * 3);
}

#[test]
fn test_clamp() {
    assert_eq!(raytracer::fix::clamp(-5), 0);
    assert_eq!(raytracer::fix::clamp(0), 0);
    assert_eq!(raytracer::fix::clamp(123_456), 123_456);
    assert_eq!(raytracer::fix::clamp(SCALE), SCALE);
    assert_eq!(raytracer::fix::clamp(SCALE + 1), SCALE);
}

#[test]
fn test_atan2_quadrants() {
    assert_eq!(atan2_fix(0, SCALE), 0);
    assert_eq!(atan2_fix(0, -SCALE), PI_FIX);
    assert_eq!(atan2_fix(SCALE, 0), HALF_PI_FIX);
    assert_eq!(atan2_fix(-SCALE, 0), -HALF_PI_FIX);
    assert_eq!(atan2_fix(SCALE, SCALE), QUARTER_PI_FIX);
    assert_eq!(atan2_fix(0, 0), 0);
}

#[test]
fn test_find_lights_includes_ellipsoid_lights() {
    let gray = Color::new(500_000, 500_000, 500_000);
    let world = vec![
        Body::Ellipsoid(Ellipsoid::new(
            Point3D::new(0, 2 * SCALE, 0),
            Point3D::new(SCALE, SCALE, 2 * SCALE),
            Material::Light(Light::new()),
        )),
        Body::Sphere(Sphere::new(
            Point3D::new(0, 0, -SCALE),
            500_000,
            Material::Lambertian(Lambertian::new(gray)),
        )),
        Body::Sphere(Sphere::new(
            Point3D::new(0, 0, SCALE),
            500_000,
            Material::Light(Light::new()),
        )),
    ];
    let lights = find_lights(&world);
    assert_eq!(lights.len(), 2);
    assert_eq!(lights[0].center().y(), 2 * SCALE);
    assert_eq!(lights[1].center().z(), SCALE);
}

#[test]
fn test_render_gradient_sky_blue_channel_full() {
    let mut scene = empty_scene();
    scene.width = 8;
    scene.height = 6;
    scene.samples_per_pixel = 2;
    let pixels = render(&scene);
    assert_eq!(pixels.len(), 8 * 6 * 3);
    // Under the gradient sky alone, blue is (1-t) + t: one for every ray.
    for (i, b) in pixels.iter().enumerate() {
        if i % 3 == 2 {
            assert_eq!(*b, 255);
        }
    }
}

#[test]
fn test_render_no_sky_all_zero() {
    let mut scene = empty_scene();
    scene.width = 8;
    scene.height = 6;
    scene.sky = None;
    let pixels = render(&scene);
    assert_eq!(pixels.len(), 8 * 6 * 3);
    for b in pixels.iter() {
        assert_eq!(*b, 0);
    }
}
