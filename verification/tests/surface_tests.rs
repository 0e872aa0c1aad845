use raytracer::body::{u_v_from_ellipsoid_hit_point, Body, Ellipsoid, Sphere};
use raytracer::color::Color;
use raytracer::fix::{sqrt_fix, FIX_MAX, SCALE};
use raytracer::materials::{Glass, Lambertian, Material};
use raytracer::ray::Ray;
use raytracer::vec3::Point3D;

#[test]
fn test_ellipsoid_hit() {
    let center = Point3D::new(0, 0, 0);
    let radii = Point3D::new(SCALE, SCALE, 2 * SCALE);
    let ellipsoid = Ellipsoid::new(center, radii, Material::Glass(Glass::new(1_500_000)));
    let ray = Ray::new(Point3D::new(0, 0, -5 * SCALE), Point3D::new(0, 0, SCALE));
    let hit = ellipsoid.hit(&ray, 0, FIX_MAX);
    assert_eq!(hit.unwrap().t, 654_772);
}

#[test]
fn test_ellipsoid_texture_coordinates() {
    let center = Point3D::new(0, 0, 0);
    let radii = Point3D::new(SCALE, SCALE, SCALE);
    let gray = Color::new(500_000, 500_000, 500_000);
    let ellipsoid = Ellipsoid::new(center, radii, Material::Lambertian(Lambertian::new(gray)));

    let ray = Ray::new(Point3D::new(0, 0, -SCALE), Point3D::new(0, 0, SCALE));
    let hit = ellipsoid.hit(&ray, 0, FIX_MAX).unwrap();
    assert_eq!(hit.u, 500_000);
    assert_eq!(hit.v, 500_000);

    let radii = Point3D::new(SCALE, 2 * SCALE, 3 * SCALE);
    let ellipsoid = Ellipsoid::new(center, radii, Material::Lambertian(Lambertian::new(gray)));
    let hit = ellipsoid.hit(&ray, 0, FIX_MAX).unwrap();
    assert_eq!(hit.u, 500_000);
    assert_eq!(hit.v, 500_000);
}

#[test]
fn test_sphere_prefers_smaller_root() {
    let gray = Color::new(500_000, 500_000, 500_000);
    let sphere = Sphere::new(
        Point3D::new(0, 0, -3 * SCALE),
        SCALE,
        Material::Lambertian(Lambertian::new(gray)),
    );
    let ray = Ray::new(Point3D::new(0, 0, 0), Point3D::new(0, 0, -SCALE));
    // The ray crosses the sphere at distances 2 and 4: the nearer root wins.
    let hit = sphere.hit(&ray, 0, FIX_MAX).unwrap();
    assert_eq!(hit.t, 2 * SCALE);
    assert!(hit.front_face);
    assert_eq!(hit.normal.z(), SCALE);
}

#[test]
fn test_unit_sphere_matches_ellipsoid() {
    let center = Point3D::new(0, 0, -2 * SCALE);
    let gray = Color::new(500_000, 500_000, 500_000);
    let sphere = Sphere::new(center, SCALE, Material::Lambertian(Lambertian::new(gray)));
    let ellipsoid = Ellipsoid::new(
        center,
        Point3D::new(SCALE, SCALE, SCALE),
        Material::Lambertian(Lambertian::new(gray)),
    );
    // A ray cast from the shared center must see the same surface twice.
    let ray = Ray::new(center, Point3D::new(0, 0, SCALE));
    let hs = sphere.hit(&ray, 0, FIX_MAX).unwrap();
    let he = ellipsoid.hit(&ray, 0, FIX_MAX).unwrap();
    assert_eq!(hs.t, he.t);
    assert_eq!(hs.t, SCALE);
    assert_eq!(hs.point.z(), he.point.z());
    assert_eq!(hs.normal.x(), he.normal.x());
    assert_eq!(hs.normal.y(), he.normal.y());
    assert_eq!(hs.normal.z(), he.normal.z());
    assert_eq!(hs.front_face, he.front_face);
    assert_eq!(hs.u, he.u);
    assert_eq!(hs.v, he.v);
}

#[test]
fn test_sphere_nonpositive_radius_never_hit() {
    let gray = Color::new(500_000, 500_000, 500_000);
    let sphere = Sphere::new(Point3D::new(0, 0, -2 * SCALE), 0,
        Material::Lambertian(Lambertian::new(gray)));
    let ray = Ray::new(Point3D::new(0, 0, 0), Point3D::new(0, 0, -SCALE));
    assert!(sphere.hit(&ray, 0, FIX_MAX).is_none());
}

#[test]
fn test_ellipsoid_degenerate_radii_never_hit() {
    let gray = Color::new(500_000, 500_000, 500_000);
    let e = Ellipsoid::new(
        Point3D::new(0, 0, -2 * SCALE),
        Point3D::new(SCALE, 0, SCALE),
        Material::Lambertian(Lambertian::new(gray)),
    );
    let ray = Ray::new(Point3D::new(0, 0, 0), Point3D::new(0, 0, -SCALE));
    assert!(e.hit(&ray, 0, FIX_MAX).is_none());
}

#[test]
fn test_body_dispatch() {
    let gray = Color::new(500_000, 500_000, 500_000);
    let b = Body::Sphere(Sphere::new(
        Point3D::new(0, 0, -3 * SCALE),
        SCALE,
        Material::Lambertian(Lambertian::new(gray)),
    ));
    let ray = Ray::new(Point3D::new(0, 0, 0), Point3D::new(0, 0, -SCALE));
    assert_eq!(b.hit(&ray, 0, FIX_MAX).unwrap().t, 2 * SCALE);
}

#[test]
fn test_texture_coordinates_in_unit_square() {
    let radii = Point3D::new(SCALE, 2 * SCALE, 3 * SCALE);
    let samples = [
        Point3D::new(300_000, -700_000, 900_000),
        Point3D::new(-SCALE, SCALE, -SCALE),
        Point3D::new(0, -2 * SCALE, 0),
        Point3D::new(123_456, 654_321, -111_111),
    ];
    for p in samples.iter() {
        let (u, v) = u_v_from_ellipsoid_hit_point(*p, radii);
        assert!(0 <= u && u <= SCALE);
        assert!(0 <= v && v <= SCALE);
    }
    let (u, v) = u_v_from_ellipsoid_hit_point(Point3D::new(0, 0, SCALE),
        Point3D::new(SCALE, SCALE, SCALE));
    assert_eq!(u, 500_000);
    assert_eq!(v, 500_000);
}

#[test]
fn test_sqrt_fix_exact() {
    assert_eq!(sqrt_fix(4 * SCALE), 2 * SCALE);
    assert_eq!(sqrt_fix(SCALE), SCALE);
    assert_eq!(sqrt_fix(0), 0);
    assert_eq!(sqrt_fix(250_000), 500_000);
}

#[test]
fn test_ellipsoid_subprecision_radii_never_hit() {
    let gray = Color::new(500_000, 500_000, 500_000);
    // Radii so small that their squares round away are treated as never hit
    // instead of dividing by zero.
    let e = Ellipsoid::new(
        Point3D::new(0, 0, -2 * SCALE),
        Point3D::new(500, 500, 500),
        Material::Lambertian(Lambertian::new(gray)),
    );
    let ray = Ray::new(Point3D::new(0, 0, 0), Point3D::new(0, 0, -SCALE));
    assert!(e.hit(&ray, 0, FIX_MAX).is_none());
}

#[test]
fn test_point_equality() {
    let p = Point3D::new(100_000, 200_000, 300_000);
    let q = Point3D::new(100_000, 200_000, 300_000);
    let r = Point3D::new(100_001, 200_000, 300_000);
    assert_eq!(p, q);
    assert_ne!(p, r);
}
