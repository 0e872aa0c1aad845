use raytracer::camera::Camera;
use raytracer::fix::SCALE;
use raytracer::ray::Ray;
use raytracer::vec3::Point3D;

#[test]
fn test_camera() {
    let camera = Camera::new(
        Point3D::new(0, 0, 0),
        2 * SCALE,
        ((800 / 600) as i64) * 2 * SCALE,
        SCALE,
    );
    assert_eq!(camera.origin.x(), 0);
    assert_eq!(camera.origin.y(), 0);
    assert_eq!(camera.origin.z(), 0);

    assert_eq!(camera.lower_left_corner.x(), -SCALE);
    assert_eq!(camera.lower_left_corner.y(), -SCALE);
    assert_eq!(camera.lower_left_corner.z(), -SCALE);
}

#[test]
fn test_gen() {
    let p = Point3D { x: 100_000, y: 200_000, z: 300_000 };
    assert_eq!(p.x(), 100_000);
    assert_eq!(p.y(), 200_000);
    assert_eq!(p.z(), 300_000);

    let q = Point3D::new(200_000, 300_000, 400_000);
    assert_eq!(q.x(), 200_000);
    assert_eq!(q.y(), 300_000);
    assert_eq!(q.z(), 400_000);
}

#[test]
fn test_add() {
    let p = Point3D::new(100_000, 200_000, 300_000);
    let q = Point3D::new(200_000, 300_000, 400_000);
    let r = p.add(q);
    assert_eq!(r.x(), 300_000);
    assert_eq!(r.y(), 500_000);
    assert_eq!(r.z(), 700_000);
}

#[test]
fn test_sub() {
    let p = Point3D::new(100_000, 200_000, 300_000);
    let q = Point3D::new(200_000, 300_000, 400_000);
    let r = p.sub(q);
    assert_eq!(r.x(), -100_000);
    assert_eq!(r.y(), -100_000);
    assert_eq!(r.z(), -100_000);
}

#[test]
fn test_mul() {
    let p = Point3D::new(100_000, 200_000, 300_000);
    let q = Point3D::new(200_000, 300_000, 400_000);
    let r = p.mul(q);
    assert_eq!(r.x(), 20_000);
    assert_eq!(r.y(), 60_000);
    assert_eq!(r.z(), 120_000);
}

#[test]
fn test_div() {
    let p = Point3D::new(100_000, 200_000, 300_000);
    let q = Point3D::new(200_000, 300_000, 400_000);
    let r = p.div(q);
    assert_eq!(r.x(), 500_000);
    assert_eq!(r.y(), 666_666);
    assert_eq!(r.z(), 750_000);
}

#[test]
fn test_dot() {
    let p = Point3D::new(100_000, 200_000, 300_000);
    let q = Point3D::new(200_000, 300_000, 400_000);
    assert_eq!(p.dot(&q), 200_000);
}

#[test]
fn test_ray() {
    let p = Point3D::new(100_000, 200_000, 300_000);
    let q = Point3D::new(200_000, 300_000, 400_000);

    let r = Ray::new(p, q);

    assert_eq!(r.origin.x(), 100_000);
    assert_eq!(r.origin.y(), 200_000);
    assert_eq!(r.origin.z(), 300_000);
    assert_eq!(r.direction.x(), 200_000);
    assert_eq!(r.direction.y(), 300_000);
    assert_eq!(r.direction.z(), 400_000);
}

#[test]
fn test_ray_at() {
    let p = Point3D::new(0, 0, 0);
    let q = Point3D::new(SCALE, 2 * SCALE, 3 * SCALE);

    let r = Ray::new(p, q);
    let s = r.at(500_000);

    assert_eq!(s.x(), 500_000);
    assert_eq!(s.y(), SCALE);
    assert_eq!(s.z(), 1_500_000);
}

#[test]
fn test_length_and_distance() {
    let p = Point3D::new(3 * SCALE, 4 * SCALE, 0);
    assert_eq!(p.length(), 5 * SCALE);
    let q = Point3D::new(0, 0, 0);
    assert_eq!(p.distance(&q), 5 * SCALE);
}

#[test]
fn test_unit_vector() {
    let p = Point3D::new(2 * SCALE, 0, 0);
    let u = p.unit_vector();
    assert_eq!(u.x(), SCALE);
    assert_eq!(u.y(), 0);
    assert_eq!(u.z(), 0);
}

#[test]
fn test_camera_get_ray() {
    let camera = Camera::new(Point3D::new(0, 0, 0), 2 * SCALE, 2 * SCALE, SCALE);
    let r = camera.get_ray(500_000, 500_000);
    assert_eq!(r.origin.x(), 0);
    assert_eq!(r.origin.y(), 0);
    assert_eq!(r.origin.z(), 0);
    // The middle of the viewport is straight down the forward axis.
    assert_eq!(r.direction.x(), 0);
    assert_eq!(r.direction.y(), 0);
    assert_eq!(r.direction.z(), -SCALE);
}
