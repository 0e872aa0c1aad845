//! A ray-tracing renderer whose arithmetic is fixed-point: every scalar is an
//! `i64` holding millionths of a unit, so the whole pipeline — camera rays,
//! sphere and ellipsoid intersection, material scattering, recursive light
//! transport and the scanline render driver — is verified.

pub mod fix;
pub mod vec3;
pub mod color;
pub mod materials;
pub mod ray;
pub mod rng;
pub mod body;
pub mod camera;
pub mod raytracer;
