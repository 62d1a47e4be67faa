//! A small recursive, stochastic ray tracer over saturating fixed-point
//! arithmetic.
//!
//! Scenes are lists of spheres with one of three surface materials (diffuse,
//! metallic, dielectric). A camera with a configurable viewpoint, field of
//! view and defocus disk integrates jittered multi-sample rays per pixel and
//! produces a row-major 8-bit RGB buffer. All numeric state is fixed-point
//! (see [`fixed`]), and all randomness comes from an explicit seeded
//! generator (see [`rng`]), so a render is a pure function of the camera
//! configuration, the seed and the scene.

pub mod camera;
pub mod color;
pub mod fixed;
pub mod helper;
pub mod interval;
pub mod material;
pub mod ray;
pub mod sphere;
pub mod trig;
pub mod rng;
pub mod vec3;
