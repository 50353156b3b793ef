//! A Monte Carlo path tracer over fixed-point arithmetic: vectors, rays,
//! spheres, a scene with a nearest-hit query, diffuse, metal and glass
//! materials, a thin-lens camera and the recursive path integrator with its
//! per-pixel sampling and tone mapping.
pub mod camera;
pub mod material;
pub mod random;
pub mod ray;
pub mod render;
pub mod scalar;
pub mod scene;
pub mod sphere;
pub mod util;
pub mod vector;
