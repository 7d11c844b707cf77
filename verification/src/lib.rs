//! A path-tracing renderer on fixed-point arithmetic.
//!
//! Geometry, materials and the integrator all work on scalars stored as
//! `i128` values scaled by 2^16, so that every numeric step has an exact
//! mathematical meaning that contracts can speak about.  The modules
//! follow the pipeline: scalars and their transcendental approximations,
//! vectors, rays and intervals, bounded geometric objects with a binary
//! spatial index, materials and textures, and finally the camera with
//! its recursive light-transport estimator and the order-independent
//! assembly of per-pixel results.

pub mod camera;
pub mod fixed;
pub mod fxmath;
pub mod image;
pub mod object;
pub mod ray;
pub mod rng;
pub mod vec3d;
