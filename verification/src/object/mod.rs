//! Geometric objects: bounding boxes, primitives and their composites.

pub mod aabb;
pub mod boxes;
pub mod hit;
pub mod instance;
pub mod material;
pub mod medium;
pub mod perlin;
pub mod quad;
pub mod sphere;
pub mod texture;
