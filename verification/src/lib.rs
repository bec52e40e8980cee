//! A path-tracing core over exact fixed-point arithmetic.
//!
//! Geometry, colors and ray parameters are carried as signed 64-bit
//! fixed-point numbers with `SCALE` units per 1.0; all intermediate
//! products are taken in 128 bits, so every operation has an exact
//! integer meaning that the contracts state directly.

pub mod fixed;
pub mod rng;
pub mod func;
pub mod perlin;
pub mod vec3;
pub mod ray;
pub mod aabb;
pub mod solidcolor;
pub mod checker_texture;
pub mod noise_texture;
pub mod image_texture;
pub mod texture;
pub mod hittable;
pub mod lambertian;
pub mod metal;
pub mod dielectric;
pub mod diffuse_light;
pub mod isotropic;
pub mod material;
pub mod sphere;
pub mod rect;
pub mod movingsphere;
pub mod triangle;
pub mod boxx;
pub mod translate;
pub mod rotate;
pub mod constant_medium;
pub mod bvhnode;
pub mod hittable_list;
pub mod camera;
pub mod render;

pub use fixed::SCALE;
