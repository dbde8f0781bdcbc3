//! The decision core of an offline path tracer.
//!
//! A path tracer follows rays of light backwards, from the eye into a scene
//! of spheres, and averages what it finds for each pixel. Nearly all of its
//! work is arithmetic on binary64 numbers, which rounds at every step. This
//! crate holds what is not arithmetic: the numbers themselves as bit
//! patterns, with their order and the operations on them that are exact, and
//! every decision that the tracer takes on them. The sums, products and
//! roots, and the random bits, come from the caller.

pub mod color;
pub mod error;
pub mod material;
pub mod object;
pub mod point3;
pub mod ray;
pub mod render;
pub mod sampling;
pub mod scalar;
pub mod scene;
pub mod vec3;

pub use color::Color;
pub use error::ConfigError;
pub use material::{Chance, Material, Scattered};
pub use object::{HitRecord, Object, Sphere, World};
pub use point3::Point3;
pub use ray::{Ray, Verdict};
pub use render::{Image, RenderConfig, RowOrder};
pub use sampling::RngExt;
pub use scalar::Scalar;
pub use vec3::Vec3;
