//! A minimal software 3D renderer core: a bounds-checked framebuffer, a
//! fixed-point coordinate model, perspective projection, mesh normalization,
//! and a bounding-box edge-function triangle rasterizer.
//!
//! All geometry is carried in signed 64-bit fixed-point coordinates with
//! `FX_ONE` units per pixel (or per model unit), so every arithmetic step is
//! exact and fully specified. Window presentation, OBJ file loading and
//! floating-point rotation live outside this crate and hand values in and out
//! as plain integers.

pub mod color;
pub mod fixed;
pub mod frame;
pub mod framebuffer;
pub mod mesh;
pub mod project;
pub mod triangle;
pub mod vec3;
