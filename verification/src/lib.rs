//! The scene model and the bookkeeping of a path tracer: caches of named
//! values, the indices that tie a scene together, and the integer side of
//! rendering, from the order of the pixels to the end of a path.
//!
//! Numbers and vectors are type parameters throughout. The library carries
//! them and never computes with them: whoever renders picks the types and
//! does the arithmetic.

pub mod cache;
pub mod camera;
pub mod geometry;
pub mod item;
pub mod material;
pub mod primitive;
pub mod ray_tracer;
pub mod scene;
pub mod sky_box;
pub mod texture;
pub mod tone_mapper;
