//! A library for turning raw freehand pointer input into smooth, uniformly
//! spaced ribbon geometry, together with a bounded best-match resource pool
//! for reusing expensive render objects.
//!
//! Coordinates are exact fixed-point numbers (`geometry::scalar::Fixed`),
//! so every transform in the path pipeline carries a precise contract.

pub mod geometry;
pub mod path;
pub mod pool;
pub mod tools;
pub mod touch_list;
