//! Scene query backend and render layout composition.
//!
//! The library turns an immutable scene graph into render-ready derived
//! data (flattened geometry, resolved cameras, resolved lights) with
//! memoization per scene selector, and arranges independent render
//! requests into a composite image through a grid layout tree.

pub mod image_buffer;
pub mod layout;
pub mod math;
pub mod query3d;
pub mod scene;
