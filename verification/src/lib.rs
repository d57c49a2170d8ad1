//! Rendering pipeline for cached voxel-world regions.
//!
//! A world is a sparse grid of fixed-size regions; each region holds one
//! attribute record per column. A colorizer strategy turns a column into a
//! packed 32-bit color, and a processor assembles the colored regions into
//! either one tile image per region or a single stitched canvas.

pub mod colorizer;
pub mod pattern;
pub mod processor;
pub mod render;
