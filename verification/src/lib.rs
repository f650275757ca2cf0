//! Verified cores of a small voxel-engine demonstration: a diamond-square
//! heightmap generator, a scrolling bar-chart HUD, a pooled projectile
//! ("plasma") lifecycle manager, and an orthographic tri-view voxelizer.
//!
//! The native voxel engine and the windowing toolkit stay outside this
//! library; every decision the demo makes about its own data is stated in a
//! contract here and proved.

pub mod chart;
pub mod geom;
pub mod heightmap;
pub mod image;
pub mod plasma;
pub mod rng;
pub mod scenery;
pub mod voxelizer;


