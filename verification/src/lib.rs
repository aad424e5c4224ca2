//! Procedural hex-grid world generation core.
//!
//! The pipeline turns a heightmap (a scalar field sampled over a rectangular
//! grid) into a hex grid of typed terrain tiles, and then materializes that
//! grid into a chunked tile map whose tiles carry visual indices for a
//! texture atlas. Height samples are carried as fixed-point integers so that
//! every step of the pipeline is exact.

pub mod builder;
pub mod heightmap;
pub mod hexgrid;
pub mod paths;
pub mod terrain;
pub mod tilemap;
