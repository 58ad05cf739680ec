//! Tools for analyzing crystal-preferred-orientation (CPO) data: locating
//! per-particle grain orientation records in sharded simulation output,
//! resolving requested times to recorded timesteps, building an equal-area
//! sampling grid, and assembling orientation-density pole figures.
//!
//! The shard scan is an explicit state machine (`shards`), shard tables
//! are decompressed and split through zlib and csv and then filtered by
//! verified code (`decode`), the time-index grammar and number parsing
//! are verified byte-level parsers (`text`), and requested times resolve
//! against recorded times in exact fixed-point units (`time_resolver`).
//! Density fields travel as order-preserving integer keys, so the shared
//! color-scale policy (`pole_figure`), the sampling-grid mask (`grid`)
//! and the kernel parameters (`density`) are exact integer computations;
//! the floating-point evaluation around them (trigonometry, exponential
//! weighting, drawing) lives with the caller.

pub mod configuration;
pub mod crystal_axis;
pub mod decode;
pub mod density;
pub mod error;
pub mod grid;
pub mod minerals;
pub mod pole_figure;
pub mod shards;
pub mod text;
pub mod time_resolver;
