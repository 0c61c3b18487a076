//! Core of a block-based audio rendering engine: the sample buffer model,
//! the block resampler, the destination bridge, the parameter view that
//! processing units read during rendering, and the choice of units that a
//! block renders and keeps.

pub mod buffer;
pub mod config;
pub mod resampler;
pub mod destination;
pub mod params;
pub mod graph;
