//! Planning of a single orthographic X-ray raster tile over point-cloud data.
//!
//! The crate resolves a requested rectangle against the extent of the data,
//! derives the raster size from a resolution in meters per pixel, models the
//! coloring strategies and the tile background, validates a configuration and
//! decides what a run reports. Reading arguments, opening data sources and
//! rendering are left to the caller.
//!
//! Numbers are binary64 values handed over as their IEEE-754 bit patterns and
//! treated exactly: every finite binary64 value is an integer multiple of
//! 2^-1074, and that integer is the mathematical model all contracts use.

pub mod background;
pub mod ceiling;
pub mod config;
pub mod dyadic;
pub mod plan;
pub mod raster;
pub mod region;
pub mod scalar;
pub mod strategy;
pub mod text;
