//! The commands on sketches.
pub mod hlladd;
pub mod hllcount;
pub mod hllreset;
