//! Data structures that values of the store are built from.
pub mod hll;
