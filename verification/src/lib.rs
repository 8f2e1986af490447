//! An in-memory key-value store with typed values, per-key time-to-live and a
//! compact binary request/response protocol.
//!
//! Every function here is verified against a contract stated over
//! mathematical models of the data: byte sequences for encodings, a map from
//! key to entry for the store.
pub mod codec;
pub mod data;
pub mod state;
pub mod commands;
pub mod connection;
