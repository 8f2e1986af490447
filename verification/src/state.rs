//! The typed values, the store that holds them, and the server's counters.
pub mod clock;
pub mod datastate;
pub mod expires;
pub mod serverstate;
pub mod shards;
