//! The commands on lists.
pub mod lextract;
pub mod llen;
pub mod lpop;
pub mod lpush;
pub mod lrange;
