//! One module for each command.
pub mod delete;
pub mod get;
pub mod hll;
pub mod incrf;
pub mod incri;
pub mod info;
pub mod list;
pub mod setf;
pub mod seti;
pub mod sets;
pub mod test;
