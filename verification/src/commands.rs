//! The commands of the protocol: how a request is read, and what each
//! command does to the store.
pub mod commands;
pub mod implcommands;
pub mod parser;
pub mod theorems;
