//! What the command line names.

pub mod types;
