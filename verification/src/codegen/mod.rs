//! Rust back end: translates the typed tree into readable Rust source that
//! links against the Titan run-time crate.
pub mod names;
pub mod value;
pub mod exp;
pub mod scan;
pub mod stat;
pub mod program;
pub mod floats;
