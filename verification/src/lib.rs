//! Type checker and Rust back end of the Titan language.
pub mod ast;
pub mod text;
pub mod types;
pub mod builtins;
pub mod capabilities;
pub mod checker;
pub mod named;
pub mod codegen;
