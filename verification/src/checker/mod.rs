//! Semantic analysis and type checking of Titan programs.
//!
//! Two passes: the first collects records and the signatures of top-level
//! declarations (so a function can be called before it is declared), the
//! second checks bodies and builds a typed tree parallel to the syntax tree.
pub mod typed;
pub mod names;
pub mod symtab;
pub mod state;
pub mod resolve;
pub mod records;
pub mod verdict;
pub mod mutation;
pub mod rules;
pub mod exp;
pub mod call;
pub mod initlist;
pub mod stat;
pub mod toplevel;
