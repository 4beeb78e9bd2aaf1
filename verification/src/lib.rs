//! Execution core of a small dynamically typed scripting language: the value
//! model, the scope-owned arena of runtime data, the chain of symbol tables and
//! the protocol by which functions and macros are called.

pub mod text;
pub mod float;
pub mod build;
pub mod run;
pub mod data;
pub mod runner;
pub mod stl;
