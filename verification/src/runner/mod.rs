//! Running programs.

pub mod linear;
