//! The runner that carries out one call after the other.

pub mod execute;
