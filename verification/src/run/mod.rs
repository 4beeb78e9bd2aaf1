//! The runtime: values, errors and the chain of symbol tables.

pub mod error;
pub mod result;
pub mod valueref;
pub mod value;
pub mod table;
