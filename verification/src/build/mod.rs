//! What the build pipeline hands to the runtime: symbols, atoms and the form tree.

pub mod symbol;
pub mod atom;
pub mod form;
pub mod error;
pub mod table;
pub mod validation;
