//! Runtime data that scopes own, and the handles by which it is reached.

use vstd::prelude::*;
use crate::float::Float;
use crate::run::value::function::Function;

pub mod owner;

verus! {

/// A handle to a piece of data in an arena. It keeps nothing alive: once every
/// scope that owned the data is gone, the handle leads nowhere.
#[derive(Debug, Clone, Copy, PartialEq, Eq, Structural)]
pub struct Handle {
    pub index: usize,
}

/// A piece of runtime data. The items of an array are handles into the arena
/// that owns the array.
#[derive(Debug)]
pub enum Data {
    Nil,
    Bool(bool),
    Char(char),
    Integer(i64),
    Float(Float),
    Array(Vec<Handle>),
    Function(Function),
    String(String),
}

} // verus!
