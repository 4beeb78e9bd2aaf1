//! Assignments: a symbol and the form whose value it is bound to.

use vstd::prelude::*;
use crate::build::form::Form;
use crate::build::symbol::Symbol;

verus! {

/// Whether the bindings of an assignment list may later change.
#[derive(Debug, Clone, Copy, PartialEq, Eq, Structural)]
pub enum AssignmentKind {
    Immutable,
    Mutable,
}

#[derive(Debug)]
pub struct Assignment {
    pub symbol: Symbol,
    pub value: Form,
}

impl Assignment {
    pub fn new(symbol: Symbol, value: Form) -> (assignment: Assignment)
        ensures
            assignment.symbol == symbol,
            assignment.value == value,
    {
        Assignment { symbol, value }
    }
}

} // verus!
