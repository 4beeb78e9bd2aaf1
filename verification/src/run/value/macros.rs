//! Macros as values: shaped like functions, but called with the forms of
//! their arguments, not with the values of those forms.

use vstd::prelude::*;
use crate::run::value::function::Function;

verus! {

#[derive(Debug, Clone)]
pub struct Macro {
    pub shape: Function,
}

impl Macro {
    pub fn new(shape: Function) -> (definition: Macro)
        ensures
            definition.shape == shape,
    {
        Macro { shape }
    }

    /// How many arguments a call has to supply.
    pub fn arity(&self) -> (arity: usize)
        ensures
            arity == self.shape.arity,
    {
        self.shape.arity
    }
}

} // verus!
