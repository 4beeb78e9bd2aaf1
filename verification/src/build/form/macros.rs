//! Macro definitions as they stand in the form tree.

use vstd::prelude::*;
use crate::build::form::Form;
use crate::build::symbol::Symbol;

verus! {

#[derive(Debug)]
pub struct Macro {
    pub params: Vec<Symbol>,
    pub body: Box<Form>,
}

impl Macro {
    pub fn new(params: Vec<Symbol>, body: Form) -> (definition: Macro)
        ensures
            definition.params == params,
            *definition.body == body,
    {
        Macro { params, body: Box::new(body) }
    }
}

} // verus!
