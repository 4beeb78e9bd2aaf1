//! Function definitions as they stand in the form tree.

use vstd::prelude::*;
use crate::build::form::Form;
use crate::build::symbol::Symbol;

verus! {

#[derive(Debug)]
pub struct Function {
    pub params: Vec<Symbol>,
    pub body: Box<Form>,
}

impl Function {
    pub fn new(params: Vec<Symbol>, body: Form) -> (function: Function)
        ensures
            function.params == params,
            *function.body == body,
    {
        Function { params, body: Box::new(body) }
    }
}

} // verus!
