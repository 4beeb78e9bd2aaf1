//! Calls: a form in callable position and the forms of its arguments.

use vstd::prelude::*;
use crate::build::form::Form;

verus! {

#[derive(Debug)]
pub struct Call {
    pub callable: Box<Form>,
    pub arguments: Vec<Form>,
}

impl Call {
    pub fn new(callable: Form, arguments: Vec<Form>) -> (call: Call)
        ensures
            *call.callable == callable,
            call.arguments == arguments,
    {
        Call { callable: Box::new(callable), arguments }
    }
}

} // verus!
