//! Functions as values: the parameters, what runs when all of them are
//! supplied, and the arguments that earlier calls have already supplied.

use vstd::prelude::*;
use std::rc::Rc;
use crate::build::form::Form;
use crate::build::symbol::Symbol;
use crate::run::valueref::{share, share_all, ValueRef};

verus! {

/// The place of a native implementation in the table of natives that the host
/// of the runtime keeps.
#[derive(Debug, Clone, Copy, PartialEq, Eq, Structural)]
pub struct Native {
    pub index: usize,
}

#[derive(Debug, Clone)]
pub struct Function {
    /// The parameters, in the order in which arguments are bound to them.
    pub params: Rc<Vec<Symbol>>,
    /// The form that is evaluated when the function is interpreted.
    pub body: Option<Rc<Form>>,
    /// The native implementation, for a function that has no body.
    pub native: Option<Native>,
    /// How many arguments a call still has to supply.
    pub arity: usize,
    /// The arguments that partial applications have supplied so far.
    pub bound: Vec<ValueRef>,
}

impl Function {
    /// What a partial application of `self` to `arguments` is: the same
    /// callable, with the arguments added to those already supplied and the
    /// arity lowered by their number.
    pub open spec fn applied(self, arguments: Seq<ValueRef>) -> FunctionView {
        FunctionView {
            params: self.params@,
            body: self.body,
            native: self.native,
            arity: self.arity - arguments.len(),
            bound: self.bound@ + arguments,
        }
    }

    pub open spec fn view(self) -> FunctionView {
        FunctionView {
            params: self.params@,
            body: self.body,
            native: self.native,
            arity: self.arity as int,
            bound: self.bound@,
        }
    }

    /// An interpreted function: it takes as many arguments as it has parameters.
    pub fn new(params: Vec<Symbol>, body: Form) -> (function: Function)
        ensures
            *function.params == params,
            function.body == Some(Rc::new(body)),
            function.native is None,
            function.arity == params@.len(),
            function.bound@.len() == 0,
    {
        let arity = params.len();
        Function {
            params: Rc::new(params),
            body: Some(Rc::new(body)),
            native: None,
            arity,
            bound: Vec::new(),
        }
    }

    /// A function that a native implementation carries out.
    pub fn from_native(params: Vec<Symbol>, native: Native) -> (function: Function)
        ensures
            *function.params == params,
            function.body is None,
            function.native == Some(native),
            function.arity == params@.len(),
            function.bound@.len() == 0,
    {
        let arity = params.len();
        Function { params: Rc::new(params), body: None, native: Some(native), arity, bound: Vec::new() }
    }

    /// How many arguments a call has to supply.
    pub fn arity(&self) -> (arity: usize)
        ensures
            arity == self.arity,
    {
        self.arity
    }

    /// The partial application of `func` to fewer arguments than it takes.
    pub fn partial(func: &Function, arguments: Vec<ValueRef>) -> (function: Function)
        requires
            arguments@.len() < func.arity,
        ensures
            function.view() == func.applied(arguments@),
    {
        let mut arguments = arguments;
        let ghost supplied = arguments@;
        let arity = func.arity - arguments.len();
        let mut bound = share_all(&func.bound);
        bound.append(&mut arguments);
        let body = match &func.body {
            Some(body) => Some(share(body)),
            None => None,
        };
        Function { params: share(&func.params), body, native: func.native, arity, bound }
    }

    /// The same function once more; what it holds is shared, not copied.
    pub fn duplicate(&self) -> (function: Function)
        ensures
            function.view() == self.view(),
    {
        let body = match &self.body {
            Some(body) => Some(share(body)),
            None => None,
        };
        Function {
            params: share(&self.params),
            body,
            native: self.native,
            arity: self.arity,
            bound: share_all(&self.bound),
        }
    }
}

/// A function with its lists as sequences.
pub struct FunctionView {
    pub params: Seq<Symbol>,
    pub body: Option<Rc<Form>>,
    pub native: Option<Native>,
    pub arity: int,
    pub bound: Seq<ValueRef>,
}

} // verus!
