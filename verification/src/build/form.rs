//! The form tree: the parsed program, each node with the span of source it came from.

use vstd::prelude::*;
use crate::float::Float;
use crate::build::atom::Atom;
use crate::build::symbol::Symbol;
use crate::build::form::assignment::{Assignment, AssignmentKind};
use crate::build::form::call::Call;
use crate::build::form::function::Function;
use crate::build::form::macros::Macro;

pub mod assignment;
pub mod function;
pub mod macros;
pub mod call;

verus! {

/// Where a form stands in the source: the name of the source, and the positions
/// at which the form starts and ends.
#[derive(Debug, Clone)]
pub struct Span {
    pub src: String,
    pub start: usize,
    pub end: usize,
}

impl Span {
    pub fn new(src: String, start: usize, end: usize) -> (span: Span)
        ensures
            span.src == src,
            span.start == start,
            span.end == end,
    {
        Span { src, start, end }
    }

    /// The positions at which the form starts and ends.
    pub fn pos(&self) -> (pos: (usize, usize))
        ensures
            pos == (self.start, self.end),
    {
        (self.start, self.end)
    }
}

/// A node of the form tree.
#[derive(Debug)]
pub struct Form {
    pub expr: Expr,
    pub span: Span,
}

impl Form {
    pub fn new(expr: Expr, span: Span) -> (form: Form)
        ensures
            form.expr == expr,
            form.span == span,
    {
        Form { expr, span }
    }
}

/// The kinds of expression that a form can be.
#[derive(Debug)]
pub enum Expr {
    Nil,
    Integer(i64),
    Float(Float),
    String(String),
    Bool(bool),
    Symbol(Symbol),
    Atom(Atom),
    AssignmentList(Vec<Assignment>, AssignmentKind),
    Scope(Vec<Form>),
    Function(Function),
    Macro(Macro),
    Call(Call),
    Array(Vec<Form>),
}

} // verus!
