//! Bindings into a dynamic library that is loaded when they are called.

use vstd::prelude::*;

verus! {

#[derive(Debug, Clone, Copy, PartialEq, Eq, Structural)]
pub enum ExternalKind {
    Function,
    Macro,
}

#[derive(Debug, Clone)]
pub struct External {
    pub lib: String,
    pub symbol: String,
    pub kind: ExternalKind,
    pub arity: usize,
    pub is_action: bool,
}

impl External {
    pub fn new(lib: String, symbol: String, kind: ExternalKind, arity: usize, is_action: bool) -> (external: External)
        ensures
            external.lib == lib,
            external.symbol == symbol,
            external.kind == kind,
            external.arity == arity,
            external.is_action == is_action,
    {
        External { lib, symbol, kind, arity, is_action }
    }
}

} // verus!
