//! Identifiers. How a symbol is spelled decides whether its binding may change.

use vstd::prelude::*;

verus! {

/// The marker that ends the spelling of a mutable symbol.
pub open spec fn mutability_marker() -> char {
    '\''
}

/// Whether a spelling denotes a mutable binding: it ends in the marker.
pub open spec fn is_mutable_name(name: Seq<char>) -> bool {
    name.len() > 0 && name.last() == mutability_marker()
}

/// An identifier of the language.
#[derive(Debug, Clone)]
pub struct Symbol {
    name: String,
}

impl View for Symbol {
    type V = Seq<char>;

    closed spec fn view(&self) -> Seq<char> {
        self.name@
    }
}

impl Symbol {
    pub fn new(name: &str) -> (symbol: Symbol)
        ensures
            symbol@ == name@,
    {
        Symbol { name: String::from_str(name) }
    }

    /// The spelling.
    pub fn as_str(&self) -> (name: &str)
        ensures
            name@ == self@,
    {
        self.name.as_str()
    }

    /// The spelling, as an owned string.
    pub fn to_string(&self) -> (name: String)
        ensures
            name@ == self@,
    {
        self.name.clone()
    }

    /// Another symbol with the same spelling.
    pub fn duplicate(&self) -> (symbol: Symbol)
        ensures
            symbol@ == self@,
    {
        Symbol { name: self.name.clone() }
    }

    /// Whether the symbol names a mutable binding. This depends on the spelling alone.
    pub fn is_mutable(&self) -> (mutable: bool)
        ensures
            mutable == is_mutable_name(self@),
    {
        let name = self.name.as_str();
        let len = name.unicode_len();
        len > 0 && name.get_char(len - 1) == '\''
    }
}

} // verus!
