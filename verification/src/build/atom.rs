//! Atoms: symbolic constants such as `:true`.

use vstd::prelude::*;

verus! {

/// The spelling of the one atom that counts as true.
pub open spec fn true_atom() -> Seq<char> {
    ":true"@
}

/// A symbolic constant, known by its spelling.
#[derive(Debug, Clone)]
pub struct Atom {
    name: String,
}

impl View for Atom {
    type V = Seq<char>;

    closed spec fn view(&self) -> Seq<char> {
        self.name@
    }
}

impl Atom {
    pub fn new(name: &str) -> (atom: Atom)
        ensures
            atom@ == name@,
    {
        Atom { name: String::from_str(name) }
    }

    /// The spelling.
    pub fn as_str(&self) -> (name: &str)
        ensures
            name@ == self@,
    {
        self.name.as_str()
    }

    /// The spelling, as an owned string.
    pub fn to_string(&self) -> (name: String)
        ensures
            name@ == self@,
    {
        self.name.clone()
    }

    /// Another atom with the same spelling.
    pub fn duplicate(&self) -> (atom: Atom)
        ensures
            atom@ == self@,
    {
        Atom { name: self.name.clone() }
    }

    /// Two atoms are the same when they are spelled the same.
    pub fn same(&self, other: &Atom) -> (same: bool)
        ensures
            same == (self@ == other@),
    {
        self.name == other.name
    }

    /// Whether this is the atom `:true`.
    pub fn is_true(&self) -> (yes: bool)
        ensures
            yes == (self@ == true_atom()),
    {
        let truth = String::from_str(":true");
        self.name == truth
    }
}

} // verus!
