//! The track table of the build: for each open scope, which symbols are
//! declared in it. It has the shape of the chain of symbol tables of the
//! runtime, without the values, and serves to refuse a program that uses a
//! symbol which nothing declares.

use vstd::prelude::*;
use crate::build::error::{redeclared_symbol, BuildErrorStack, BuildResult};
use crate::build::symbol::{is_mutable_name, Symbol};

verus! {

/// What one scope declares.
pub struct TrackScopeView {
    pub ordinary: Set<Seq<char>>,
    pub mutables: Set<Seq<char>>,
}

/// The scope that declares nothing.
pub open spec fn nothing_declared() -> TrackScopeView {
    TrackScopeView { ordinary: Set::empty(), mutables: Set::empty() }
}

/// Whether a use of `name` in the innermost scope is a use of something
/// declared: a mutable symbol in that scope itself, an ordinary symbol in it or
/// in a scope around it. The scopes stand outermost first.
pub open spec fn is_declared(scopes: Seq<TrackScopeView>, name: Seq<char>) -> bool {
    if is_mutable_name(name) {
        scopes.len() > 0 && scopes.last().mutables.contains(name)
    } else {
        exists|i: int| 0 <= i < scopes.len() && (#[trigger] scopes[i]).ordinary.contains(name)
    }
}

/// Whether `name` can be declared in the innermost scope: a mutable symbol
/// always, an ordinary symbol once.
pub open spec fn can_declare(scopes: Seq<TrackScopeView>, name: Seq<char>) -> bool {
    is_mutable_name(name) || !scopes.last().ordinary.contains(name)
}

/// The scopes after `name` was declared in the innermost one.
pub open spec fn declare(scopes: Seq<TrackScopeView>, name: Seq<char>) -> Seq<TrackScopeView>
    recommends
        scopes.len() > 0,
{
    if is_mutable_name(name) {
        scopes.update(
            scopes.len() - 1,
            TrackScopeView {
                ordinary: scopes.last().ordinary,
                mutables: scopes.last().mutables.insert(name),
            },
        )
    } else {
        scopes.update(
            scopes.len() - 1,
            TrackScopeView {
                ordinary: scopes.last().ordinary.insert(name),
                mutables: scopes.last().mutables,
            },
        )
    }
}

/// The spellings that a list of names holds.
pub open spec fn names_of(names: Seq<String>) -> Set<Seq<char>> {
    Set::new(|name: Seq<char>| exists|i: int| 0 <= i < names.len() && #[trigger] names[i]@ == name)
}

/// A symbol is declared where it was just declared. A scope opened inside
/// sees the declaration of an ordinary symbol, and not that of a mutable one.
pub proof fn lemma_declarations_follow_the_scopes(scopes: Seq<TrackScopeView>, name: Seq<char>)
    requires
        scopes.len() > 0,
    ensures
        is_declared(declare(scopes, name), name),
        is_mutable_name(name) ==> !is_declared(declare(scopes, name).push(nothing_declared()), name),
        !is_mutable_name(name) ==> is_declared(
            declare(scopes, name).push(nothing_declared()),
            name,
        ),
{
    let after = declare(scopes, name);
    let last = scopes.len() - 1;
    assert(after[last].ordinary.contains(name) || is_mutable_name(name));
    if !is_mutable_name(name) {
        assert(after.push(nothing_declared())[last].ordinary.contains(name));
    }
}

#[derive(Debug)]
struct TrackScope {
    ordinary: Vec<String>,
    mutables: Vec<String>,
}

#[derive(Debug)]
pub struct TrackTable {
    scopes: Vec<TrackScope>,
}

impl View for TrackTable {
    type V = Seq<TrackScopeView>;

    closed spec fn view(&self) -> Seq<TrackScopeView> {
        Seq::new(
            self.scopes@.len(),
            |i: int|
                TrackScopeView {
                    ordinary: names_of(self.scopes@[i].ordinary@),
                    mutables: names_of(self.scopes@[i].mutables@),
                },
        )
    }
}

fn holds(names: &Vec<String>, name: &str) -> (found: bool)
    ensures
        found == names_of(names@).contains(name@),
{
    let wanted = String::from_str(name);
    let mut i: usize = 0;
    while i < names.len()
        invariant
            i <= names.len(),
            wanted@ == name@,
            forall|j: int| 0 <= j < i ==> #[trigger] names@[j]@ != name@,
        decreases names.len() - i,
    {
        if names[i] == wanted {
            return true;
        }
        i = i + 1;
    }
    false
}

proof fn lemma_names_grow(names: Seq<String>, name: String)
    ensures
        names_of(names.push(name)) == names_of(names).insert(name@),
{
    let more = names.push(name);
    assert forall|n: Seq<char>| names_of(more).contains(n) == names_of(names).insert(
        name@,
    ).contains(n) by {
        if names_of(more).contains(n) {
            let i = choose|i: int| 0 <= i < more.len() && #[trigger] more[i]@ == n;
            if i < names.len() {
                assert(names[i]@ == n);
            }
        }
        if names_of(names).contains(n) {
            let i = choose|i: int| 0 <= i < names.len() && #[trigger] names[i]@ == n;
            assert(more[i]@ == n);
        }
        if n == name@ {
            assert(more[names.len() as int]@ == n);
        }
    }
    assert(names_of(more) =~= names_of(names).insert(name@));
}

impl TrackTable {
    /// A track table without any scope.
    pub fn new() -> (table: TrackTable)
        ensures
            table@.len() == 0,
    {
        TrackTable { scopes: Vec::new() }
    }

    /// How many scopes are open.
    pub fn depth(&self) -> (depth: usize)
        ensures
            depth == self@.len(),
    {
        self.scopes.len()
    }

    /// Opens a scope, which becomes the innermost one.
    pub fn create_scope(&mut self)
        ensures
            final(self)@ == old(self)@.push(nothing_declared()),
    {
        self.scopes.push(TrackScope { ordinary: Vec::new(), mutables: Vec::new() });
        proof {
            let last = self@.len() - 1;
            assert(self@[last].ordinary =~= Set::empty());
            assert(self@[last].mutables =~= Set::empty());
            assert(self@ =~= old(self)@.push(nothing_declared()));
        }
    }

    /// Closes the innermost scope, if there is one.
    pub fn drop_scope(&mut self)
        ensures
            final(self)@ == (if old(self)@.len() > 0 {
                old(self)@.drop_last()
            } else {
                old(self)@
            }),
    {
        let _ = self.scopes.pop();
        proof {
            if old(self)@.len() > 0 {
                assert(self@ =~= old(self)@.drop_last());
            } else {
                assert(self@ =~= old(self)@);
            }
        }
    }

    /// Whether a use of the symbol in the innermost scope finds it declared.
    pub fn contains(&self, symbol: &Symbol) -> (declared: bool)
        ensures
            declared == is_declared(self@, symbol@),
    {
        if symbol.is_mutable() {
            let depth = self.scopes.len();
            depth > 0 && holds(&self.scopes[depth - 1].mutables, symbol.as_str())
        } else {
            let mut i: usize = self.scopes.len();
            while i > 0
                invariant
                    i <= self.scopes.len(),
                    !is_mutable_name(symbol@),
                    forall|j: int|
                        i <= j < self@.len() ==> !(#[trigger] self@[j]).ordinary.contains(symbol@),
                decreases i,
            {
                i = i - 1;
                if holds(&self.scopes[i].ordinary, symbol.as_str()) {
                    assert(self@[i as int].ordinary.contains(symbol@));
                    return true;
                }
            }
            false
        }
    }

    /// Declares a symbol in the innermost scope. An ordinary symbol that the
    /// scope already declares is refused; the table is then as it was.
    pub fn assign(&mut self, symbol: &Symbol) -> (result: BuildResult<()>)
        requires
            old(self)@.len() > 0,
        ensures
            final(self)@ == declare(old(self)@, symbol@),
            match result {
                Ok(_) => can_declare(old(self)@, symbol@),
                Err(error) => !can_declare(old(self)@, symbol@) && error@ == redeclared_symbol(
                    symbol@,
                ),
            },
    {
        let last = self.scopes.len() - 1;
        let ghost before = self@;
        if symbol.is_mutable() {
            let name = symbol.to_string();
            proof {
                lemma_names_grow(self.scopes@[last as int].mutables@, name);
            }
            self.scopes[last].mutables.push(name);
            assert(self@ =~= declare(before, symbol@));
            Ok(())
        } else if holds(&self.scopes[last].ordinary, symbol.as_str()) {
            assert(before.last().ordinary.insert(symbol@) =~= before.last().ordinary);
            assert(self@ =~= declare(before, symbol@));
            Err(BuildErrorStack::redeclared_symbol(symbol))
        } else {
            let name = symbol.to_string();
            proof {
                lemma_names_grow(self.scopes@[last as int].ordinary@, name);
            }
            self.scopes[last].ordinary.push(name);
            assert(self@ =~= declare(before, symbol@));
            Ok(())
        }
    }
}

} // verus!
