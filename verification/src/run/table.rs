//! The chain of symbol tables. Each scope binds ordinary symbols, which are
//! assigned once and seen from the scopes inside it, and mutable symbols,
//! which may be assigned again and are seen from their own scope alone. A
//! table is the innermost scope together with the scopes that enclose it.

use vstd::prelude::*;
use std::rc::Rc;
use rustc_hash::FxHashMap;
use crate::build::symbol::{is_mutable_name, Symbol};
use crate::run::error::{
    immutable_mutation,
    undefined_mutable_symbol,
    undefined_symbol,
    RunErrorStack,
    RunErrorView,
};
use crate::run::result::RunResult;
use crate::run::value::Value;
use crate::run::valueref::{share, ValueRef};

verus! {

/// `rustc_hash::FxBuildHasher`, the builder of hashers that an `FxHashMap`
/// carries. It is declared so that the maps can be held; nothing is read out
/// of it and nothing is claimed of it.
#[verifier::external_type_specification]
#[verifier::external_body]
pub struct ExFxBuildHasher(rustc_hash::FxBuildHasher);

/// What an ordinary symbol is bound to: the value, and whether calling it
/// leaves the forms of its arguments unevaluated.
#[derive(Debug)]
pub struct SymbolTableEntry {
    pub value: ValueRef,
    pub is_action: bool,
}

/// What a hash map of bindings holds: for each spelling that is a key of it,
/// the entry kept under that key.
pub uninterp spec fn bindings(map: FxHashMap<String, SymbolTableEntry>) -> Map<
    Seq<char>,
    SymbolTableEntry,
>;

/// The mapping that holds nothing.
pub open spec fn nothing_bound() -> Map<Seq<char>, SymbolTableEntry> {
    Map::empty()
}

/// `FxHashMap::default`: a hash map with the Fx hasher that holds nothing.
#[verifier::external_body]
fn no_bindings() -> (map: FxHashMap<String, SymbolTableEntry>)
    ensures
        bindings(map) == nothing_bound(),
{
    FxHashMap::default()
}

/// `HashMap::get` on a map with the Fx hasher: the entry kept under the key
/// that is spelled as `name`, if there is one.
#[verifier::external_body]
fn binding<'a>(map: &'a FxHashMap<String, SymbolTableEntry>, name: &str) -> (entry: Option<
    &'a SymbolTableEntry,
>)
    ensures
        match entry {
            Some(e) => bindings(*map).contains_key(name@) && bindings(*map)[name@] == *e,
            None => !bindings(*map).contains_key(name@),
        },
{
    map.get(name)
}

/// `HashMap::insert` on a map with the Fx hasher: afterwards the key spelled as
/// `name` holds `entry`, and every other key holds what it held.
#[verifier::external_body]
fn bind(map: &mut FxHashMap<String, SymbolTableEntry>, name: String, entry: SymbolTableEntry)
    ensures
        bindings(*final(map)) == bindings(*old(map)).insert(name@, entry),
{
    map.insert(name, entry);
}

/// One scope as a pair of mappings from spellings.
pub struct ScopeView {
    pub ordinary: Map<Seq<char>, SymbolTableEntry>,
    pub mutables: Map<Seq<char>, ValueRef>,
}

/// The scope that binds nothing.
pub open spec fn empty_scope() -> ScopeView {
    ScopeView { ordinary: Map::empty(), mutables: Map::empty() }
}

/// The chain with a new empty scope inside it.
pub open spec fn child_of(chain: Seq<ScopeView>) -> Seq<ScopeView> {
    seq![empty_scope()] + chain
}

/// The entry of an ordinary symbol: that of the innermost scope that binds it.
pub open spec fn find_ordinary(chain: Seq<ScopeView>, name: Seq<char>) -> Option<SymbolTableEntry>
    decreases chain.len(),
{
    if chain.len() == 0 {
        None
    } else if chain[0].ordinary.contains_key(name) {
        Some(chain[0].ordinary[name])
    } else {
        find_ordinary(chain.skip(1), name)
    }
}

/// What looking a symbol up gives, from the innermost scope of `chain`.
pub open spec fn lookup_in(chain: Seq<ScopeView>, name: Seq<char>) -> Result<ValueRef, RunErrorView> {
    if is_mutable_name(name) {
        if chain.len() > 0 && chain[0].mutables.contains_key(name) {
            Ok(chain[0].mutables[name])
        } else {
            Err(undefined_mutable_symbol(name))
        }
    } else {
        match find_ordinary(chain, name) {
            Some(entry) => Ok(entry.value),
            None => Err(undefined_symbol(name)),
        }
    }
}

/// Whether a symbol stands for an action, from the innermost scope of `chain`.
pub open spec fn is_action_in(chain: Seq<ScopeView>, name: Seq<char>) -> Result<bool, RunErrorView> {
    if is_mutable_name(name) {
        Ok(true)
    } else {
        match find_ordinary(chain, name) {
            Some(entry) => Ok(entry.is_action),
            None => Err(undefined_symbol(name)),
        }
    }
}

/// What one scope says of a symbol when it is asked alone, as sequences of
/// characters.
pub enum LocalView<T> {
    /// The scope binds the symbol.
    Found(T),
    /// The scope does not bind the symbol, and the scope around it is to be
    /// asked; where there is none, the symbol is undefined.
    AskParent,
    /// The symbol is undefined, whatever the scopes around bind.
    Undefined(RunErrorView),
}

/// What looking a symbol up gives in one scope alone. A mutable symbol is
/// found in the scope or undefined; the scope around is never asked for it.
pub open spec fn lookup_here(scope: ScopeView, name: Seq<char>) -> LocalView<ValueRef> {
    if is_mutable_name(name) {
        if scope.mutables.contains_key(name) {
            LocalView::Found(scope.mutables[name])
        } else {
            LocalView::Undefined(undefined_mutable_symbol(name))
        }
    } else if scope.ordinary.contains_key(name) {
        LocalView::Found(scope.ordinary[name].value)
    } else {
        LocalView::AskParent
    }
}

/// Whether a symbol stands for an action, as one scope alone says.
pub open spec fn is_action_here(scope: ScopeView, name: Seq<char>) -> LocalView<bool> {
    if is_mutable_name(name) {
        LocalView::Found(true)
    } else if scope.ordinary.contains_key(name) {
        LocalView::Found(scope.ordinary[name].is_action)
    } else {
        LocalView::AskParent
    }
}

/// A lookup along a chain is the lookup in its innermost scope, handed on to
/// the rest of the chain where that scope says to ask the scope around it.
/// With no scope left, the symbol is undefined.
pub proof fn lemma_lookup_follows_the_links(chain: Seq<ScopeView>, name: Seq<char>)
    requires
        chain.len() > 0,
    ensures
        lookup_in(chain, name) == (match lookup_here(chain[0], name) {
            LocalView::Found(value) => Ok(value),
            LocalView::Undefined(error) => Err(error),
            LocalView::AskParent => lookup_in(chain.skip(1), name),
        }),
        is_action_in(chain, name) == (match is_action_here(chain[0], name) {
            LocalView::Found(action) => Ok(action),
            LocalView::Undefined(error) => Err(error),
            LocalView::AskParent => is_action_in(chain.skip(1), name),
        }),
        !is_mutable_name(name) ==> lookup_in(Seq::empty(), name) == Err::<ValueRef, RunErrorView>(
            undefined_symbol(name),
        ),
        !is_mutable_name(name) ==> is_action_in(Seq::empty(), name) == Err::<bool, RunErrorView>(
            undefined_symbol(name),
        ),
{
}

/// What assigning to a symbol in the innermost scope of `chain` gives: the
/// chain afterwards, or the error that leaves the chain as it was.
pub open spec fn assign_in(
    chain: Seq<ScopeView>,
    name: Seq<char>,
    value: ValueRef,
    is_action: bool,
) -> Result<Seq<ScopeView>, RunErrorView>
    recommends
        chain.len() > 0,
{
    if is_mutable_name(name) {
        Ok(
            chain.update(
                0,
                ScopeView {
                    ordinary: chain[0].ordinary,
                    mutables: chain[0].mutables.insert(name, value),
                },
            ),
        )
    } else if chain[0].ordinary.contains_key(name) {
        Err(immutable_mutation(name))
    } else {
        Ok(
            chain.update(
                0,
                ScopeView {
                    ordinary: chain[0].ordinary.insert(name, SymbolTableEntry { value, is_action }),
                    mutables: chain[0].mutables,
                },
            ),
        )
    }
}

/// The chain after an attempt to assign, whether or not it succeeded.
pub open spec fn after_assign(
    chain: Seq<ScopeView>,
    name: Seq<char>,
    value: ValueRef,
    is_action: bool,
) -> Seq<ScopeView> {
    match assign_in(chain, name, value, is_action) {
        Ok(next) => next,
        Err(_) => chain,
    }
}

/// A mutable symbol may be assigned again and again in one scope: each
/// assignment succeeds, and a lookup from that scope then gives the value
/// that was assigned last.
pub proof fn lemma_mutable_symbol_takes_last_value(
    chain: Seq<ScopeView>,
    name: Seq<char>,
    first: ValueRef,
    first_action: bool,
    second: ValueRef,
    second_action: bool,
)
    requires
        chain.len() > 0,
        is_mutable_name(name),
    ensures
        assign_in(chain, name, first, first_action) is Ok,
        assign_in(after_assign(chain, name, first, first_action), name, second, second_action) is Ok,
        lookup_in(
            after_assign(
                after_assign(chain, name, first, first_action),
                name,
                second,
                second_action,
            ),
            name,
        ) == Ok::<ValueRef, RunErrorView>(second),
{
}

/// An ordinary symbol is assigned at most once in one scope: after one
/// assignment, whatever came of it, the next one in the same scope fails as an
/// attempt to change what cannot change, and the chain stays as it was.
pub proof fn lemma_ordinary_symbol_is_assigned_once(
    chain: Seq<ScopeView>,
    name: Seq<char>,
    first: ValueRef,
    first_action: bool,
    second: ValueRef,
    second_action: bool,
)
    requires
        chain.len() > 0,
        !is_mutable_name(name),
    ensures
        assign_in(after_assign(chain, name, first, first_action), name, second, second_action)
            == Err::<Seq<ScopeView>, RunErrorView>(immutable_mutation(name)),
        lookup_in(after_assign(chain, name, first, first_action), name) is Ok,
{
    let after = after_assign(chain, name, first, first_action);
    assert(after[0].ordinary.contains_key(name));
}

/// Mutable symbols stay in their scope: whatever the enclosing scopes bind, a
/// lookup of a mutable symbol from a scope that was just opened inside them fails,
/// and says that the mutable symbol is undefined.
pub proof fn lemma_mutable_symbol_is_hidden_from_child(chain: Seq<ScopeView>, name: Seq<char>)
    requires
        is_mutable_name(name),
    ensures
        lookup_in(child_of(chain), name) == Err::<ValueRef, RunErrorView>(
            undefined_mutable_symbol(name),
        ),
{
}

/// An ordinary symbol that an enclosing scope binds is seen from a scope that
/// was just opened inside it.
pub proof fn lemma_ordinary_symbol_is_seen_from_child(chain: Seq<ScopeView>, name: Seq<char>)
    requires
        !is_mutable_name(name),
    ensures
        lookup_in(child_of(chain), name) == lookup_in(chain, name),
        is_action_in(child_of(chain), name) == is_action_in(chain, name),
{
    assert(child_of(chain).skip(1) =~= chain);
}

impl SymbolTableEntry {
    pub fn new(value: ValueRef, is_action: bool) -> (entry: SymbolTableEntry)
        ensures
            entry.value == value,
            entry.is_action == is_action,
    {
        SymbolTableEntry { value, is_action }
    }
}

/// What one scope says of a symbol when it is asked alone.
#[derive(Debug)]
pub enum Local<T> {
    /// The scope binds the symbol.
    Found(T),
    /// The scope does not bind the symbol, and the scope around it is to be
    /// asked; where there is none, the symbol is undefined.
    AskParent,
    /// The symbol is undefined, whatever the scopes around bind.
    Undefined(RunErrorStack),
}

impl<T> Local<T> {
    /// What the answer of a scope comes to where no scope is around it.
    pub fn at_root(self, symbol: &Symbol) -> (result: RunResult<T>)
        ensures
            match self {
                Local::Found(found) => result == Ok::<T, RunErrorStack>(found),
                Local::AskParent => result is Err && result->Err_0@ == undefined_symbol(symbol@),
                Local::Undefined(error) => result == Err::<T, RunErrorStack>(error),
            },
    {
        match self {
            Local::Found(found) => Ok(found),
            Local::AskParent => Err(RunErrorStack::undefined_symbol(symbol)),
            Local::Undefined(error) => Err(error),
        }
    }
}

#[derive(Debug)]
pub struct SymbolTable {
    parent: Option<Box<SymbolTable>>,
    scope: FxHashMap<String, SymbolTableEntry>,
    mutables: FxHashMap<String, SymbolTableEntry>,
}

impl View for SymbolTable {
    type V = Seq<ScopeView>;

    closed spec fn view(&self) -> Seq<ScopeView> {
        self.chain()
    }
}

impl SymbolTable {
    /// The innermost scope.
    pub closed spec fn local(self) -> ScopeView {
        ScopeView {
            ordinary: bindings(self.scope),
            mutables: bindings(self.mutables).map_values(|entry: SymbolTableEntry| entry.value),
        }
    }

    /// The scopes from the innermost outwards.
    pub closed spec fn chain(self) -> Seq<ScopeView>
        decreases self,
    {
        match self.parent {
            Some(parent) => seq![self.local()] + parent.chain(),
            None => seq![self.local()],
        }
    }

    /// A table always has its innermost scope.
    pub proof fn lemma_has_scope(self)
        ensures
            self@.len() >= 1,
            self@[0] == self.local(),
    {
    }

    /// The table of the outermost scope, which binds nothing yet.
    pub fn root() -> (table: SymbolTable)
        ensures
            table@ == seq![empty_scope()],
    {
        let table = SymbolTable { parent: None, scope: no_bindings(), mutables: no_bindings() };
        proof {
            assert(table.local().mutables =~= Map::empty());
            assert(table.local() == empty_scope());
        }
        table
    }

    /// The table of a new empty scope inside `parent`.
    pub fn from_parent(parent: SymbolTable) -> (table: SymbolTable)
        ensures
            table@ == child_of(parent@),
    {
        let table = SymbolTable {
            parent: Some(Box::new(parent)),
            scope: no_bindings(),
            mutables: no_bindings(),
        };
        proof {
            assert(table.local().mutables =~= Map::empty());
            assert(table.local() == empty_scope());
        }
        table
    }

    /// Leaves the innermost scope: the table of the scope around it, if there is one.
    pub fn into_parent(self) -> (parent: Option<SymbolTable>)
        ensures
            match parent {
                Some(table) => table@ == self@.skip(1),
                None => self@.len() == 1,
            },
    {
        match self.parent {
            Some(parent) => {
                assert(self@.skip(1) =~= parent@);
                Some(*parent)
            },
            None => None,
        }
    }

    /// How many scopes the chain has.
    pub fn depth(&self) -> (depth: usize)
        ensures
            depth == self@.len() || (depth == usize::MAX && self@.len() > usize::MAX),
        decreases self,
    {
        match &self.parent {
            Some(parent) => {
                let outer = parent.depth();
                if outer < usize::MAX {
                    outer + 1
                } else {
                    usize::MAX
                }
            },
            None => 1,
        }
    }

    /// Opens a new empty scope inside the innermost one.
    pub fn create_scope(&mut self)
        ensures
            final(self)@ == child_of(old(self)@),
    {
        let mut current = SymbolTable::root();
        std::mem::swap(self, &mut current);
        *self = SymbolTable::from_parent(current);
    }

    /// Closes the innermost scope, unless it is the outermost one.
    pub fn drop_scope(&mut self)
        ensures
            final(self)@ == (if old(self)@.len() > 1 {
                old(self)@.skip(1)
            } else {
                old(self)@
            }),
    {
        let mut current = SymbolTable::root();
        std::mem::swap(self, &mut current);
        let ghost before = current@;
        proof {
            current.lemma_has_scope();
        }
        match current.parent {
            Some(parent) => {
                assert(before.skip(1) =~= parent@);
                *self = *parent;
            },
            None => {
                *self = SymbolTable { parent: None, scope: current.scope, mutables: current.mutables };
            },
        }
    }

    /// The value that a symbol is bound to. A mutable symbol is looked for in
    /// the innermost scope alone; an ordinary symbol in each scope from the
    /// innermost outwards.
    pub fn lookup(&self, symbol: &Symbol) -> (result: RunResult<ValueRef>)
        ensures
            match result {
                Ok(value) => lookup_in(self@, symbol@) is Ok && lookup_in(self@, symbol@)->Ok_0
                    == value,
                Err(error) => lookup_in(self@, symbol@) is Err && lookup_in(self@, symbol@)->Err_0
                    == error@,
            },
        decreases self,
    {
        proof {
            self.lemma_has_scope();
        }
        if symbol.is_mutable() {
            match binding(&self.mutables, symbol.as_str()) {
                Some(entry) => Ok(share(&entry.value)),
                None => Err(RunErrorStack::undefined_mutable_symbol(symbol)),
            }
        } else {
            match binding(&self.scope, symbol.as_str()) {
                Some(entry) => {
                    assert(find_ordinary(self@, symbol@) == Some(*entry));
                    Ok(share(&entry.value))
                },
                None => match &self.parent {
                    Some(parent) => {
                        assert(self@.skip(1) =~= parent@);
                        assert(find_ordinary(self@, symbol@) == find_ordinary(parent@, symbol@));
                        parent.lookup(symbol)
                    },
                    None => {
                        assert(self@.skip(1).len() == 0);
                        assert(find_ordinary(self@.skip(1), symbol@) is None);
                        assert(find_ordinary(self@, symbol@) is None);
                        Err(RunErrorStack::undefined_symbol(symbol))
                    },
                },
            }
        }
    }

    /// What the innermost scope alone says of a symbol: its value, or that the
    /// scope around is to be asked, or that the symbol is undefined. A host
    /// that links its scopes itself walks them with this.
    pub fn lookup_local(&self, symbol: &Symbol) -> (step: Local<ValueRef>)
        ensures
            match step {
                Local::Found(value) => lookup_here(self@[0], symbol@) is Found && lookup_here(
                    self@[0],
                    symbol@,
                )->Found_0 == value,
                Local::AskParent => lookup_here(self@[0], symbol@) is AskParent,
                Local::Undefined(error) => lookup_here(self@[0], symbol@) is Undefined
                    && lookup_here(self@[0], symbol@)->Undefined_0 == error@,
            },
    {
        proof {
            self.lemma_has_scope();
        }
        if symbol.is_mutable() {
            match binding(&self.mutables, symbol.as_str()) {
                Some(entry) => Local::Found(share(&entry.value)),
                None => Local::Undefined(RunErrorStack::undefined_mutable_symbol(symbol)),
            }
        } else {
            match binding(&self.scope, symbol.as_str()) {
                Some(entry) => Local::Found(share(&entry.value)),
                None => Local::AskParent,
            }
        }
    }

    /// What the innermost scope alone says of whether a symbol stands for an action.
    pub fn is_action_local(&self, symbol: &Symbol) -> (step: Local<bool>)
        ensures
            match step {
                Local::Found(action) => is_action_here(self@[0], symbol@) is Found
                    && is_action_here(self@[0], symbol@)->Found_0 == action,
                Local::AskParent => is_action_here(self@[0], symbol@) is AskParent,
                Local::Undefined(error) => is_action_here(self@[0], symbol@) is Undefined
                    && is_action_here(self@[0], symbol@)->Undefined_0 == error@,
            },
    {
        proof {
            self.lemma_has_scope();
        }
        if symbol.is_mutable() {
            Local::Found(true)
        } else {
            match binding(&self.scope, symbol.as_str()) {
                Some(entry) => Local::Found(entry.is_action),
                None => Local::AskParent,
            }
        }
    }

    /// Whether a symbol stands for an action. A mutable symbol always does; an
    /// ordinary symbol as was said when it was assigned.
    pub fn is_action(&self, symbol: &Symbol) -> (result: RunResult<bool>)
        ensures
            match result {
                Ok(action) => is_action_in(self@, symbol@) is Ok && is_action_in(
                    self@,
                    symbol@,
                )->Ok_0 == action,
                Err(error) => is_action_in(self@, symbol@) is Err && is_action_in(
                    self@,
                    symbol@,
                )->Err_0 == error@,
            },
        decreases self,
    {
        proof {
            self.lemma_has_scope();
        }
        if symbol.is_mutable() {
            Ok(true)
        } else {
            match binding(&self.scope, symbol.as_str()) {
                Some(entry) => {
                    assert(find_ordinary(self@, symbol@) == Some(*entry));
                    Ok(entry.is_action)
                },
                None => match &self.parent {
                    Some(parent) => {
                        assert(self@.skip(1) =~= parent@);
                        assert(find_ordinary(self@, symbol@) == find_ordinary(parent@, symbol@));
                        parent.is_action(symbol)
                    },
                    None => {
                        assert(self@.skip(1).len() == 0);
                        assert(find_ordinary(self@.skip(1), symbol@) is None);
                        assert(find_ordinary(self@, symbol@) is None);
                        Err(RunErrorStack::undefined_symbol(symbol))
                    },
                },
            }
        }
    }

    /// Binds a symbol in the innermost scope to a value that is already shared.
    pub fn assign_shared(&mut self, symbol: &Symbol, value: ValueRef, is_action: bool) -> (result:
        RunResult<()>)
        ensures
            final(self)@ == after_assign(old(self)@, symbol@, value, is_action),
            match result {
                Ok(_) => assign_in(old(self)@, symbol@, value, is_action) is Ok,
                Err(error) => assign_in(old(self)@, symbol@, value, is_action) is Err && assign_in(
                    old(self)@,
                    symbol@,
                    value,
                    is_action,
                )->Err_0 == error@,
            },
    {
        let ghost before = self@;
        let ghost local = self.local();
        if symbol.is_mutable() {
            bind(&mut self.mutables, symbol.to_string(), SymbolTableEntry { value, is_action: true });
            proof {
                assert(self.local().mutables =~= local.mutables.insert(symbol@, value));
                assert(self@ =~= before.update(
                    0,
                    ScopeView {
                        ordinary: local.ordinary,
                        mutables: local.mutables.insert(symbol@, value),
                    },
                ));
            }
            Ok(())
        } else {
            let bound = binding(&self.scope, symbol.as_str()).is_some();
            if bound {
                Err(RunErrorStack::immutable_mutation(symbol))
            } else {
                bind(&mut self.scope, symbol.to_string(), SymbolTableEntry { value, is_action });
                proof {
                    assert(self@ =~= before.update(
                        0,
                        ScopeView {
                            ordinary: local.ordinary.insert(
                                symbol@,
                                SymbolTableEntry { value, is_action },
                            ),
                            mutables: local.mutables,
                        },
                    ));
                }
                Ok(())
            }
        }
    }

    /// Binds a symbol in the innermost scope. A mutable symbol takes the new
    /// value in place of any earlier one; an ordinary symbol that the scope
    /// already binds is refused.
    pub fn assign(&mut self, symbol: Symbol, value: Value, is_action: bool) -> (result: RunResult<
        (),
    >)
        ensures
            final(self)@ == after_assign(old(self)@, symbol@, Rc::new(value), is_action),
            match result {
                Ok(_) => assign_in(old(self)@, symbol@, Rc::new(value), is_action) is Ok,
                Err(error) => assign_in(old(self)@, symbol@, Rc::new(value), is_action) is Err
                    && assign_in(old(self)@, symbol@, Rc::new(value), is_action)->Err_0 == error@,
            },
    {
        self.assign_shared(&symbol, Rc::new(value), is_action)
    }
}

} // verus!
