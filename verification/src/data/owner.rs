//! The arena of runtime data. Scopes are opened and closed like a stack; each
//! owns the data that was put into it while it was the innermost one. Data
//! lives as long as some scope owns it. A result that must outlive the scope
//! that made it is promoted: the scope around gets to own it too.

use vstd::prelude::*;
use crate::data::{Data, Handle};
use crate::text::{char_text, decimal, integer_text, natural_text, signed_decimal};

verus! {

/// The data that one scope owns, as places in the arena, in the order in which
/// the scope came to own them.
#[derive(Debug)]
pub struct OwnScope(Vec<usize>);

impl View for OwnScope {
    type V = Seq<usize>;

    closed spec fn view(&self) -> Seq<usize> {
        self.0@
    }
}

impl OwnScope {
    pub fn new() -> (scope: OwnScope)
        ensures
            scope@.len() == 0,
    {
        OwnScope(Vec::new())
    }
}

/// An arena as its stack of scopes, outermost first, and its places: a place
/// holds its data for as long as some scope owns it.
pub struct OwnerView {
    pub scopes: Seq<Seq<usize>>,
    pub slots: Seq<Option<Data>>,
}

/// Whether one of the scopes owns the place `id`.
pub open spec fn owns(scopes: Seq<Seq<usize>>, id: int) -> bool {
    exists|s: int, k: int|
        0 <= s < scopes.len() && 0 <= k < scopes[s].len() && #[trigger] scopes[s][k] == id
}

impl OwnerView {
    /// The places that scopes own exist, and a place holds data exactly while
    /// some scope owns it.
    pub open spec fn wf(self) -> bool {
        &&& forall|s: int, k: int|
            0 <= s < self.scopes.len() && 0 <= k < self.scopes[s].len() ==> (
            #[trigger] self.scopes[s][k]) < self.slots.len()
        &&& forall|id: int|
            0 <= id < self.slots.len() ==> ((#[trigger] self.slots[id]) is Some <==> owns(
                self.scopes,
                id,
            ))
        &&& self.slots.len() <= usize::MAX
    }

    /// What a handle leads to: the data at its place, or nothing once no scope
    /// owns it.
    pub open spec fn resolve(self, handle: Handle) -> Option<Data> {
        if handle.index < self.slots.len() {
            self.slots[handle.index as int]
        } else {
            None
        }
    }

    /// The arena with one more scope, innermost and empty.
    pub open spec fn opened(self) -> OwnerView {
        OwnerView { scopes: self.scopes.push(Seq::empty()), slots: self.slots }
    }

    /// The handle that the next piece of data gets.
    pub open spec fn next_handle(self) -> Handle {
        Handle { index: self.slots.len() as usize }
    }

    /// The arena with `data` at a new place that the innermost scope owns.
    pub open spec fn inserted(self, data: Data) -> OwnerView
        recommends
            self.scopes.len() > 0,
    {
        OwnerView {
            scopes: self.scopes.update(
                self.scopes.len() - 1,
                self.scopes.last().push(self.slots.len() as usize),
            ),
            slots: self.slots.push(Some(data)),
        }
    }

    /// The arena in which the scope around the innermost one owns the data of
    /// `handle` too.
    pub open spec fn promoted(self, handle: Handle) -> OwnerView
        recommends
            self.scopes.len() > 1,
    {
        OwnerView {
            scopes: self.scopes.update(
                self.scopes.len() - 2,
                self.scopes[self.scopes.len() - 2].push(handle.index),
            ),
            slots: self.slots,
        }
    }

    /// The arena without its innermost scope: the places that no remaining
    /// scope owns hold nothing any more.
    pub open spec fn closed(self) -> OwnerView {
        if self.scopes.len() == 0 {
            self
        } else {
            OwnerView {
                scopes: self.scopes.drop_last(),
                slots: Seq::new(
                    self.slots.len(),
                    |id: int|
                        if owns(self.scopes.drop_last(), id) {
                            self.slots[id]
                        } else {
                            None
                        },
                ),
            }
        }
    }
}

/// How a handle is printed: as its data, or as undefined where it leads
/// nowhere. A handle leads somewhere only if its place is below `bound`.
pub open spec fn handle_text(slots: Seq<Option<Data>>, handle: Handle, bound: nat) -> Seq<char>
    decreases bound, 0int, 0int,
{
    if handle.index < bound && handle.index < slots.len() && slots[handle.index as int] is Some {
        data_text(slots, slots[handle.index as int]->Some_0, handle.index as nat)
    } else {
        "'undefined"@
    }
}

/// The first `upto` items of an array as they are printed, in the order of the
/// array, each followed by a space.
pub open spec fn handles_text(
    slots: Seq<Option<Data>>,
    items: Seq<Handle>,
    upto: int,
    bound: nat,
) -> Seq<char>
    decreases bound, 1int, upto,
{
    if 0 < upto <= items.len() {
        handles_text(slots, items, upto - 1, bound) + handle_text(slots, items[upto - 1], bound)
            + " "@
    } else {
        Seq::empty()
    }
}

/// How a piece of data is printed. The items of an array lead somewhere only
/// if their places are below `bound`.
pub open spec fn data_text(slots: Seq<Option<Data>>, data: Data, bound: nat) -> Seq<char>
    decreases bound, 2int, 0int,
{
    match data {
        Data::Nil => "'nil"@,
        Data::Bool(b) => if b {
            "true"@
        } else {
            "false"@
        },
        Data::Char(c) => seq![c],
        Data::Integer(i) => signed_decimal(i as int),
        Data::Float(f) => f.text(),
        Data::Array(a) => "[ "@ + handles_text(slots, a@, a@.len() as int, bound) + "]"@,
        Data::Function(f) => "'func\\"@ + decimal(f.arity as nat),
        Data::String(s) => s@,
    }
}

/// Data that was put into a scope and not promoted is gone, and its handle
/// leads nowhere, once that scope is closed.
pub proof fn lemma_closing_a_scope_releases_its_data(arena: OwnerView, data: Data)
    requires
        arena.wf(),
        arena.scopes.len() > 0,
    ensures
        arena.inserted(data).resolve(arena.next_handle()) == Some(data),
        arena.inserted(data).closed().resolve(arena.next_handle()) is None,
{
    let handle = arena.next_handle();
    let after = arena.inserted(data);
    let rest = after.scopes.drop_last();
    assert(rest =~= arena.scopes.drop_last());
    if owns(rest, handle.index as int) {
        let (s, k) = choose|s: int, k: int|
            0 <= s < rest.len() && 0 <= k < rest[s].len() && #[trigger] rest[s][k] == handle.index;
        assert(arena.scopes[s][k] == handle.index);
    }
}

/// Promoted data outlives its scope: once the data of a live handle is
/// promoted and the innermost scope is closed, the handle still leads to the
/// same data, and the scope around, now the innermost, owns it.
pub proof fn lemma_promoted_data_outlives_its_scope(arena: OwnerView, handle: Handle)
    requires
        arena.wf(),
        arena.scopes.len() > 1,
        arena.resolve(handle) is Some,
    ensures
        arena.promoted(handle).closed().resolve(handle) == arena.resolve(handle),
        arena.promoted(handle).closed().scopes.last().last() == handle.index,
        owns(arena.promoted(handle).closed().scopes, handle.index as int),
{
    let after = arena.promoted(handle);
    let rest = after.scopes.drop_last();
    let s = rest.len() - 1;
    let k = rest[s].len() - 1;
    assert(rest[s][k] == handle.index);
}

/// Closing the innermost scope takes nothing from the scopes around it: a
/// handle whose data one of them owns leads to the same data afterwards.
pub proof fn lemma_closing_keeps_what_others_own(arena: OwnerView, handle: Handle)
    requires
        arena.scopes.len() > 0,
        handle.index < arena.slots.len(),
        owns(arena.scopes.drop_last(), handle.index as int),
    ensures
        arena.closed().resolve(handle) == arena.resolve(handle),
{
}

/// Closing the innermost scope releases what it alone owned: a handle whose
/// data no scope around owns leads nowhere afterwards.
pub proof fn lemma_closing_releases_what_no_other_owns(arena: OwnerView, handle: Handle)
    requires
        arena.scopes.len() > 0,
        !owns(arena.scopes.drop_last(), handle.index as int),
    ensures
        arena.closed().resolve(handle) is None,
{
}

#[derive(Debug)]
pub struct Owner {
    scopes: Vec<OwnScope>,
    slots: Vec<Option<Data>>,
}

/// The scopes as sequences of places.
pub closed spec fn scopes_view(scopes: Seq<OwnScope>) -> Seq<Seq<usize>> {
    Seq::new(scopes.len(), |s: int| scopes[s]@)
}

impl View for Owner {
    type V = OwnerView;

    closed spec fn view(&self) -> OwnerView {
        OwnerView { scopes: scopes_view(self.scopes@), slots: self.slots@ }
    }
}

/// Whether one of the scopes owns the place `id`.
fn owned(scopes: &Vec<OwnScope>, id: usize) -> (owned: bool)
    ensures
        owned == owns(scopes_view(scopes@), id as int),
{
    let ghost view = scopes_view(scopes@);
    let mut s: usize = 0;
    while s < scopes.len()
        invariant
            s <= scopes.len(),
            view == scopes_view(scopes@),
            forall|t: int, k: int|
                0 <= t < s && 0 <= k < view[t].len() ==> #[trigger] view[t][k] != id,
        decreases scopes.len() - s,
    {
        let mut k: usize = 0;
        while k < scopes[s].0.len()
            invariant
                s < scopes.len(),
                k <= scopes[s as int].0@.len(),
                view == scopes_view(scopes@),
                forall|t: int, j: int|
                    0 <= t < s && 0 <= j < view[t].len() ==> #[trigger] view[t][j] != id,
                forall|j: int| 0 <= j < k ==> #[trigger] view[s as int][j] != id,
            decreases scopes[s as int].0@.len() - k,
        {
            if scopes[s].0[k] == id {
                assert(view[s as int][k as int] == id);
                return true;
            }
            k = k + 1;
        }
        s = s + 1;
    }
    false
}

impl Owner {
    #[verifier::type_invariant]
    spec fn sound(self) -> bool {
        self@.wf()
    }

    /// An arena without any scope.
    pub fn new() -> (owner: Owner)
        ensures
            owner@.scopes.len() == 0,
            owner@.slots.len() == 0,
            owner@.wf(),
    {
        let owner = Owner { scopes: Vec::new(), slots: Vec::new() };
        owner
    }

    /// How many scopes are open.
    pub fn depth(&self) -> (depth: usize)
        ensures
            depth == self@.scopes.len(),
    {
        self.scopes.len()
    }

    /// Opens a scope, which becomes the innermost one.
    pub fn create_scope(&mut self)
        ensures
            final(self)@ == old(self)@.opened(),
            final(self)@.wf(),
    {
        let mut current = Owner::new();
        std::mem::swap(self, &mut current);
        proof {
            use_type_invariant(&current);
        }
        let ghost before = current@;
        let Owner { mut scopes, slots } = current;
        scopes.push(OwnScope::new());
        proof {
            let after = OwnerView { scopes: scopes_view(scopes@), slots: slots@ };
            assert(after.scopes =~~= before.scopes.push(Seq::empty()));
            assert forall|id: int| 0 <= id < after.slots.len() implies ((
            #[trigger] after.slots[id]) is Some <==> owns(after.scopes, id)) by {
                if owns(before.scopes, id) {
                    let (s, k) = choose|s: int, k: int|
                        0 <= s < before.scopes.len() && 0 <= k < before.scopes[s].len()
                            && #[trigger] before.scopes[s][k] == id;
                    assert(after.scopes[s][k] == id);
                }
                if owns(after.scopes, id) {
                    let (s, k) = choose|s: int, k: int|
                        0 <= s < after.scopes.len() && 0 <= k < after.scopes[s].len()
                            && #[trigger] after.scopes[s][k] == id;
                    assert(before.scopes[s][k] == id);
                }
            }
        }
        *self = Owner { scopes, slots };
    }

    /// What a handle leads to, if some scope still owns it.
    pub fn get(&self, handle: Handle) -> (data: Option<&Data>)
        ensures
            match data {
                Some(d) => self@.resolve(handle) == Some(*d),
                None => self@.resolve(handle) is None,
            },
    {
        if handle.index < self.slots.len() {
            self.slots[handle.index].as_ref()
        } else {
            None
        }
    }

    /// Whether a handle still leads to its data.
    pub fn is_live(&self, handle: Handle) -> (live: bool)
        ensures
            live == self@.resolve(handle) is Some,
    {
        self.get(handle).is_some()
    }

    /// Puts data into the innermost scope and hands out a handle to it.
    pub fn insert(&mut self, data: Data) -> (handle: Handle)
        requires
            old(self)@.scopes.len() > 0,
        ensures
            handle == old(self)@.next_handle(),
            final(self)@ == old(self)@.inserted(data),
            final(self)@.resolve(handle) == Some(data),
            final(self)@.wf(),
    {
        let mut current = Owner::new();
        std::mem::swap(self, &mut current);
        proof {
            use_type_invariant(&current);
        }
        let ghost before = current@;
        let Owner { mut scopes, mut slots } = current;
        let id = slots.len();
        let top = scopes.len() - 1;
        slots.push(Some(data));
        scopes[top].0.push(id);
        proof {
            let after = OwnerView { scopes: scopes_view(scopes@), slots: slots@ };
            assert(after.scopes =~~= before.inserted(data).scopes);
            assert(after.scopes[top as int][after.scopes[top as int].len() - 1] == id);
            assert forall|s: int, k: int|
                0 <= s < after.scopes.len() && 0 <= k < after.scopes[s].len() implies (
            #[trigger] after.scopes[s][k]) < after.slots.len() by {
                if s == top && k == after.scopes[s].len() - 1 {
                } else {
                    assert(after.scopes[s][k] == before.scopes[s][k]);
                }
            }
            assert forall|other: int| 0 <= other < after.slots.len() implies ((
            #[trigger] after.slots[other]) is Some <==> owns(after.scopes, other)) by {
                if other == id {
                    assert(after.scopes[top as int][after.scopes[top as int].len() - 1] == other);
                    assert(owns(after.scopes, other));
                } else {
                    assert(after.slots[other] == before.slots[other]);
                    if owns(before.scopes, other) {
                        let (s, k) = choose|s: int, k: int|
                            0 <= s < before.scopes.len() && 0 <= k < before.scopes[s].len()
                                && #[trigger] before.scopes[s][k] == other;
                        assert(after.scopes[s][k] == other);
                    }
                    if owns(after.scopes, other) {
                        let (s, k) = choose|s: int, k: int|
                            0 <= s < after.scopes.len() && 0 <= k < after.scopes[s].len()
                                && #[trigger] after.scopes[s][k] == other;
                        assert(before.scopes[s][k] == other);
                    }
                }
            }
        }
        // The number of places is read once so that it is known to fit the index type.
        let places = slots.len();
        assert(places == id + 1);
        *self = Owner { scopes, slots };
        Handle { index: id }
    }

    /// Promotes the data of a live handle: the scope around the innermost one
    /// comes to own it too, so that it outlives the innermost scope. Hands out
    /// a handle to the same data.
    pub fn insert_return(&mut self, data: Handle) -> (handle: Handle)
        requires
            old(self)@.scopes.len() > 1,
            old(self)@.resolve(data) is Some,
        ensures
            handle == data,
            final(self)@ == old(self)@.promoted(data),
            final(self)@.resolve(handle) == old(self)@.resolve(data),
            final(self)@.wf(),
    {
        let mut current = Owner::new();
        std::mem::swap(self, &mut current);
        proof {
            use_type_invariant(&current);
        }
        let ghost before = current@;
        let Owner { mut scopes, slots } = current;
        let around = scopes.len() - 2;
        scopes[around].0.push(data.index);
        proof {
            let after = OwnerView { scopes: scopes_view(scopes@), slots: slots@ };
            assert(after.scopes =~~= before.promoted(data).scopes);
            assert forall|s: int, k: int|
                0 <= s < after.scopes.len() && 0 <= k < after.scopes[s].len() implies (
            #[trigger] after.scopes[s][k]) < after.slots.len() by {
                if s == around && k == after.scopes[s].len() - 1 {
                } else {
                    assert(after.scopes[s][k] == before.scopes[s][k]);
                }
            }
            assert forall|other: int| 0 <= other < after.slots.len() implies ((
            #[trigger] after.slots[other]) is Some <==> owns(after.scopes, other)) by {
                if owns(before.scopes, other) {
                    let (s, k) = choose|s: int, k: int|
                        0 <= s < before.scopes.len() && 0 <= k < before.scopes[s].len()
                            && #[trigger] before.scopes[s][k] == other;
                    assert(after.scopes[s][k] == other);
                }
                if owns(after.scopes, other) {
                    let (s, k) = choose|s: int, k: int|
                        0 <= s < after.scopes.len() && 0 <= k < after.scopes[s].len()
                            && #[trigger] after.scopes[s][k] == other;
                    if s == around && k == after.scopes[s].len() - 1 {
                        assert(before.slots[other] is Some);
                    } else {
                        assert(before.scopes[s][k] == other);
                    }
                }
            }
        }
        *self = Owner { scopes, slots };
        data
    }

    /// Closes the innermost scope. Data that no other scope owns is released,
    /// and the handles to it lead nowhere from then on. Without a scope,
    /// nothing happens.
    pub fn drop_scope(&mut self)
        ensures
            final(self)@ == old(self)@.closed(),
            final(self)@.wf(),
    {
        let mut current = Owner::new();
        std::mem::swap(self, &mut current);
        proof {
            use_type_invariant(&current);
        }
        let ghost before = current@;
        let Owner { mut scopes, mut slots } = current;
        match scopes.pop() {
            None => {
                proof {
                    assert(scopes_view(scopes@) =~~= before.scopes);
                }
                *self = Owner { scopes, slots };
            },
            Some(scope) => {
                let ghost rest = scopes_view(scopes@);
                let ghost gone = scope@;
                proof {
                    assert(rest =~~= before.scopes.drop_last());
                    assert(gone == before.scopes.last());
                }
                let mut k: usize = 0;
                while k < scope.0.len()
                    invariant
                        k <= scope.0@.len(),
                        gone == scope@,
                        rest == scopes_view(scopes@),
                        rest == before.scopes.drop_last(),
                        gone == before.scopes.last(),
                        before.scopes.len() > 0,
                        before.wf(),
                        slots@.len() == before.slots.len(),
                        forall|id: int|
                            0 <= id < slots@.len() ==> #[trigger] slots@[id] == (if owns(
                                rest,
                                id,
                            ) || !(exists|j: int| 0 <= j < k && gone[j] == id) {
                                before.slots[id]
                            } else {
                                None
                            }),
                    decreases scope.0@.len() - k,
                {
                    let id = scope.0[k];
                    assert(before.scopes[before.scopes.len() - 1][k as int] == id);
                    let keep = owned(&scopes, id);
                    let ghost earlier = slots@;
                    if !keep {
                        slots[id] = None;
                    }
                    proof {
                        assert forall|other: int| 0 <= other < slots@.len() implies
                            #[trigger] slots@[other] == (if owns(rest, other) || !(
                            exists|j: int| 0 <= j < k + 1 && gone[j] == other) {
                                before.slots[other]
                            } else {
                                None
                            }) by {
                            if other == id {
                                assert(gone[k as int] == other);
                            } else {
                                if exists|j: int| 0 <= j < k + 1 && gone[j] == other {
                                    let j = choose|j: int| 0 <= j < k + 1 && gone[j] == other;
                                    assert(0 <= j < k && gone[j] == other);
                                }
                            }
                        }
                    }
                    k = k + 1;
                }
                proof {
                    let after = OwnerView { scopes: rest, slots: slots@ };
                    assert forall|id: int| 0 <= id < slots@.len() implies #[trigger] slots@[id]
                        == before.closed().slots[id] by {
                        if !owns(rest, id) && !(exists|j: int|
                            0 <= j < gone.len() && gone[j] == id) {
                            if owns(before.scopes, id) {
                                let (s, j) = choose|s: int, j: int|
                                    0 <= s < before.scopes.len() && 0 <= j < before.scopes[s].len()
                                        && #[trigger] before.scopes[s][j] == id;
                                if s == before.scopes.len() - 1 {
                                    assert(gone[j] == id);
                                } else {
                                    assert(rest[s][j] == id);
                                }
                            }
                            assert(before.slots[id] is None);
                        }
                    }
                    assert(slots@ =~= before.closed().slots);
                    assert forall|s: int, j: int|
                        0 <= s < rest.len() && 0 <= j < rest[s].len() implies (
                    #[trigger] rest[s][j]) < slots@.len() by {
                        assert(before.scopes[s][j] == rest[s][j]);
                    }
                    assert forall|id: int| 0 <= id < after.slots.len() implies ((
                    #[trigger] after.slots[id]) is Some <==> owns(rest, id)) by {
                        if owns(rest, id) {
                            let (s, j) = choose|s: int, j: int|
                                0 <= s < rest.len() && 0 <= j < rest[s].len() && #[trigger] rest[s][j]
                                    == id;
                            assert(before.scopes[s][j] == id);
                        }
                    }
                }
                *self = Owner { scopes, slots };
            },
        }
    }

    /// Prints what a handle leads to, or that it is undefined.
    pub fn render(&self, handle: Handle) -> (text: String)
        ensures
            text@ == handle_text(self@.slots, handle, self@.slots.len()),
    {
        self.render_handle(handle, self.slots.len())
    }

    /// Prints a piece of data whose handles are handles into this arena.
    pub fn render_data(&self, data: &Data) -> (text: String)
        ensures
            text@ == data_text(self@.slots, *data, self@.slots.len()),
    {
        self.render_below(data, self.slots.len())
    }

    fn render_handle(&self, handle: Handle, bound: usize) -> (text: String)
        ensures
            text@ == handle_text(self@.slots, handle, bound as nat),
        decreases bound, 0int, 0int,
    {
        if handle.index < bound && handle.index < self.slots.len() {
            match &self.slots[handle.index] {
                Some(data) => self.render_below(data, handle.index),
                None => String::from_str("'undefined"),
            }
        } else {
            String::from_str("'undefined")
        }
    }

    fn render_below(&self, data: &Data, bound: usize) -> (text: String)
        ensures
            text@ == data_text(self@.slots, *data, bound as nat),
        decreases bound, 2int, 0int,
    {
        match data {
            Data::Nil => String::from_str("'nil"),
            Data::Bool(b) => if *b {
                String::from_str("true")
            } else {
                String::from_str("false")
            },
            Data::Char(c) => char_text(*c),
            Data::Integer(i) => integer_text(*i),
            Data::Float(f) => f.to_string(),
            Data::Array(a) => {
                let items = self.render_items(a, bound);
                String::from_str("[ ").concat(items.as_str()).concat("]")
            },
            Data::Function(f) => {
                let arity = natural_text(f.arity as u64);
                String::from_str("'func\\").concat(arity.as_str())
            },
            Data::String(s) => s.clone(),
        }
    }

    fn render_items(&self, items: &Vec<Handle>, bound: usize) -> (text: String)
        ensures
            text@ == handles_text(self@.slots, items@, items@.len() as int, bound as nat),
        decreases bound, 1int, items@.len(),
    {
        let mut text = String::new();
        let mut i: usize = 0;
        while i < items.len()
            invariant
                i <= items.len(),
                text@ == handles_text(self@.slots, items@, i as int, bound as nat),
            decreases items.len() - i,
        {
            let item = self.render_handle(items[i], bound);
            let ghost before = text@;
            text.append(item.as_str());
            text.append(" ");
            assert(text@ =~= before + item@ + " "@);
            i = i + 1;
        }
        text
    }
}

} // verus!
