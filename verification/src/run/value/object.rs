//! Objects: mappings from keys to shared values. The fields are kept in the
//! order in which their keys first came, and no key stands twice.

use vstd::prelude::*;
use crate::run::valueref::{share, ValueRef};

verus! {

#[derive(Debug, Clone)]
pub struct Field {
    pub key: String,
    pub value: ValueRef,
}

#[derive(Debug)]
pub struct Object {
    fields: Vec<Field>,
}

impl Clone for Object {
    /// An object of the same fields: the keys are copied, the values shared.
    fn clone(&self) -> (copy: Object)
        ensures
            copy@.len() == self@.len(),
            forall|i: int|
                0 <= i < self@.len() ==> (#[trigger] copy@[i]).key@ == self@[i].key@ && copy@[i].value
                    == self@[i].value,
    {
        proof {
            use_type_invariant(self);
        }
        let mut fields: Vec<Field> = Vec::new();
        let mut i: usize = 0;
        while i < self.fields.len()
            invariant
                i <= self.fields.len(),
                fields@.len() == i,
                forall|j: int|
                    0 <= j < i ==> (#[trigger] fields@[j]).key@ == self.fields@[j].key@
                        && fields@[j].value == self.fields@[j].value,
            decreases self.fields.len() - i,
        {
            fields.push(
                Field { key: self.fields[i].key.clone(), value: share(&self.fields[i].value) },
            );
            i = i + 1;
        }
        assert forall|i: int, j: int| 0 <= i < j < fields@.len() implies (
        #[trigger] fields@[i]).key@ != (#[trigger] fields@[j]).key@ by {
            assert(self.fields@[i].key@ != self.fields@[j].key@);
        }
        Object { fields }
    }
}

impl View for Object {
    type V = Seq<Field>;

    closed spec fn view(&self) -> Seq<Field> {
        self.fields@
    }
}

/// The position of the first of the first `upto` fields whose key is `key`.
pub open spec fn position(fields: Seq<Field>, key: Seq<char>, upto: int) -> Option<int>
    decreases upto,
{
    if 0 < upto <= fields.len() {
        match position(fields, key, upto - 1) {
            Some(i) => Some(i),
            None => if fields[upto - 1].key@ == key {
                Some(upto - 1)
            } else {
                None
            },
        }
    } else {
        None
    }
}

/// Whether no key stands twice.
pub open spec fn unique_keys(fields: Seq<Field>) -> bool {
    forall|i: int, j: int|
        0 <= i < j < fields.len() ==> (#[trigger] fields[i]).key@ != (#[trigger] fields[j]).key@
}

pub proof fn lemma_position(fields: Seq<Field>, key: Seq<char>, upto: int)
    requires
        0 <= upto <= fields.len(),
    ensures
        match position(fields, key, upto) {
            Some(i) => 0 <= i < upto && fields[i].key@ == key && forall|j: int|
                0 <= j < i ==> (#[trigger] fields[j]).key@ != key,
            None => forall|j: int| 0 <= j < upto ==> (#[trigger] fields[j]).key@ != key,
        },
    decreases upto,
{
    if upto > 0 {
        lemma_position(fields, key, upto - 1);
    }
}

impl Object {
    #[verifier::type_invariant]
    spec fn keys_are_unique(self) -> bool {
        unique_keys(self.fields@)
    }

    /// The fields of an object are smaller than the object, for definitions
    /// that go from a value into the values that it holds.
    pub proof fn lemma_fields_are_smaller(self)
        ensures
            decreases_to!(self => self@),
    {
    }

    /// What the object maps `key` to.
    pub open spec fn lookup(self, key: Seq<char>) -> Option<ValueRef> {
        match position(self@, key, self@.len() as int) {
            Some(i) => Some(self@[i].value),
            None => None,
        }
    }

    pub fn new() -> (object: Object)
        ensures
            object@.len() == 0,
    {
        Object { fields: Vec::new() }
    }

    /// The fields, in their order. No key stands twice among them.
    pub fn fields(&self) -> (fields: &Vec<Field>)
        ensures
            fields@ == self@,
            unique_keys(fields@),
    {
        proof {
            use_type_invariant(self);
        }
        &self.fields
    }

    pub fn len(&self) -> (len: usize)
        ensures
            len == self@.len(),
    {
        self.fields.len()
    }

    pub fn is_empty(&self) -> (empty: bool)
        ensures
            empty == (self@.len() == 0),
    {
        self.fields.len() == 0
    }

    /// The index of the first field whose key is `key`.
    pub fn find(&self, key: &str) -> (found: Option<usize>)
        ensures
            match found {
                Some(i) => position(self@, key@, self@.len() as int) == Some(i as int),
                None => position(self@, key@, self@.len() as int) is None,
            },
    {
        let wanted = String::from_str(key);
        let mut i: usize = 0;
        while i < self.fields.len()
            invariant
                i <= self.fields.len(),
                wanted@ == key@,
                position(self.fields@, key@, i as int) is None,
            decreases self.fields.len() - i,
        {
            if self.fields[i].key == wanted {
                proof {
                    lemma_position_stays(self.fields@, key@, i as int + 1, self.fields@.len() as int);
                }
                return Some(i);
            }
            i = i + 1;
        }
        None
    }

    /// The value that the object maps `key` to.
    pub fn get(&self, key: &str) -> (value: Option<&ValueRef>)
        ensures
            match value {
                Some(v) => self.lookup(key@) == Some(*v),
                None => self.lookup(key@) is None,
            },
    {
        match self.find(key) {
            Some(i) => {
                proof {
                    lemma_position(self.fields@, key@, self.fields@.len() as int);
                }
                Some(&self.fields[i].value)
            },
            None => None,
        }
    }

    /// Maps `key` to `value`. A key that the object has keeps its place; a new
    /// one goes to the end.
    pub fn insert(&mut self, key: String, value: ValueRef)
        ensures
            final(self)@ == (match position(old(self)@, key@, old(self)@.len() as int) {
                Some(i) => old(self)@.update(i, Field { key, value }),
                None => old(self)@.push(Field { key, value }),
            }),
            final(self).lookup(key@) == Some(value),
            unique_keys(final(self)@),
    {
        proof {
            use_type_invariant(&*self);
        }
        let found = self.find(key.as_str());
        let ghost before = self@;
        proof {
            lemma_position(before, key@, before.len() as int);
        }
        let mut fields: Vec<Field> = Vec::new();
        std::mem::swap(&mut self.fields, &mut fields);
        match found {
            Some(i) => {
                fields[i] = Field { key, value };
                assert(fields@ == before.update(i as int, Field { key, value }));
            },
            None => {
                fields.push(Field { key, value });
            },
        }
        proof {
            lemma_position(fields@, key@, fields@.len() as int);
            assert forall|i: int, j: int| 0 <= i < j < fields@.len() implies (
            #[trigger] fields@[i]).key@ != (#[trigger] fields@[j]).key@ by {
                if i < before.len() && j < before.len() {
                    assert(before[i].key@ != before[j].key@);
                }
            }
        }
        self.fields = fields;
    }
}

/// A key found among the first `upto` fields is found at the same place among more.
pub proof fn lemma_position_stays(fields: Seq<Field>, key: Seq<char>, upto: int, more: int)
    requires
        0 <= upto <= more <= fields.len(),
        position(fields, key, upto) is Some,
    ensures
        position(fields, key, more) == position(fields, key, upto),
    decreases more - upto,
{
    if upto < more {
        lemma_position_stays(fields, key, upto, more - 1);
    }
}

} // verus!
