//! Arrays: ordered sequences of shared values.

use vstd::prelude::*;
use crate::run::valueref::{share_all, ValueRef};

verus! {

#[derive(Debug, Clone)]
pub struct Array {
    pub items: Vec<ValueRef>,
}

impl Array {
    pub fn new() -> (array: Array)
        ensures
            array.items@.len() == 0,
    {
        Array { items: Vec::new() }
    }

    pub fn from_vec(items: Vec<ValueRef>) -> (array: Array)
        ensures
            array.items == items,
    {
        Array { items }
    }

    pub fn len(&self) -> (len: usize)
        ensures
            len == self.items@.len(),
    {
        self.items.len()
    }

    pub fn is_empty(&self) -> (empty: bool)
        ensures
            empty == (self.items@.len() == 0),
    {
        self.items.len() == 0
    }

    /// The item at `index`, if the array is that long.
    pub fn get(&self, index: usize) -> (item: Option<&ValueRef>)
        ensures
            item == (if index < self.items@.len() {
                Some(&self.items@[index as int])
            } else {
                None
            }),
    {
        if index < self.items.len() {
            Some(&self.items[index])
        } else {
            None
        }
    }

    pub fn push(&mut self, item: ValueRef)
        ensures
            final(self).items@ == old(self).items@.push(item),
    {
        self.items.push(item);
    }

    /// An array of the same items: the items are shared, not copied.
    pub fn duplicate(&self) -> (copy: Array)
        ensures
            copy.items@ == self.items@,
    {
        Array { items: share_all(&self.items) }
    }
}

} // verus!
