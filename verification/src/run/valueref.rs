//! Shared values. A `ValueRef` points to a value that several holders may read.

use vstd::prelude::*;
use std::rc::Rc;
use crate::run::value::Value;

verus! {

pub type ValueRef = Rc<Value>;

/// `Rc::clone`: one more pointer to the very same allocation, so what it points
/// to is what `shared` points to.
#[verifier::external_body]
pub(crate) fn share<T>(shared: &Rc<T>) -> (pointer: Rc<T>)
    ensures
        pointer == *shared,
{
    Rc::clone(shared)
}

/// Shares each of the values of a list, in order.
pub fn share_all(values: &Vec<ValueRef>) -> (shared: Vec<ValueRef>)
    ensures
        shared@ == values@,
{
    let mut shared: Vec<ValueRef> = Vec::new();
    let mut i: usize = 0;
    while i < values.len()
        invariant
            i <= values.len(),
            shared@ == values@.take(i as int),
        decreases values.len() - i,
    {
        shared.push(share(&values[i]));
        assert(shared@ =~= values@.take(i + 1));
        i = i + 1;
    }
    assert(values@.take(i as int) =~= values@);
    shared
}

} // verus!
