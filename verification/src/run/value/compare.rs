//! Equality and order of values. Numbers are compared by what they amount to,
//! whichever of the two kinds each is; texts and characters by their code
//! points; arrays item by item; objects as mappings. Nothing else is ordered,
//! and callables are equal to nothing.

use vstd::prelude::*;
use std::cmp::Ordering;
use vstd::std_specs::cmp::{PartialEqSpecImpl, PartialOrdSpecImpl};
use crate::float::{
    difference_sign,
    integer_difference_sign,
    is_nan,
    lemma_scaled_integers,
    scaled,
    scaled_integer,
    sign_of,
};
use crate::run::value::object::Field;
use crate::run::value::Value;
use crate::run::valueref::ValueRef;
use crate::text::{char_code, lexicographic, text_order};

verus! {

impl Value {
    /// The number that the value is, on the scale on which every integer and
    /// every finite floating-point number is an integer.
    pub open spec fn numeric(self) -> Option<int> {
        match self {
            Value::Integer(i) => Some(scaled_integer(i as int)),
            Value::Float(f) => if is_nan(f.bits()) {
                None
            } else {
                Some(scaled(f.bits()))
            },
            _ => None,
        }
    }

    /// Whether two values are equal.
    pub open spec fn equal(self, other: Value) -> bool
        decreases self, 0int, 0int,
    {
        if (self is Integer || self is Float) && (other is Integer || other is Float) {
            self.numeric() is Some && self.numeric() == other.numeric()
        } else {
            match (self, other) {
                (Value::Nil, Value::Nil) => true,
                (Value::NotANumber, Value::NotANumber) => true,
                (Value::Bool(l), Value::Bool(r)) => l == r,
                (Value::Char(l), Value::Char(r)) => l == r,
                (Value::String(l), Value::String(r)) => l@ == r@,
                (Value::Array(l), Value::Array(r)) => l.items@.len() == r.items@.len()
                    && Self::items_equal(l.items@, r.items@, l.items@.len() as int),
                (Value::Object(l), Value::Object(r)) => {
                    proof {
                        l.lemma_fields_are_smaller();
                    }
                    Self::all_left(l@, r@, l@.len() as int) && Self::all_right(
                        l@,
                        r@,
                        r@.len() as int,
                    )
                },
                (Value::Atom(l), Value::Atom(r)) => l@ == r@,
                _ => false,
            }
        }
    }

    /// Whether the first `upto` items of `l` equal those of `r`, place by place.
    pub open spec fn items_equal(l: Seq<ValueRef>, r: Seq<ValueRef>, upto: int) -> bool
        decreases l, 0int, upto,
    {
        if 0 < upto <= l.len() && upto <= r.len() {
            Self::items_equal(l, r, upto - 1) && (*l[upto - 1]).equal(*r[upto - 1])
        } else {
            true
        }
    }

    /// Whether field `i` of `l` has its key and an equal value among the first
    /// `upto` fields of `r`.
    pub open spec fn found_right(l: Seq<Field>, r: Seq<Field>, i: int, upto: int) -> bool
        decreases l, 0int, upto,
    {
        if 0 <= i < l.len() && 0 < upto <= r.len() {
            Self::found_right(l, r, i, upto - 1) || (l[i].key@ == r[upto - 1].key@ && (
            *l[i].value).equal(*r[upto - 1].value))
        } else {
            false
        }
    }

    /// Whether each of the first `upto` fields of `l` is found in `r`.
    pub open spec fn all_left(l: Seq<Field>, r: Seq<Field>, upto: int) -> bool
        decreases l, 1int, upto,
    {
        if 0 < upto <= l.len() {
            Self::all_left(l, r, upto - 1) && Self::found_right(l, r, upto - 1, r.len() as int)
        } else {
            true
        }
    }

    /// Whether field `j` of `r` has its key and an equal value among the first
    /// `upto` fields of `l`.
    pub open spec fn found_left(l: Seq<Field>, r: Seq<Field>, upto: int, j: int) -> bool
        decreases l, 0int, upto,
    {
        if 0 <= j < r.len() && 0 < upto <= l.len() {
            Self::found_left(l, r, upto - 1, j) || (l[upto - 1].key@ == r[j].key@ && (
            *l[upto - 1].value).equal(*r[j].value))
        } else {
            false
        }
    }

    /// Whether each of the first `upto` fields of `r` is found in `l`.
    pub open spec fn all_right(l: Seq<Field>, r: Seq<Field>, upto: int) -> bool
        decreases l, 1int, upto,
    {
        if 0 < upto <= r.len() {
            Self::all_right(l, r, upto - 1) && Self::found_left(l, r, l.len() as int, upto - 1)
        } else {
            true
        }
    }

    /// How two values are ordered, as the sign of a difference: negative where
    /// `self` comes first. Only numbers among themselves, characters among
    /// themselves and texts among themselves are ordered.
    pub open spec fn order_sign(self, other: Value) -> Option<int> {
        if self.numeric() is Some && other.numeric() is Some {
            Some(sign_of(self.numeric().unwrap() - other.numeric().unwrap()))
        } else {
            match (self, other) {
                (Value::Char(l), Value::Char(r)) => Some(sign_of(char_code(l) - char_code(r))),
                (Value::String(l), Value::String(r)) => Some(lexicographic(l@, r@)),
                _ => None,
            }
        }
    }

    /// A function, a macro or an external binding is equal to no value, not
    /// even to one of the same shape or to itself.
    pub proof fn lemma_callables_equal_nothing(callable: Value, other: Value)
        requires
            callable is Function || callable is Macro || callable is External,
        ensures
            !callable.equal(other),
            !other.equal(callable),
    {
    }

    /// Whether two values are equal.
    pub fn equals(&self, other: &Value) -> (equal: bool)
        ensures
            equal == self.equal(*other),
        decreases self, 0int, 0int,
    {
        match (self, other) {
            (Value::Nil, Value::Nil) => true,
            (Value::NotANumber, Value::NotANumber) => true,
            (Value::Bool(l), Value::Bool(r)) => *l == *r,
            (Value::Integer(l), Value::Integer(r)) => {
                proof {
                    lemma_scaled_integers(*l as int, *r as int);
                }
                *l == *r
            },
            (Value::Integer(l), Value::Float(r)) => !r.is_nan() && integer_difference_sign(
                *l,
                r.to_bits(),
            ) == 0,
            (Value::Float(l), Value::Float(r)) => !l.is_nan() && !r.is_nan() && difference_sign(
                l.to_bits(),
                r.to_bits(),
            ) == 0,
            (Value::Float(l), Value::Integer(r)) => !l.is_nan() && integer_difference_sign(
                *r,
                l.to_bits(),
            ) == 0,
            (Value::Char(l), Value::Char(r)) => *l == *r,
            (Value::String(l), Value::String(r)) => *l == *r,
            (Value::Array(l), Value::Array(r)) => {
                if l.items.len() != r.items.len() {
                    false
                } else {
                    Self::items_equals(&l.items, &r.items)
                }
            },
            (Value::Object(l), Value::Object(r)) => {
                proof {
                    l.lemma_fields_are_smaller();
                }
                Self::fields_all_left(l.fields(), r.fields()) && Self::fields_all_right(
                    l.fields(),
                    r.fields(),
                )
            },
            (Value::Atom(l), Value::Atom(r)) => l.same(r),
            _ => false,
        }
    }

    fn items_equals(l: &Vec<ValueRef>, r: &Vec<ValueRef>) -> (equal: bool)
        requires
            l@.len() == r@.len(),
        ensures
            equal == Self::items_equal(l@, r@, l@.len() as int),
        decreases l, 0int, 1int,
    {
        let mut i: usize = 0;
        while i < l.len()
            invariant
                i <= l.len(),
                l@.len() == r@.len(),
                Self::items_equal(l@, r@, i as int),
            decreases l.len() - i,
        {
            if !l[i].equals(&r[i]) {
                proof {
                    Self::lemma_items_differ(l@, r@, i as int + 1, l@.len() as int);
                }
                return false;
            }
            i = i + 1;
        }
        true
    }

    proof fn lemma_items_differ(l: Seq<ValueRef>, r: Seq<ValueRef>, upto: int, more: int)
        requires
            0 <= upto <= more <= l.len(),
            more <= r.len(),
            !Self::items_equal(l, r, upto),
        ensures
            !Self::items_equal(l, r, more),
        decreases more - upto,
    {
        if upto < more {
            Self::lemma_items_differ(l, r, upto, more - 1);
        }
    }

    fn field_found_right(l: &Vec<Field>, r: &Vec<Field>, i: usize) -> (found: bool)
        requires
            i < l@.len(),
        ensures
            found == Self::found_right(l@, r@, i as int, r@.len() as int),
        decreases l@, 0int, 1int,
    {
        let mut j: usize = 0;
        while j < r.len()
            invariant
                j <= r.len(),
                i < l@.len(),
                !Self::found_right(l@, r@, i as int, j as int),
            decreases r.len() - j,
        {
            if l[i].key == r[j].key && l[i].value.equals(&r[j].value) {
                proof {
                    Self::lemma_found_right_stays(l@, r@, i as int, j as int + 1, r@.len() as int);
                }
                return true;
            }
            j = j + 1;
        }
        false
    }

    proof fn lemma_found_right_stays(l: Seq<Field>, r: Seq<Field>, i: int, upto: int, more: int)
        requires
            0 <= upto <= more <= r.len(),
            Self::found_right(l, r, i, upto),
        ensures
            Self::found_right(l, r, i, more),
        decreases more - upto,
    {
        if upto < more {
            Self::lemma_found_right_stays(l, r, i, upto, more - 1);
        }
    }

    fn fields_all_left(l: &Vec<Field>, r: &Vec<Field>) -> (all: bool)
        ensures
            all == Self::all_left(l@, r@, l@.len() as int),
        decreases l@, 0int, 2int,
    {
        let mut i: usize = 0;
        while i < l.len()
            invariant
                i <= l.len(),
                Self::all_left(l@, r@, i as int),
            decreases l.len() - i,
        {
            if !Self::field_found_right(l, r, i) {
                proof {
                    Self::lemma_all_left_fails(l@, r@, i as int + 1, l@.len() as int);
                }
                return false;
            }
            i = i + 1;
        }
        true
    }

    proof fn lemma_all_left_fails(l: Seq<Field>, r: Seq<Field>, upto: int, more: int)
        requires
            0 <= upto <= more <= l.len(),
            !Self::all_left(l, r, upto),
        ensures
            !Self::all_left(l, r, more),
        decreases more - upto,
    {
        if upto < more {
            Self::lemma_all_left_fails(l, r, upto, more - 1);
        }
    }

    fn field_found_left(l: &Vec<Field>, r: &Vec<Field>, j: usize) -> (found: bool)
        requires
            j < r@.len(),
        ensures
            found == Self::found_left(l@, r@, l@.len() as int, j as int),
        decreases l@, 0int, 1int,
    {
        let mut i: usize = 0;
        while i < l.len()
            invariant
                i <= l.len(),
                j < r@.len(),
                !Self::found_left(l@, r@, i as int, j as int),
            decreases l.len() - i,
        {
            if l[i].key == r[j].key && l[i].value.equals(&r[j].value) {
                proof {
                    Self::lemma_found_left_stays(l@, r@, i as int + 1, l@.len() as int, j as int);
                }
                return true;
            }
            i = i + 1;
        }
        false
    }

    proof fn lemma_found_left_stays(l: Seq<Field>, r: Seq<Field>, upto: int, more: int, j: int)
        requires
            0 <= upto <= more <= l.len(),
            Self::found_left(l, r, upto, j),
        ensures
            Self::found_left(l, r, more, j),
        decreases more - upto,
    {
        if upto < more {
            Self::lemma_found_left_stays(l, r, upto, more - 1, j);
        }
    }

    fn fields_all_right(l: &Vec<Field>, r: &Vec<Field>) -> (all: bool)
        ensures
            all == Self::all_right(l@, r@, r@.len() as int),
        decreases l@, 0int, 2int,
    {
        let mut j: usize = 0;
        while j < r.len()
            invariant
                j <= r.len(),
                Self::all_right(l@, r@, j as int),
            decreases r.len() - j,
        {
            if !Self::field_found_left(l, r, j) {
                proof {
                    Self::lemma_all_right_fails(l@, r@, j as int + 1, r@.len() as int);
                }
                return false;
            }
            j = j + 1;
        }
        true
    }

    proof fn lemma_all_right_fails(l: Seq<Field>, r: Seq<Field>, upto: int, more: int)
        requires
            0 <= upto <= more <= r.len(),
            !Self::all_right(l, r, upto),
        ensures
            !Self::all_right(l, r, more),
        decreases more - upto,
    {
        if upto < more {
            Self::lemma_all_right_fails(l, r, upto, more - 1);
        }
    }

    /// How two values are ordered, as a sign: negative where `self` comes first.
    pub fn order(&self, other: &Value) -> (sign: Option<i8>)
        ensures
            match sign {
                Some(s) => self.order_sign(*other) == Some(s as int),
                None => self.order_sign(*other) is None,
            },
    {
        match (self, other) {
            (Value::Integer(l), Value::Integer(r)) => {
                proof {
                    lemma_scaled_integers(*l as int, *r as int);
                }
                if *l < *r {
                    Some(-1)
                } else if *l == *r {
                    Some(0)
                } else {
                    Some(1)
                }
            },
            (Value::Integer(l), Value::Float(r)) => {
                if r.is_nan() {
                    None
                } else {
                    Some(integer_difference_sign(*l, r.to_bits()))
                }
            },
            (Value::Float(l), Value::Float(r)) => {
                if l.is_nan() || r.is_nan() {
                    None
                } else {
                    Some(difference_sign(l.to_bits(), r.to_bits()))
                }
            },
            (Value::Float(l), Value::Integer(r)) => {
                if l.is_nan() {
                    None
                } else {
                    let s = integer_difference_sign(*r, l.to_bits());
                    Some(-s)
                }
            },
            (Value::Char(l), Value::Char(r)) => {
                let a = *l as u32;
                let b = *r as u32;
                if a < b {
                    Some(-1)
                } else if a == b {
                    Some(0)
                } else {
                    Some(1)
                }
            },
            (Value::String(l), Value::String(r)) => Some(text_order(l.as_str(), r.as_str())),
            _ => None,
        }
    }
}

impl PartialEq for Value {
    fn eq(&self, other: &Value) -> (equal: bool) {
        self.equals(other)
    }
}

impl PartialEqSpecImpl for Value {
    open spec fn obeys_eq_spec() -> bool {
        true
    }

    open spec fn eq_spec(&self, other: &Value) -> bool {
        self.equal(*other)
    }
}

impl PartialOrd for Value {
    fn partial_cmp(&self, other: &Value) -> (order: Option<Ordering>) {
        match self.order(other) {
            Some(sign) => if sign < 0 {
                Some(Ordering::Less)
            } else if sign == 0 {
                Some(Ordering::Equal)
            } else {
                Some(Ordering::Greater)
            },
            None => None,
        }
    }
}

impl PartialOrdSpecImpl for Value {
    open spec fn obeys_partial_cmp_spec() -> bool {
        true
    }

    open spec fn partial_cmp_spec(&self, other: &Value) -> Option<Ordering> {
        match self.order_sign(*other) {
            Some(sign) => if sign < 0 {
                Some(Ordering::Less)
            } else if sign == 0 {
                Some(Ordering::Equal)
            } else {
                Some(Ordering::Greater)
            },
            None => None,
        }
    }
}

} // verus!
