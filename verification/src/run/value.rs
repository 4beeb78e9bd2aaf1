//! The values of the language.

use vstd::prelude::*;
use crate::build::atom::{true_atom, Atom};
use crate::float::{is_nan, scaled, Float};
use crate::run::value::array::Array;
use crate::run::value::external::{External, ExternalKind};
use crate::run::value::function::Function;
use crate::run::value::macros::Macro;
use crate::run::value::object::{Field, Object};
use crate::run::valueref::ValueRef;
use crate::text::{char_text, decimal, integer_text, natural_text, signed_decimal};

pub mod function;
pub mod macros;
pub mod array;
pub mod object;
pub mod external;
pub mod compare;

verus! {

#[derive(Debug, Clone)]
pub enum Value {
    Nil,
    NotANumber,
    Bool(bool),
    Integer(i64),
    Float(Float),
    Char(char),
    String(String),
    Array(Array),
    Object(Object),
    Function(Function),
    Macro(Macro),
    Atom(Atom),
    External(External),
}

impl Value {
    /// Whether the value counts as true where a condition is asked for.
    pub open spec fn truthy(self) -> bool {
        match self {
            Value::Nil => false,
            Value::NotANumber => false,
            Value::Bool(b) => b,
            Value::Integer(i) => i != 0,
            Value::Float(f) => is_nan(f.bits()) || scaled(f.bits()) != 0,
            Value::Char(c) => c != '\0',
            Value::String(s) => s@.len() != 0,
            Value::Array(a) => a.items@.len() != 0,
            Value::Object(o) => o@.len() != 0,
            Value::Function(_) => true,
            Value::Macro(_) => true,
            Value::Atom(a) => a@ == true_atom(),
            Value::External(_) => true,
        }
    }

    /// How the value is printed.
    pub open spec fn text(self) -> Seq<char>
        decreases self, 0int,
    {
        match self {
            Value::Nil => "'nil"@,
            Value::NotANumber => "'nan"@,
            Value::Bool(b) => if b {
                "true"@
            } else {
                "false"@
            },
            Value::Char(c) => seq![c],
            Value::Integer(i) => signed_decimal(i as int),
            Value::Float(f) => f.text(),
            Value::Array(a) => "[ "@ + Self::items_text(a.items@, a.items@.len() as int) + "]"@,
            Value::Object(o) => {
                proof {
                    o.lemma_fields_are_smaller();
                }
                ":{ "@ + Self::fields_text(o@, o@.len() as int) + "}"@
            },
            Value::Function(f) => "'func\\"@ + decimal(f.arity as nat),
            Value::Macro(m) => "'macro\\"@ + decimal(m.shape.arity as nat),
            Value::String(s) => s@,
            Value::Atom(a) => a@,
            Value::External(e) => (if e.kind == ExternalKind::Function {
                "'func::"@
            } else {
                "'macro::"@
            }) + e.lib@ + "::"@ + e.symbol@ + "\\"@ + decimal(e.arity as nat),
        }
    }

    /// The first `upto` items as they are printed, each followed by a space.
    pub open spec fn items_text(items: Seq<ValueRef>, upto: int) -> Seq<char>
        decreases items, upto,
    {
        if 0 < upto <= items.len() {
            Self::items_text(items, upto - 1) + (*items[upto - 1]).text() + " "@
        } else {
            Seq::empty()
        }
    }

    /// The first `upto` fields as they are printed: the key, a colon and a
    /// space, the value and a space.
    pub open spec fn fields_text(fields: Seq<Field>, upto: int) -> Seq<char>
        decreases fields, upto,
    {
        if 0 < upto <= fields.len() {
            Self::fields_text(fields, upto - 1) + fields[upto - 1].key@ + ": "@ + (
            *fields[upto - 1].value).text() + " "@
        } else {
            Seq::empty()
        }
    }

    pub fn is_nil(&self) -> (nil: bool)
        ensures
            nil == (self is Nil),
    {
        match self {
            Value::Nil => true,
            _ => false,
        }
    }

    pub fn is_array(&self) -> (array: bool)
        ensures
            array == (self is Array),
    {
        match self {
            Value::Array(_) => true,
            _ => false,
        }
    }

    /// The array that the value is, with its items shared. Only an array can be
    /// asked for it.
    pub fn to_array(&self) -> (array: Array)
        requires
            self is Array,
        ensures
            array.items@ == self->Array_0.items@,
    {
        match self {
            Value::Array(a) => a.duplicate(),
            _ => Array::new(),
        }
    }

    /// The array that the value is, with its items shared, where the value is
    /// an array; nothing where it is anything else.
    pub fn as_array(&self) -> (array: Option<Array>)
        ensures
            array is Some <==> self is Array,
            array is Some ==> array->Some_0.items@ == self->Array_0.items@,
    {
        match self {
            Value::Array(a) => Some(a.duplicate()),
            _ => None,
        }
    }

    /// The array that the value is. Only an array can be asked for it.
    pub fn into_array(self) -> (array: Array)
        requires
            self is Array,
        ensures
            array == self->Array_0,
    {
        match self {
            Value::Array(a) => a,
            _ => Array::new(),
        }
    }

    pub fn as_boolean(&self) -> (truth: bool)
        ensures
            truth == self.truthy(),
    {
        match self {
            Value::Nil => false,
            Value::NotANumber => false,
            Value::Bool(b) => *b,
            Value::Integer(i) => *i != 0,
            Value::Float(f) => !f.is_zero(),
            Value::Char(c) => *c != '\0',
            Value::String(s) => !s.as_str().is_empty(),
            Value::Array(a) => a.len() != 0,
            Value::Object(o) => !o.is_empty(),
            Value::Function(_) => true,
            Value::Macro(_) => true,
            Value::Atom(a) => a.is_true(),
            Value::External(_) => true,
        }
    }

    /// Prints the value.
    pub fn to_string(&self) -> (text: String)
        ensures
            text@ == self.text(),
        decreases self, 0int,
    {
        match self {
            Value::Nil => String::from_str("'nil"),
            Value::NotANumber => String::from_str("'nan"),
            Value::Bool(b) => if *b {
                String::from_str("true")
            } else {
                String::from_str("false")
            },
            Value::Char(c) => char_text(*c),
            Value::Integer(i) => integer_text(*i),
            Value::Float(f) => f.to_string(),
            Value::Array(a) => {
                let items = Self::items_to_string(&a.items);
                String::from_str("[ ").concat(items.as_str()).concat("]")
            },
            Value::Object(o) => {
                proof {
                    o.lemma_fields_are_smaller();
                }
                let fields = Self::fields_to_string(o.fields());
                String::from_str(":{ ").concat(fields.as_str()).concat("}")
            },
            Value::Function(f) => {
                let arity = natural_text(f.arity as u64);
                String::from_str("'func\\").concat(arity.as_str())
            },
            Value::Macro(m) => {
                let arity = natural_text(m.shape.arity as u64);
                String::from_str("'macro\\").concat(arity.as_str())
            },
            Value::String(s) => s.clone(),
            Value::Atom(a) => a.to_string(),
            Value::External(e) => {
                let arity = natural_text(e.arity as u64);
                let head = match e.kind {
                    ExternalKind::Function => String::from_str("'func::"),
                    ExternalKind::Macro => String::from_str("'macro::"),
                };
                head.concat(e.lib.as_str()).concat("::").concat(e.symbol.as_str()).concat(
                    "\\",
                ).concat(arity.as_str())
            },
        }
    }

    fn items_to_string(items: &Vec<ValueRef>) -> (text: String)
        ensures
            text@ == Self::items_text(items@, items@.len() as int),
        decreases items, 1int,
    {
        let mut text = String::new();
        let mut i: usize = 0;
        while i < items.len()
            invariant
                i <= items.len(),
                text@ == Self::items_text(items@, i as int),
            decreases items.len() - i,
        {
            let item = items[i].to_string();
            let ghost before = text@;
            text.append(item.as_str());
            text.append(" ");
            assert(text@ =~= before + item@ + " "@);
            i = i + 1;
        }
        text
    }

    fn fields_to_string(fields: &Vec<Field>) -> (text: String)
        ensures
            text@ == Self::fields_text(fields@, fields@.len() as int),
        decreases fields@, 1int,
    {
        let mut text = String::new();
        let mut i: usize = 0;
        while i < fields.len()
            invariant
                i <= fields.len(),
                text@ == Self::fields_text(fields@, i as int),
            decreases fields.len() - i,
        {
            let value = fields[i].value.to_string();
            let ghost before = text@;
            text.append(fields[i].key.as_str());
            text.append(": ");
            text.append(value.as_str());
            text.append(" ");
            assert(text@ =~= before + fields@[i as int].key@ + ": "@ + value@ + " "@);
            i = i + 1;
        }
        text
    }
}

} // verus!
