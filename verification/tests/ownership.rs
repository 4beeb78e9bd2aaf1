use vaca_core::build::form::{Expr, Form, Span};
use vaca_core::build::symbol::Symbol;
use vaca_core::data::owner::{OwnScope, Owner};
use vaca_core::data::{Data, Handle};
use vaca_core::float::Float;
use vaca_core::run::value::function::Function;

#[test]
fn data_is_reached_through_its_handle() {
    let mut owner = Owner::new();
    assert_eq!(owner.depth(), 0);
    owner.create_scope();
    assert_eq!(owner.depth(), 1);
    let seven = owner.insert(Data::Integer(7));
    let text = owner.insert(Data::String(String::from("seven")));
    assert!(seven != text);
    assert!(matches!(owner.get(seven), Some(Data::Integer(7))));
    assert!(matches!(owner.get(text), Some(Data::String(s)) if s == "seven"));
    assert!(owner.is_live(seven));
    assert_eq!(owner.render(seven), "7");
    assert_eq!(owner.render(text), "seven");
}

#[test]
fn closing_a_scope_leaves_its_handles_undefined() {
    let mut owner = Owner::new();
    owner.create_scope();
    let x = owner.insert(Data::Integer(1));
    assert!(owner.is_live(x));
    owner.drop_scope();
    assert!(!owner.is_live(x));
    assert!(owner.get(x).is_none());
    assert_eq!(owner.render(x), "'undefined");
    assert_eq!(owner.depth(), 0);
}

#[test]
fn promoted_data_outlives_its_scope() {
    let mut owner = Owner::new();
    owner.create_scope();
    owner.create_scope();
    let x = owner.insert(Data::String(String::from("result")));
    let local = owner.insert(Data::Integer(2));
    let promoted = owner.insert_return(x);
    assert_eq!(promoted, x);
    owner.drop_scope();
    assert!(owner.is_live(x));
    assert!(!owner.is_live(local));
    assert!(matches!(owner.get(promoted), Some(Data::String(s)) if s == "result"));
    assert_eq!(owner.render(x), "result");
    owner.drop_scope();
    assert!(!owner.is_live(x));
    assert_eq!(owner.render(x), "'undefined");
}

#[test]
fn data_promoted_twice_lives_until_every_owner_is_gone() {
    let mut owner = Owner::new();
    owner.create_scope();
    owner.create_scope();
    owner.create_scope();
    let x = owner.insert(Data::Bool(true));
    owner.insert_return(x);
    owner.drop_scope();
    owner.insert_return(x);
    owner.drop_scope();
    assert!(owner.is_live(x));
    owner.drop_scope();
    assert!(!owner.is_live(x));
}

#[test]
fn closing_without_a_scope_does_nothing() {
    let mut owner = Owner::new();
    owner.drop_scope();
    assert_eq!(owner.depth(), 0);
    owner.create_scope();
    let x = owner.insert(Data::Nil);
    owner.drop_scope();
    owner.drop_scope();
    assert!(!owner.is_live(x));
    let _scope = OwnScope::new();
}

#[test]
fn handles_from_nowhere_are_undefined() {
    let mut owner = Owner::new();
    owner.create_scope();
    let stray = Handle { index: 99 };
    assert!(!owner.is_live(stray));
    assert!(owner.get(stray).is_none());
    assert_eq!(owner.render(stray), "'undefined");
}

#[test]
fn data_is_printed() {
    let mut owner = Owner::new();
    owner.create_scope();
    let body = Form::new(Expr::Nil, Span::new(String::from("t"), 0, 0));
    let function = Function::new(vec![Symbol::new("a"), Symbol::new("b")], body);
    assert_eq!(owner.render_data(&Data::Nil), "'nil");
    assert_eq!(owner.render_data(&Data::Bool(true)), "true");
    assert_eq!(owner.render_data(&Data::Bool(false)), "false");
    assert_eq!(owner.render_data(&Data::Char('c')), "c");
    assert_eq!(owner.render_data(&Data::Integer(-12)), "-12");
    assert_eq!(owner.render_data(&Data::Float(Float::new(0.5f64.to_bits(), 0.5f64.to_string()))), "0.5");
    assert_eq!(owner.render_data(&Data::Function(function)), "'func\\2");
    assert_eq!(owner.render_data(&Data::String(String::from("s"))), "s");
    assert_eq!(owner.render_data(&Data::Array(vec![])), "[ ]");
}

#[test]
fn arrays_are_printed_in_order() {
    let mut owner = Owner::new();
    owner.create_scope();
    let a = owner.insert(Data::Integer(1));
    let b = owner.insert(Data::Integer(2));
    let c = owner.insert(Data::Integer(3));
    let array = owner.insert(Data::Array(vec![a, b, c]));
    assert_eq!(owner.render(array), "[ 1 2 3 ]");
    let nested = owner.insert(Data::Array(vec![array, a]));
    assert_eq!(owner.render(nested), "[ [ 1 2 3 ] 1 ]");
}

#[test]
fn released_items_of_an_array_are_printed_as_undefined() {
    let mut owner = Owner::new();
    owner.create_scope();
    let kept = owner.insert(Data::Integer(1));
    owner.create_scope();
    let lost = owner.insert(Data::Integer(2));
    let array = owner.insert(Data::Array(vec![kept, lost]));
    owner.insert_return(array);
    assert_eq!(owner.render(array), "[ 1 2 ]");
    owner.drop_scope();
    assert_eq!(owner.render(array), "[ 1 'undefined ]");
}

#[test]
fn an_array_does_not_reach_what_came_after_it() {
    let mut owner = Owner::new();
    owner.create_scope();
    let array = owner.insert(Data::Array(vec![Handle { index: 1 }, Handle { index: 0 }]));
    let _later = owner.insert(Data::Integer(5));
    assert_eq!(owner.render(array), "[ 'undefined 'undefined ]");
}
