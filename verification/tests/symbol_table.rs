use std::rc::Rc;
use vaca_core::build::symbol::Symbol;
use vaca_core::run::error::{ErrorKind, RunErrorStack};
use vaca_core::run::table::{Local, SymbolTable, SymbolTableEntry};
use vaca_core::run::value::array::Array;
use vaca_core::run::value::Value;
use vaca_core::stl::eval_source;

fn leaf_message(error: &RunErrorStack) -> String {
    match error {
        RunErrorStack::Top { msg, .. } => msg.clone(),
        RunErrorStack::Stream { .. } => panic!("expected a leaf"),
    }
}

#[test]
fn a_mutable_symbol_takes_the_last_value_assigned() {
    let mut table = SymbolTable::root();
    assert!(table.assign(Symbol::new("count'"), Value::Integer(1), false).is_ok());
    assert!(*table.lookup(&Symbol::new("count'")).unwrap() == Value::Integer(1));
    assert!(table.assign(Symbol::new("count'"), Value::Integer(2), false).is_ok());
    assert!(*table.lookup(&Symbol::new("count'")).unwrap() == Value::Integer(2));
    assert!(table.assign(Symbol::new("count'"), Value::String(String::from("three")), true).is_ok());
    assert!(*table.lookup(&Symbol::new("count'")).unwrap() == Value::String(String::from("three")));
}

#[test]
fn an_ordinary_symbol_is_assigned_once_in_a_scope() {
    let mut table = SymbolTable::root();
    assert!(table.assign(Symbol::new("pi"), Value::Integer(3), false).is_ok());
    let error = table.assign(Symbol::new("pi"), Value::Integer(4), false).unwrap_err();
    assert_eq!(error.kind(), ErrorKind::ImmutableMutation);
    assert_eq!(
        leaf_message(&error),
        "atempt to mutate immutable symbol `pi`. If you need mutation, try creating `pi'`"
    );
    assert!(*table.lookup(&Symbol::new("pi")).unwrap() == Value::Integer(3));
    let again = table.assign(Symbol::new("pi"), Value::Integer(3), true).unwrap_err();
    assert_eq!(again.kind(), ErrorKind::ImmutableMutation);
}

#[test]
fn a_mutable_symbol_is_hidden_from_a_child_scope() {
    let mut outer = SymbolTable::root();
    outer.assign(Symbol::new("total'"), Value::Integer(10), false).unwrap();
    let inner = SymbolTable::from_parent(outer);
    let error = inner.lookup(&Symbol::new("total'")).unwrap_err();
    assert_eq!(error.kind(), ErrorKind::UndefinedMutableSymbol);
    assert_eq!(
        leaf_message(&error),
        "use of undefined mutable symbol `total'`. Mutable symbols are only accessible in the scope they were created"
    );
    let outer = inner.into_parent().unwrap();
    assert!(*outer.lookup(&Symbol::new("total'")).unwrap() == Value::Integer(10));
}

#[test]
fn mutable_state_end_to_end() {
    let mut table = SymbolTable::root();
    table.assign(Symbol::new("add'"), Value::Integer(0), false).unwrap();
    table.create_scope();
    let error = table.lookup(&Symbol::new("add'")).unwrap_err();
    assert_eq!(error.kind(), ErrorKind::UndefinedMutableSymbol);
    table.drop_scope();
    assert!(table.assign(Symbol::new("add'"), Value::Integer(5), false).is_ok());
    assert!(*table.lookup(&Symbol::new("add'")).unwrap() == Value::Integer(5));
}

#[test]
fn an_ordinary_symbol_is_seen_from_inner_scopes() {
    let mut table = SymbolTable::root();
    table.assign(Symbol::new("x"), Value::Integer(1), false).unwrap();
    table.assign(Symbol::new("when"), Value::Nil, true).unwrap();
    table.create_scope();
    table.create_scope();
    assert_eq!(table.depth(), 3);
    assert!(*table.lookup(&Symbol::new("x")).unwrap() == Value::Integer(1));
    assert_eq!(table.is_action(&Symbol::new("x")).unwrap(), false);
    assert_eq!(table.is_action(&Symbol::new("when")).unwrap(), true);
    assert!(table.assign(Symbol::new("x"), Value::Integer(2), true).is_ok());
    assert!(*table.lookup(&Symbol::new("x")).unwrap() == Value::Integer(2));
    assert_eq!(table.is_action(&Symbol::new("x")).unwrap(), true);
    table.drop_scope();
    assert!(*table.lookup(&Symbol::new("x")).unwrap() == Value::Integer(1));
    assert_eq!(table.is_action(&Symbol::new("x")).unwrap(), false);
    table.drop_scope();
    assert_eq!(table.depth(), 1);
    assert!(*table.lookup(&Symbol::new("x")).unwrap() == Value::Integer(1));
}

#[test]
fn an_unbound_ordinary_symbol_is_undefined() {
    let mut table = SymbolTable::root();
    let error = table.lookup(&Symbol::new("nowhere")).unwrap_err();
    assert_eq!(error.kind(), ErrorKind::UndefinedSymbol);
    assert_eq!(leaf_message(&error), "use of undefined symbol `nowhere`");
    table.create_scope();
    let error = table.lookup(&Symbol::new("nowhere")).unwrap_err();
    assert_eq!(error.kind(), ErrorKind::UndefinedSymbol);
    let error = table.is_action(&Symbol::new("nowhere")).unwrap_err();
    assert_eq!(error.kind(), ErrorKind::UndefinedSymbol);
    assert_eq!(leaf_message(&error), "use of undefined symbol `nowhere`");
}

#[test]
fn mutable_symbols_are_always_actions() {
    let mut table = SymbolTable::root();
    assert_eq!(table.is_action(&Symbol::new("unbound'")).unwrap(), true);
    table.assign(Symbol::new("m'"), Value::Integer(1), false).unwrap();
    assert_eq!(table.is_action(&Symbol::new("m'")).unwrap(), true);
}

#[test]
fn ordinary_and_mutable_bindings_are_kept_apart() {
    let mut table = SymbolTable::root();
    table.assign(Symbol::new("v"), Value::Integer(1), false).unwrap();
    table.assign(Symbol::new("v'"), Value::Integer(2), false).unwrap();
    assert!(*table.lookup(&Symbol::new("v")).unwrap() == Value::Integer(1));
    assert!(*table.lookup(&Symbol::new("v'")).unwrap() == Value::Integer(2));
    table.assign(Symbol::new("v'"), Value::Integer(3), false).unwrap();
    assert!(*table.lookup(&Symbol::new("v")).unwrap() == Value::Integer(1));
    assert!(*table.lookup(&Symbol::new("v'")).unwrap() == Value::Integer(3));
}

#[test]
fn an_inner_scope_may_bind_what_an_outer_scope_binds() {
    let mut table = SymbolTable::root();
    table.assign(Symbol::new("name"), Value::Integer(1), false).unwrap();
    table.create_scope();
    assert!(table.assign(Symbol::new("name"), Value::Integer(2), false).is_ok());
    assert!(table.assign(Symbol::new("name"), Value::Integer(3), false).is_err());
    assert!(*table.lookup(&Symbol::new("name")).unwrap() == Value::Integer(2));
}

#[test]
fn lookups_share_the_bound_value() {
    let mut table = SymbolTable::root();
    let value = Rc::new(Value::String(String::from("shared")));
    table.assign_shared(&Symbol::new("s"), Rc::clone(&value), false).unwrap();
    let found = table.lookup(&Symbol::new("s")).unwrap();
    assert!(Rc::ptr_eq(&found, &value));
    let entry = SymbolTableEntry::new(Rc::clone(&value), true);
    assert!(entry.is_action);
    assert!(Rc::ptr_eq(&entry.value, &value));
}

#[test]
fn the_outermost_scope_is_never_closed() {
    let mut table = SymbolTable::root();
    table.assign(Symbol::new("kept"), Value::Integer(1), false).unwrap();
    table.drop_scope();
    assert_eq!(table.depth(), 1);
    assert!(*table.lookup(&Symbol::new("kept")).unwrap() == Value::Integer(1));
    assert!(SymbolTable::root().into_parent().is_none());
}

#[test]
fn one_scope_answers_for_itself() {
    let mut table = SymbolTable::root();
    table.assign(Symbol::new("outer"), Value::Integer(1), true).unwrap();
    table.create_scope();
    table.assign(Symbol::new("inner"), Value::Integer(2), false).unwrap();
    table.assign(Symbol::new("cell'"), Value::Integer(3), false).unwrap();
    assert!(matches!(table.lookup_local(&Symbol::new("inner")), Local::Found(v) if *v == Value::Integer(2)));
    assert!(matches!(table.lookup_local(&Symbol::new("cell'")), Local::Found(v) if *v == Value::Integer(3)));
    assert!(matches!(table.lookup_local(&Symbol::new("outer")), Local::AskParent));
    assert!(matches!(table.lookup_local(&Symbol::new("nowhere")), Local::AskParent));
    match table.lookup_local(&Symbol::new("other'")) {
        Local::Undefined(error) => assert_eq!(error.kind(), ErrorKind::UndefinedMutableSymbol),
        other => panic!("expected an undefined symbol, got {:?}", other),
    }
    assert!(matches!(table.is_action_local(&Symbol::new("inner")), Local::Found(false)));
    assert!(matches!(table.is_action_local(&Symbol::new("other'")), Local::Found(true)));
    assert!(matches!(table.is_action_local(&Symbol::new("outer")), Local::AskParent));
}

#[test]
fn an_answer_at_the_root_is_final() {
    let x = Symbol::new("x");
    let found: Local<i64> = Local::Found(4);
    assert_eq!(found.at_root(&x).unwrap(), 4);
    let asked: Local<i64> = Local::AskParent;
    let error = asked.at_root(&x).unwrap_err();
    assert_eq!(error.kind(), ErrorKind::UndefinedSymbol);
    assert_eq!(error.message(), "use of undefined symbol `x`");
    let undefined: Local<i64> = Local::Undefined(RunErrorStack::undefined_mutable_symbol(&Symbol::new("m'")));
    assert_eq!(undefined.at_root(&x).unwrap_err().kind(), ErrorKind::UndefinedMutableSymbol);
}

#[test]
fn eval_takes_text_alone() {
    let mut table = SymbolTable::root();
    assert_eq!(eval_source(&table), Err(String::from("use of undefined symbol `expr`")));
    table.create_scope();
    table.assign(Symbol::new("expr"), Value::String(String::from("(+ 1 2)")), false).unwrap();
    assert_eq!(eval_source(&table), Ok(String::from("(+ 1 2)")));
    table.create_scope();
    assert_eq!(eval_source(&table), Ok(String::from("(+ 1 2)")));
    table.assign(Symbol::new("expr"), Value::Integer(12), false).unwrap();
    assert_eq!(
        eval_source(&table),
        Err(String::from("Not possible to parse and evaluate a non String `12`"))
    );
    table.create_scope();
    let array = Value::Array(Array::from_vec(vec![Rc::new(Value::Integer(4))]));
    table.assign(Symbol::new("expr"), array, false).unwrap();
    assert_eq!(
        eval_source(&table),
        Err(String::from("Not possible to parse and evaluate a non String `[ 4 ]`"))
    );
}
