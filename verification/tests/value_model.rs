use std::cmp::Ordering;
use std::rc::Rc;
use vaca_core::build::atom::Atom;
use vaca_core::build::form::{Expr, Form, Span};
use vaca_core::build::symbol::Symbol;
use vaca_core::float::Float;
use vaca_core::run::value::array::Array;
use vaca_core::run::value::external::{External, ExternalKind};
use vaca_core::run::value::function::{Function, Native};
use vaca_core::run::value::macros::Macro;
use vaca_core::run::value::object::Object;
use vaca_core::run::value::Value;
use vaca_core::run::valueref::ValueRef;

fn float(x: f64) -> Value {
    Value::Float(Float::new(x.to_bits(), x.to_string()))
}

fn shared(value: Value) -> ValueRef {
    Rc::new(value)
}

fn nil_form() -> Form {
    Form::new(Expr::Nil, Span::new(String::from("test"), 0, 3))
}

fn function_of(names: &[&str]) -> Function {
    Function::new(names.iter().map(|name| Symbol::new(name)).collect(), nil_form())
}

fn array_of(values: Vec<Value>) -> Value {
    Value::Array(Array::from_vec(values.into_iter().map(Rc::new).collect()))
}

#[test]
fn to_array_hands_out_the_items_of_an_array() {
    let value = array_of(vec![Value::Integer(1), Value::Integer(2)]);
    assert!(value.is_array());
    let array = value.to_array();
    assert_eq!(array.len(), 2);
    assert!(*array.items[0] == Value::Integer(1));
    assert!(*array.items[1] == Value::Integer(2));
    let moved = value.into_array();
    assert_eq!(moved.len(), 2);
}

#[test]
fn only_arrays_give_an_array() {
    let value = array_of(vec![Value::Integer(1), Value::Nil]);
    let array = value.as_array().unwrap();
    assert_eq!(array.len(), 2);
    assert!(*array.items[0] == Value::Integer(1));
    assert!(array_of(vec![]).as_array().unwrap().is_empty());
    for other in [
        Value::Nil,
        Value::NotANumber,
        Value::Bool(true),
        Value::Integer(1),
        float(1.0),
        Value::Char('a'),
        Value::String(String::from("[ 1 ]")),
        Value::Object(Object::new()),
        Value::Function(function_of(&[])),
        Value::Macro(Macro::new(function_of(&[]))),
        Value::Atom(Atom::new(":a")),
        Value::External(External::new(String::new(), String::new(), ExternalKind::Macro, 0, true)),
    ] {
        assert!(other.as_array().is_none());
        assert!(!other.is_array());
    }
}

#[test]
fn only_arrays_pass_the_array_check() {
    assert!(!Value::Nil.is_array());
    assert!(!Value::Integer(3).is_array());
    assert!(!Value::String(String::from("[ 1 2 ]")).is_array());
    assert!(array_of(vec![]).is_array());
}

#[test]
fn is_nil_holds_of_nil_alone() {
    assert!(Value::Nil.is_nil());
    assert!(!Value::NotANumber.is_nil());
    assert!(!Value::Bool(false).is_nil());
    assert!(!Value::Integer(0).is_nil());
}

#[test]
fn truthiness_of_plain_values() {
    assert!(!Value::Nil.as_boolean());
    assert!(!Value::NotANumber.as_boolean());
    assert!(Value::Bool(true).as_boolean());
    assert!(!Value::Bool(false).as_boolean());
    assert!(Value::Integer(-7).as_boolean());
    assert!(!Value::Integer(0).as_boolean());
    assert!(Value::Char('a').as_boolean());
    assert!(!Value::Char('\0').as_boolean());
    assert!(Value::String(String::from("x")).as_boolean());
    assert!(!Value::String(String::new()).as_boolean());
}

#[test]
fn truthiness_of_floats() {
    assert!(!float(0.0).as_boolean());
    assert!(!float(-0.0).as_boolean());
    assert!(float(1.5).as_boolean());
    assert!(float(-1e-320).as_boolean());
    assert!(float(f64::NAN).as_boolean());
    assert!(float(f64::INFINITY).as_boolean());
}

#[test]
fn truthiness_of_collections_and_callables() {
    assert!(!array_of(vec![]).as_boolean());
    assert!(array_of(vec![Value::Nil]).as_boolean());
    let mut object = Object::new();
    assert!(!Value::Object(Object::new()).as_boolean());
    object.insert(String::from("k"), shared(Value::Nil));
    assert!(Value::Object(object).as_boolean());
    assert!(Value::Function(function_of(&[])).as_boolean());
    assert!(Value::Macro(Macro::new(function_of(&["a"]))).as_boolean());
    let external = External::new(String::from("m"), String::from("sin"), ExternalKind::Function, 1, false);
    assert!(Value::External(external).as_boolean());
}

#[test]
fn only_the_true_atom_is_true() {
    assert!(Value::Atom(Atom::new(":true")).as_boolean());
    assert!(!Value::Atom(Atom::new(":false")).as_boolean());
    assert!(!Value::Atom(Atom::new(":tru")).as_boolean());
    assert!(!Value::Atom(Atom::new(":true ")).as_boolean());
    assert!(!Value::Atom(Atom::new("")).as_boolean());
}

#[test]
fn plain_values_are_printed() {
    assert_eq!(Value::Nil.to_string(), "'nil");
    assert_eq!(Value::NotANumber.to_string(), "'nan");
    assert_eq!(Value::Bool(true).to_string(), "true");
    assert_eq!(Value::Bool(false).to_string(), "false");
    assert_eq!(Value::Char('x').to_string(), "x");
    assert_eq!(Value::Char('é').to_string(), "é");
    assert_eq!(Value::String(String::from("hello world")).to_string(), "hello world");
    assert_eq!(Value::Atom(Atom::new(":ok")).to_string(), ":ok");
}

#[test]
fn integers_are_printed_in_decimal() {
    assert_eq!(Value::Integer(0).to_string(), "0");
    assert_eq!(Value::Integer(7).to_string(), "7");
    assert_eq!(Value::Integer(10).to_string(), "10");
    assert_eq!(Value::Integer(-42).to_string(), "-42");
    assert_eq!(Value::Integer(1234567890).to_string(), "1234567890");
    assert_eq!(Value::Integer(i64::MAX).to_string(), "9223372036854775807");
    assert_eq!(Value::Integer(i64::MIN).to_string(), "-9223372036854775808");
}

#[test]
fn floats_are_printed_with_their_text() {
    assert_eq!(float(1.5).to_string(), "1.5");
    assert_eq!(float(2.0).to_string(), "2");
    assert_eq!(float(-0.25).to_string(), "-0.25");
}

#[test]
fn arrays_are_printed_in_brackets() {
    let value = array_of(vec![Value::Integer(1), Value::Integer(2), Value::Integer(3)]);
    assert_eq!(value.to_string(), "[ 1 2 3 ]");
    assert_eq!(array_of(vec![]).to_string(), "[ ]");
    let nested = array_of(vec![array_of(vec![Value::Bool(true)]), Value::Nil]);
    assert_eq!(nested.to_string(), "[ [ true ] 'nil ]");
}

#[test]
fn objects_are_printed_with_keys_and_values() {
    let mut object = Object::new();
    assert_eq!(Value::Object(Object::new()).to_string(), ":{ }");
    object.insert(String::from("name"), shared(Value::String(String::from("vaca"))));
    object.insert(String::from("legs"), shared(Value::Integer(4)));
    assert_eq!(Value::Object(object).to_string(), ":{ name: vaca legs: 4 }");
}

#[test]
fn callables_are_printed_with_their_arity() {
    assert_eq!(Value::Function(function_of(&["a", "b"])).to_string(), "'func\\2");
    assert_eq!(Value::Function(function_of(&[])).to_string(), "'func\\0");
    assert_eq!(Value::Macro(Macro::new(function_of(&["a", "b", "c"]))).to_string(), "'macro\\3");
    let native = Function::from_native(vec![Symbol::new("x")], Native { index: 5 });
    assert_eq!(Value::Function(native).to_string(), "'func\\1");
    let sin = External::new(String::from("libm"), String::from("sin"), ExternalKind::Function, 1, false);
    assert_eq!(Value::External(sin).to_string(), "'func::libm::sin\\1");
    let when = External::new(String::from("ctl"), String::from("when"), ExternalKind::Macro, 12, true);
    assert_eq!(Value::External(when).to_string(), "'macro::ctl::when\\12");
}

#[test]
fn integer_equals_float_of_the_same_amount() {
    assert!(Value::Integer(2) == float(2.0));
    assert!(float(2.0) == Value::Integer(2));
    assert!(Value::Integer(2) != float(2.5));
    assert!(Value::Integer(0) == float(-0.0));
    assert!(Value::Integer(-3) == float(-3.0));
    assert!(Value::Integer(3) != float(-3.0));
    assert!(Value::Integer(1) != float(f64::NAN));
    assert!(Value::Integer(1) != float(f64::INFINITY));
}

#[test]
fn integer_is_less_than_a_larger_float() {
    assert_eq!(Value::Integer(1).partial_cmp(&float(1.5)), Some(Ordering::Less));
    assert!(Value::Integer(1) < float(1.5));
    assert_eq!(float(1.5).partial_cmp(&Value::Integer(1)), Some(Ordering::Greater));
    assert_eq!(Value::Integer(2).partial_cmp(&float(2.0)), Some(Ordering::Equal));
    assert_eq!(Value::Integer(-1).partial_cmp(&float(-0.5)), Some(Ordering::Less));
    assert_eq!(Value::Integer(0).partial_cmp(&float(-1e-300)), Some(Ordering::Greater));
    assert_eq!(Value::Integer(0).partial_cmp(&float(5e-324)), Some(Ordering::Less));
    assert_eq!(Value::Integer(5).partial_cmp(&float(f64::INFINITY)), Some(Ordering::Less));
    assert_eq!(Value::Integer(5).partial_cmp(&float(f64::NEG_INFINITY)), Some(Ordering::Greater));
    assert_eq!(Value::Integer(5).partial_cmp(&float(f64::NAN)), None);
    assert_eq!(float(f64::NAN).partial_cmp(&Value::Integer(5)), None);
}

#[test]
fn integers_and_floats_are_compared_exactly() {
    let big = 9007199254740992i64;
    assert!(Value::Integer(big) == float(9007199254740992.0));
    assert!(Value::Integer(big + 1) != float(9007199254740992.0));
    assert_eq!(Value::Integer(big + 1).partial_cmp(&float(9007199254740992.0)), Some(Ordering::Greater));
    assert!(Value::Integer(i64::MIN) == float(-9223372036854775808.0));
    assert_eq!(Value::Integer(i64::MAX).partial_cmp(&float(9223372036854775808.0)), Some(Ordering::Less));
    assert_eq!(Value::Integer(i64::MAX).partial_cmp(&float(1e300)), Some(Ordering::Less));
    assert_eq!(Value::Integer(i64::MIN).partial_cmp(&float(-1e300)), Some(Ordering::Greater));
    assert_eq!(Value::Integer(3).partial_cmp(&float(2.999999999999999)), Some(Ordering::Greater));
}

#[test]
fn small_integers_compare_with_floats_as_machine_floats_do() {
    let integers = [-1000i64, -17, -2, -1, 0, 1, 2, 3, 16, 1023, 1024, 4503599627370496, -4503599627370497];
    let floats = [
        -1001.5, -1000.0, -16.999, -2.0, -1.0, -0.75, -0.0, 0.0, 5e-324, 0.1, 1.0, 1.0000000000000002,
        2.0, 2.5, 3.0, 1023.0, 1024.0, 4503599627370496.0, -4503599627370497.0, 1e19, -1e19, f64::MAX,
        f64::MIN, f64::INFINITY, f64::NEG_INFINITY, f64::NAN, f64::MIN_POSITIVE,
    ];
    for i in integers {
        for f in floats {
            let expected = (i as f64).partial_cmp(&f);
            assert_eq!(Value::Integer(i).partial_cmp(&float(f)), expected);
            assert_eq!(float(f).partial_cmp(&Value::Integer(i)), expected.map(Ordering::reverse));
            assert_eq!(Value::Integer(i) == float(f), (i as f64) == f);
            assert_eq!(float(f) == Value::Integer(i), (i as f64) == f);
        }
    }
}

#[test]
fn floats_compare_as_machine_floats_do() {
    let floats = [
        -1001.5, -2.0, -1.0, -0.75, -0.0, 0.0, 5e-324, 1e-310, 0.1, 1.0, 1.0000000000000002, 2.0,
        1e19, -1e19, f64::MAX, f64::MIN, f64::INFINITY, f64::NEG_INFINITY, f64::NAN,
        f64::MIN_POSITIVE, -f64::MIN_POSITIVE,
    ];
    for a in floats {
        for b in floats {
            assert_eq!(float(a).partial_cmp(&float(b)), a.partial_cmp(&b));
            assert_eq!(float(a) == float(b), a == b);
        }
    }
}

#[test]
fn integers_compare_among_themselves() {
    assert!(Value::Integer(4) == Value::Integer(4));
    assert!(Value::Integer(4) != Value::Integer(5));
    assert_eq!(Value::Integer(4).partial_cmp(&Value::Integer(5)), Some(Ordering::Less));
    assert_eq!(Value::Integer(5).partial_cmp(&Value::Integer(5)), Some(Ordering::Equal));
    assert_eq!(Value::Integer(i64::MAX).partial_cmp(&Value::Integer(i64::MIN)), Some(Ordering::Greater));
}

#[test]
fn functions_are_equal_to_nothing() {
    let f = Value::Function(function_of(&["a"]));
    let g = Value::Function(function_of(&["a"]));
    assert!(f != g);
    assert!(f != f.clone());
    assert!(!(f == f));
    assert!(f != Value::Nil);
    assert!(Value::Integer(1) != f);
    let m = Value::Macro(Macro::new(function_of(&["a"])));
    assert!(!(m == m));
    let e = Value::External(External::new(String::from("l"), String::from("s"), ExternalKind::Function, 0, false));
    assert!(!(e == e));
    assert_eq!(f.partial_cmp(&g), None);
}

#[test]
fn equality_of_other_values_is_by_content() {
    assert!(Value::Nil == Value::Nil);
    assert!(Value::NotANumber == Value::NotANumber);
    assert!(Value::Nil != Value::NotANumber);
    assert!(Value::Bool(true) == Value::Bool(true));
    assert!(Value::Bool(true) != Value::Bool(false));
    assert!(Value::Char('a') == Value::Char('a'));
    assert!(Value::Char('a') != Value::Char('b'));
    assert!(Value::String(String::from("ab")) == Value::String(String::from("ab")));
    assert!(Value::String(String::from("ab")) != Value::String(String::from("abc")));
    assert!(Value::Atom(Atom::new(":a")) == Value::Atom(Atom::new(":a")));
    assert!(Value::Atom(Atom::new(":a")) != Value::Atom(Atom::new(":b")));
    assert!(Value::Integer(1) != Value::Bool(true));
    assert!(Value::String(String::from("1")) != Value::Integer(1));
    assert!(Value::Char('a') != Value::String(String::from("a")));
}

#[test]
fn arrays_are_equal_item_by_item() {
    let a = array_of(vec![Value::Integer(1), float(2.0), Value::Nil]);
    let b = array_of(vec![float(1.0), Value::Integer(2), Value::Nil]);
    assert!(a == b);
    let shorter = array_of(vec![Value::Integer(1), float(2.0)]);
    assert!(a != shorter);
    assert!(shorter != a);
    let other = array_of(vec![Value::Integer(1), float(2.0), Value::Bool(false)]);
    assert!(a != other);
    assert!(array_of(vec![]) == array_of(vec![]));
    let with_function = array_of(vec![Value::Function(function_of(&[]))]);
    assert!(with_function != with_function.clone());
}

#[test]
fn objects_are_equal_as_mappings() {
    let mut a = Object::new();
    a.insert(String::from("x"), shared(Value::Integer(1)));
    a.insert(String::from("y"), shared(Value::Integer(2)));
    let mut b = Object::new();
    b.insert(String::from("y"), shared(float(2.0)));
    b.insert(String::from("x"), shared(Value::Integer(1)));
    assert!(Value::Object(a.clone()) == Value::Object(b.clone()));
    let mut c = Object::new();
    c.insert(String::from("x"), shared(Value::Integer(1)));
    assert!(Value::Object(a.clone()) != Value::Object(c.clone()));
    assert!(Value::Object(c) != Value::Object(a.clone()));
    b.insert(String::from("y"), shared(Value::Integer(3)));
    assert!(Value::Object(a) != Value::Object(b));
    assert!(Value::Object(Object::new()) == Value::Object(Object::new()));
}

#[test]
fn objects_keep_one_value_for_each_key() {
    let mut object = Object::new();
    assert!(object.is_empty());
    object.insert(String::from("a"), shared(Value::Integer(1)));
    object.insert(String::from("b"), shared(Value::Integer(2)));
    object.insert(String::from("a"), shared(Value::Integer(3)));
    assert_eq!(object.len(), 2);
    assert!(**object.get("a").unwrap() == Value::Integer(3));
    assert!(**object.get("b").unwrap() == Value::Integer(2));
    assert!(object.get("c").is_none());
    assert_eq!(object.find("b"), Some(1));
    assert_eq!(object.find("zz"), None);
    assert_eq!(object.fields().len(), 2);
    assert_eq!(object.fields()[0].key, "a");
    assert_eq!(object.clone().len(), 2);
    assert_eq!(Value::Object(object).to_string(), ":{ a: 3 b: 2 }");
}

#[test]
fn arrays_grow_and_are_read_by_index() {
    let mut array = Array::new();
    assert!(array.is_empty());
    array.push(shared(Value::Integer(5)));
    array.push(shared(Value::Nil));
    assert_eq!(array.len(), 2);
    assert!(**array.get(0).unwrap() == Value::Integer(5));
    assert!(array.get(1).unwrap().is_nil());
    assert!(array.get(2).is_none());
    let copy = array.duplicate();
    assert_eq!(copy.len(), 2);
    assert!(Rc::ptr_eq(&copy.items[0], &array.items[0]));
}

#[test]
fn characters_are_ordered_by_code_point() {
    assert_eq!(Value::Char('a').partial_cmp(&Value::Char('b')), Some(Ordering::Less));
    assert_eq!(Value::Char('b').partial_cmp(&Value::Char('a')), Some(Ordering::Greater));
    assert_eq!(Value::Char('q').partial_cmp(&Value::Char('q')), Some(Ordering::Equal));
    assert_eq!(Value::Char('Z').partial_cmp(&Value::Char('a')), Some(Ordering::Less));
    assert_eq!(Value::Char('z').partial_cmp(&Value::Char('é')), Some(Ordering::Less));
}

#[test]
fn texts_are_ordered_lexicographically() {
    let text = |s: &str| Value::String(String::from(s));
    assert_eq!(text("apple").partial_cmp(&text("banana")), Some(Ordering::Less));
    assert_eq!(text("banana").partial_cmp(&text("apple")), Some(Ordering::Greater));
    assert_eq!(text("same").partial_cmp(&text("same")), Some(Ordering::Equal));
    assert_eq!(text("ab").partial_cmp(&text("abc")), Some(Ordering::Less));
    assert_eq!(text("").partial_cmp(&text("a")), Some(Ordering::Less));
    assert_eq!(text("b").partial_cmp(&text("abc")), Some(Ordering::Greater));
    assert_eq!(text("z").partial_cmp(&text("é")), Some(Ordering::Less));
    assert!(text("apple") < text("apples"));
}

#[test]
fn other_pairs_are_not_ordered() {
    assert_eq!(Value::Nil.partial_cmp(&Value::Nil), None);
    assert_eq!(Value::Bool(true).partial_cmp(&Value::Bool(false)), None);
    assert_eq!(Value::Integer(1).partial_cmp(&Value::Char('1')), None);
    assert_eq!(Value::Char('a').partial_cmp(&Value::String(String::from("a"))), None);
    assert_eq!(Value::String(String::from("1")).partial_cmp(&Value::Integer(1)), None);
    assert_eq!(array_of(vec![]).partial_cmp(&array_of(vec![])), None);
    assert_eq!(Value::Atom(Atom::new(":a")).partial_cmp(&Value::Atom(Atom::new(":b"))), None);
    assert_eq!(Value::NotANumber.partial_cmp(&Value::Integer(1)), None);
}

#[test]
fn order_is_given_as_a_sign() {
    assert_eq!(Value::Integer(1).order(&Value::Integer(2)), Some(-1));
    assert_eq!(Value::Integer(2).order(&float(2.0)), Some(0));
    assert_eq!(float(2.5).order(&Value::Integer(2)), Some(1));
    assert_eq!(Value::Nil.order(&Value::Integer(2)), None);
}
