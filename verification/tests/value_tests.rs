use std::rc::Rc;

use simple_expressions::errors::Error;
use simple_expressions::value::{value_eq, FuncVal, Primitive, Value};

#[test]
fn primitive_coercions() {
    assert_eq!(Primitive::Int(3).coerce_bool(), Some(true));
    assert_eq!(Primitive::Int(0).coerce_bool(), Some(false));
    assert_eq!(Primitive::Float((1.5f64).to_bits()).coerce_bool(), Some(true));
    assert_eq!(Primitive::Float((0.0f64).to_bits()).coerce_bool(), Some(false));
    assert_eq!(Primitive::Float((-0.0f64).to_bits()).coerce_bool(), Some(false));
    assert_eq!(Primitive::Str("true".to_string()).coerce_bool(), Some(true));
    assert_eq!(Primitive::Str("false".to_string()).coerce_bool(), Some(false));
    assert_eq!(Primitive::Str("yes".to_string()).coerce_bool(), None);
    assert_eq!(Primitive::Bool(true).as_bool(), Some(true));
    assert_eq!(Primitive::Int(7).as_int(), Some(7));
    assert_eq!(Primitive::Str("x".to_string()).as_int(), None);
    assert_eq!(Primitive::Float((2.0f64).to_bits()).as_float(), Some((2.0f64).to_bits()));
    assert_eq!(Primitive::Int(2).to_float_lossy(), Some((2.0f64).to_bits()));
    assert_eq!(Primitive::Bool(true).to_float_lossy(), None);
}

#[test]
fn value_rendering() {
    assert_eq!(Value::from(12i64).as_str_lossy(), "12");
    assert_eq!(Value::from(-3i64).as_str_lossy(), "-3");
    assert_eq!(Value::from(true).as_str_lossy(), "true");
    assert_eq!(Value::from("hi".to_string()).as_str_lossy(), "hi");
    assert_eq!(Value::Primitive(Primitive::Float((2.5f64).to_bits())).as_str_lossy(), "2.5");
    let list = Value::List(Rc::new(vec![Value::from(1i64), Value::from(2i64)]));
    assert_eq!(list.as_str_lossy(), "[1, 2]");
    let dict = Value::Dict(Rc::new(vec![
        ("a".to_string(), Value::from(1i64)),
        ("b".to_string(), Value::from(2i64)),
    ]));
    assert_eq!(dict.as_str_lossy(), "{a: 1, b: 2}");
    let f = Value::Func(FuncVal::Native("add".to_string()));
    assert_eq!(f.as_str_lossy(), "<func>");
}

#[test]
fn value_kinds_and_truthiness() {
    assert_eq!(Value::from(1i64).kind_name(), "number");
    assert_eq!(Value::from("s".to_string()).kind_name(), "string");
    assert_eq!(Value::from(false).kind_name(), "bool");
    let list = Value::List(Rc::new(vec![]));
    assert_eq!(list.kind_name(), "list");
    assert_eq!(list.coerce_bool(), Some(false));
    let dict = Value::Dict(Rc::new(vec![("a".to_string(), Value::from(1i64))]));
    assert_eq!(dict.kind_name(), "dict");
    assert_eq!(dict.coerce_bool(), Some(true));
    let f = Value::Func(FuncVal::Native("f".to_string()));
    assert_eq!(f.kind_name(), "func");
    assert_eq!(f.coerce_bool(), None);
}

#[test]
fn deep_equality_semantics() {
    // numeric equality crosses the int/float divide
    let three = Value::from(3i64);
    let three_f = Value::Primitive(Primitive::Float((3.0f64).to_bits()));
    assert!(value_eq(&three, &three_f));
    assert!(value_eq(&three_f, &three));
    // containers compare deeply
    let l1 = Value::List(Rc::new(vec![Value::from(1i64), Value::from(2i64)]));
    let l2 = Value::List(Rc::new(vec![Value::from(1i64), Value::from(2i64)]));
    let l3 = Value::List(Rc::new(vec![Value::from(1i64)]));
    assert!(value_eq(&l1, &l2));
    assert!(!value_eq(&l1, &l3));
    // a function value equals nothing, not even itself
    let f = Value::Func(FuncVal::Native("add".to_string()));
    assert!(!value_eq(&f, &f));
    // mismatched kinds are simply unequal under deep equality
    assert!(!value_eq(&l1, &three));
}

#[test]
fn error_messages_carry_context() {
    assert_eq!(Error::DivideByZero.message(), "divide by zero");
    assert_eq!(Error::NotCallable.message(), "variable is not callable");
    assert_eq!(
        Error::ResolveFailed("who".to_string()).message(),
        "unable to resolve variable: \"who\""
    );
    assert_eq!(
        Error::IndexOutOfBounds { index: -4, len: 3 }.message(),
        "index out of bounds: -4 (len: 3)"
    );
    assert_eq!(
        Error::UnknownMember { kind_name: "list".to_string(), member: "toUpper".to_string() }
            .message(),
        "unknown member 'toUpper' for type list"
    );
    assert_eq!(Error::NoSuchKey("z".to_string()).message(), "no such key: z");
}

#[test]
fn fallible_conversions_back_to_native_kinds() {
    assert_eq!(Value::from(7i64).to_int().unwrap(), 7);
    assert_eq!(
        Value::Primitive(Primitive::Float((2.5f64).to_bits())).to_float_bits().unwrap(),
        (2.5f64).to_bits()
    );
    assert_eq!(Value::from(true).to_bool().unwrap(), true);
    assert_eq!(Value::from("hi".to_string()).to_str().unwrap(), "hi");
    match Value::from(true).to_int() {
        Err(Error::TypeMismatch(m)) => assert_eq!(m, "expected int"),
        other => panic!("expected TypeMismatch, got {:?}", other),
    }
    match Value::from(1i64).to_str() {
        Err(Error::TypeMismatch(m)) => assert_eq!(m, "expected string"),
        other => panic!("expected TypeMismatch, got {:?}", other),
    }
}
