use simple_expressions::errors::Error;
use simple_expressions::evaluator::{Evaluator, VariableResolver};
use simple_expressions::parser::parse_expression as parse;
use simple_expressions::value::{FuncVal, Primitive, Value};

struct MockResolver;

impl MockResolver {
    fn new() -> Self {
        Self
    }
}

impl VariableResolver for MockResolver {
    fn spec_resolve(&self, _name: vstd::prelude::Seq<char>) -> Option<simple_expressions::value::ValueV> {
        None
    }

    fn resolve(&self, key: &str) -> Option<Value> {
        if key == "x" {
            return Some(Value::from(10i64));
        }
        if key == "truth" {
            return Some(Value::from(true));
        }
        if key == "math.add" || key == "add" {
            return Some(Value::Func(FuncVal::Native("add".to_string())));
        }
        None
    }

    fn call_function(&self, name: &str, args: &Vec<Value>) -> Result<Value, Error> {
        if name == "add" {
            if args.len() != 2 {
                return Err(Error::EvaluationFailed("need 2 args".to_string()));
            }
            let a = args[0]
                .to_float_lossy()
                .ok_or(Error::TypeMismatch("number".to_string()))?;
            let b = args[1]
                .to_float_lossy()
                .ok_or(Error::TypeMismatch("number".to_string()))?;
            let sum = f64::from_bits(a) + f64::from_bits(b);
            return Ok(Value::Primitive(Primitive::Float(sum.to_bits())));
        }
        Err(Error::NotCallable)
    }
}

#[test]
fn eval_basic_expressions() {
    let ev = Evaluator::new(MockResolver::new());
    assert_eq!(ev.evaluate(&parse("1").unwrap()).unwrap(), Value::from(1i64));
    assert_eq!(ev.evaluate(&parse("1").unwrap()).unwrap().as_str_lossy(), "1");
    assert_eq!(ev.evaluate(&parse("true").unwrap()).unwrap(), Value::from(true));
    assert_eq!(ev.evaluate(&parse("true || false").unwrap()).unwrap(), Value::from(true));
    assert_eq!(ev.evaluate(&parse("true && false").unwrap()).unwrap(), Value::from(false));
}

#[test]
fn eval_literals_and_ops() {
    let ev = Evaluator::new(MockResolver::new());
    assert_eq!(ev.evaluate(&parse("1 + 2 * 3").unwrap()).unwrap(), Value::from(7i64));
    assert_eq!(ev.evaluate(&parse("true && !false").unwrap()).unwrap(), Value::from(true));
    match ev.evaluate(&parse("1/0").unwrap()) {
        Err(Error::DivideByZero) => (),
        other => panic!("expected div by zero, got {:?}", other),
    }
}

#[test]
fn eval_paths_and_calls() {
    let ev = Evaluator::new(MockResolver::new());
    assert_eq!(ev.evaluate(&parse("x").unwrap()).unwrap(), Value::from(10i64));
    assert_eq!(ev.evaluate(&parse("truth || false").unwrap()).unwrap(), Value::from(true));
    let v = ev.evaluate(&parse("add(2, 3)").unwrap()).unwrap();
    match v {
        Value::Primitive(Primitive::Float(bits)) => {
            assert!((f64::from_bits(bits) - 5.0).abs() < 1e-9)
        }
        _ => panic!("expected float"),
    }
}

#[test]
fn eval_interpolated_strings() {
    let ev = Evaluator::new(MockResolver::new());

    // sanity: the brace-terminated entry point works on simple input
    assert!(simple_expressions::parser::parse_in_braces("1 + 2}").is_ok());
    // simple literal with expression
    let src = "Hello ${1 + 2}";
    let idx = src.find("${").unwrap();
    let after = &src[idx + 2..];
    assert_eq!(after, "1 + 2}");
    assert!(simple_expressions::parser::parse_in_braces(after).is_ok());
    let s = ev.evaluate_interpolated(src).unwrap();
    assert_eq!(s, "Hello 3");

    // variable path
    let s2 = ev.evaluate_interpolated("x is ${x}").unwrap();
    assert_eq!(s2, "x is 10");

    // multiple interpolations
    let s3 = ev.evaluate_interpolated("${'A'}-${add(2,3)}-${truth}").unwrap();
    assert_eq!(s3, "A-5-true");

    // ensure braces inside strings are handled
    let s4 = ev.evaluate_interpolated("${'curly } brace'} done").unwrap();
    assert_eq!(s4, "curly } brace done");

    // missing closing brace should error
    match ev.evaluate_interpolated("bad ${1+2") {
        Err(Error::ParseFailed(_, _)) => (),
        other => panic!("expected parse error, got {:?}", other),
    }
}

#[test]
fn eval_lists_and_indexing() {
    let ev = Evaluator::new(MockResolver::new());
    // [10, 20, 30][1] => 20
    assert_eq!(ev.evaluate(&parse("[10, 20, 30][1]").unwrap()).unwrap(), Value::from(20i64));
    // [10][1] => IndexOutOfBounds
    match ev.evaluate(&parse("[10][1]").unwrap()) {
        Err(Error::IndexOutOfBounds { index, len }) => {
            assert_eq!(index, 1);
            assert_eq!(len, 1);
        }
        other => panic!("expected IndexOutOfBounds, got {:?}", other),
    }
    // [10]["0"] => NotIndexable
    match ev.evaluate(&parse("[10][\"0\"]").unwrap()) {
        Err(Error::NotIndexable(idx)) => assert_eq!(idx, "0"),
        other => panic!("expected NotIndexable(0), got {:?}", other),
    }
    // negative indices
    assert_eq!(ev.evaluate(&parse("[10, 20, 30][-1]").unwrap()).unwrap(), Value::from(30i64));
    assert_eq!(ev.evaluate(&parse("[10, 20, 30][-3]").unwrap()).unwrap(), Value::from(10i64));
    match ev.evaluate(&parse("[10, 20, 30][-4]").unwrap()) {
        Err(Error::IndexOutOfBounds { index, len }) => {
            assert_eq!(index, -4);
            assert_eq!(len, 3);
        }
        other => panic!("expected IndexOutOfBounds, got {:?}", other),
    }
}

#[test]
fn eval_dict_and_member() {
    let ev = Evaluator::new(MockResolver::new());
    // Dict via [key]
    assert_eq!(
        ev.evaluate(&parse("{\"a\": 1, \"b\": 2}[\"b\"]").unwrap()).unwrap(),
        Value::from(2i64)
    );
    match ev.evaluate(&parse("{\"a\": 1}[\"z\"]").unwrap()) {
        Err(Error::NoSuchKey(k)) => assert_eq!(k, "z"),
        other => panic!("expected NoSuchKey, got {:?}", other),
    }
    match ev.evaluate(&parse("{\"a\": 1}[0]").unwrap()) {
        Err(Error::WrongIndexType { target, .. }) => assert_eq!(target, "dict"),
        other => panic!("expected WrongIndexType(dict), got {:?}", other),
    }
    // Members: properties and methods
    // string.length property
    assert_eq!(ev.evaluate(&parse("'abc'.length").unwrap()).unwrap(), Value::from(3i64));
    // string methods
    assert_eq!(ev.evaluate(&parse("'ab'.toUpper()").unwrap()).unwrap().as_str_lossy(), "AB");
    assert_eq!(ev.evaluate(&parse("' Ab '.trim().length").unwrap()).unwrap(), Value::from(2i64));
    // list.length property
    assert_eq!(ev.evaluate(&parse("[1,2,3].length").unwrap()).unwrap(), Value::from(3i64));
    // dict.length property and keys()/values()
    assert_eq!(
        ev.evaluate(&parse("{\"a\":1, \"b\":2}.length").unwrap()).unwrap(),
        Value::from(2i64)
    );
    assert_eq!(
        ev.evaluate(&parse("{\"a\":1}.keys().length").unwrap()).unwrap(),
        Value::from(1i64)
    );
    // errors: dict dot key is unknown member now
    match ev.evaluate(&parse("{\"a\": 1}.a").unwrap()) {
        Err(Error::UnknownMember { member, .. }) => assert_eq!(member, "a"),
        other => panic!("expected UnknownMember, got {:?}", other),
    }
    // errors: unknown member on list
    match ev.evaluate(&parse("[1].toUpper").unwrap()) {
        Err(Error::UnknownMember { member, .. }) => assert_eq!(member, "toUpper"),
        other => panic!("expected UnknownMember, got {:?}", other),
    }
    // calling non-call property is NotCallable
    match ev.evaluate(&parse("'abc'.length()").unwrap()) {
        Err(Error::NotCallable) => (),
        other => panic!("expected NotCallable, got {:?}", other),
    }
    // Nested
    assert_eq!(
        ev.evaluate(&parse("{\"xs\": [10, 20]}[\"xs\"][1]").unwrap()).unwrap(),
        Value::from(20i64)
    );

    // Computed dict key in literal and runtime enforcement of key type
    assert_eq!(
        ev.evaluate(&parse("{\"a\" + \"b\": 1}[\"ab\"]").unwrap()).unwrap(),
        Value::from(1i64)
    );
    match ev.evaluate(&parse("{1: 2}").unwrap()) {
        Err(Error::TypeMismatch(msg)) => assert_eq!(msg, "dict key must be a string"),
        other => panic!("expected TypeMismatch for dict key, got {:?}", other),
    }
}

#[test]
fn eval_truthiness_lists_dicts() {
    let ev = Evaluator::new(MockResolver::new());
    assert_eq!(ev.evaluate(&parse("![]").unwrap()).unwrap(), Value::from(true));
    assert_eq!(ev.evaluate(&parse("!![]").unwrap()).unwrap(), Value::from(false));
    assert_eq!(ev.evaluate(&parse("![1]").unwrap()).unwrap(), Value::from(false));
    assert_eq!(ev.evaluate(&parse("!![1]").unwrap()).unwrap(), Value::from(true));
    assert_eq!(ev.evaluate(&parse("!{}").unwrap()).unwrap(), Value::from(true));
    assert_eq!(ev.evaluate(&parse("!!{\"a\":1}").unwrap()).unwrap(), Value::from(true));
}

#[test]
fn eval_precedence_and_grouping() {
    let ev = Evaluator::new(MockResolver::new());
    assert_eq!(ev.evaluate(&parse("1 + 2 * 3").unwrap()).unwrap(), Value::from(7i64));
    assert_eq!(ev.evaluate(&parse("(1 + 2) * 3").unwrap()).unwrap(), Value::from(9i64));
}

#[test]
fn eval_short_circuit_skips_division() {
    let ev = Evaluator::new(MockResolver::new());
    // the right side would raise DivideByZero if it were evaluated
    assert_eq!(
        ev.evaluate(&parse("false && (1/0 == 0)").unwrap()).unwrap(),
        Value::from(false)
    );
    assert_eq!(
        ev.evaluate(&parse("true || (1/0 == 0)").unwrap()).unwrap(),
        Value::from(true)
    );
}

#[test]
fn eval_same_expr_twice_is_identical() {
    let ev = Evaluator::new(MockResolver::new());
    let expr = parse("{\"k\": [1, 2 + x]}[\"k\"][-1]").unwrap();
    let first = ev.evaluate(&expr).unwrap();
    let second = ev.evaluate(&expr).unwrap();
    assert_eq!(first, second);
    assert_eq!(first, Value::from(12i64));
}

#[test]
fn eval_divide_and_modulo_by_zero_always_error() {
    let ev = Evaluator::new(MockResolver::new());
    for src in ["1/0", "0/0", "1.5/0", "7 % 0", "7.5 % 0", "1 / (2 - 2)"] {
        match ev.evaluate(&parse(src).unwrap()) {
            Err(Error::DivideByZero) => (),
            other => panic!("expected DivideByZero for {}, got {:?}", src, other),
        }
    }
}

#[test]
fn eval_float_arithmetic_and_literals() {
    let ev = Evaluator::new(MockResolver::new());
    // a literal with a decimal point evaluates to a float
    match ev.evaluate(&parse("2.5").unwrap()).unwrap() {
        Value::Primitive(Primitive::Float(bits)) => assert_eq!(f64::from_bits(bits), 2.5),
        other => panic!("expected float, got {:?}", other),
    }
    // division always yields a float
    match ev.evaluate(&parse("7/2").unwrap()).unwrap() {
        Value::Primitive(Primitive::Float(bits)) => assert_eq!(f64::from_bits(bits), 3.5),
        other => panic!("expected float, got {:?}", other),
    }
    // mixed arithmetic promotes to float
    match ev.evaluate(&parse("1.5 + 1").unwrap()).unwrap() {
        Value::Primitive(Primitive::Float(bits)) => assert_eq!(f64::from_bits(bits), 2.5),
        other => panic!("expected float, got {:?}", other),
    }
    // numeric comparison crosses the int/float divide
    assert_eq!(ev.evaluate(&parse("1.5 < 2").unwrap()).unwrap(), Value::from(true));
    assert_eq!(ev.evaluate(&parse("2 <= 1.5").unwrap()).unwrap(), Value::from(false));
    assert_eq!(ev.evaluate(&parse("1.0 == 1").unwrap()).unwrap(), Value::from(true));
}

#[test]
fn eval_string_members_and_substring() {
    let ev = Evaluator::new(MockResolver::new());
    assert_eq!(ev.evaluate(&parse("'ab'.toUpper()").unwrap()).unwrap().as_str_lossy(), "AB");
    assert_eq!(ev.evaluate(&parse("'AB'.toLower()").unwrap()).unwrap().as_str_lossy(), "ab");
    assert_eq!(ev.evaluate(&parse("' Ab '.trim()").unwrap()).unwrap().as_str_lossy(), "Ab");
    assert_eq!(
        ev.evaluate(&parse("'hello'.contains('ell')").unwrap()).unwrap(),
        Value::from(true)
    );
    assert_eq!(
        ev.evaluate(&parse("'hello'.contains('xyz')").unwrap()).unwrap(),
        Value::from(false)
    );
    assert_eq!(
        ev.evaluate(&parse("'hello'.substring(1, 3)").unwrap()).unwrap().as_str_lossy(),
        "el"
    );
    assert_eq!(
        ev.evaluate(&parse("'hello'.substring(-3)").unwrap()).unwrap().as_str_lossy(),
        "llo"
    );
    assert_eq!(
        ev.evaluate(&parse("'hello'.substring(4, 2)").unwrap()).unwrap().as_str_lossy(),
        ""
    );
    assert_eq!(
        ev.evaluate(&parse("'hello'.substring(0, 99)").unwrap()).unwrap().as_str_lossy(),
        "hello"
    );
}

#[test]
fn eval_list_and_dict_methods() {
    let ev = Evaluator::new(MockResolver::new());
    assert_eq!(
        ev.evaluate(&parse("[1, 2, 3].contains(2)").unwrap()).unwrap(),
        Value::from(true)
    );
    assert_eq!(
        ev.evaluate(&parse("[1, 2, 3].contains(9)").unwrap()).unwrap(),
        Value::from(false)
    );
    assert_eq!(ev.evaluate(&parse("[1, 2].get(5, 0)").unwrap()).unwrap(), Value::from(0i64));
    assert_eq!(ev.evaluate(&parse("[1, 2].get(-1, 0)").unwrap()).unwrap(), Value::from(2i64));
    assert_eq!(
        ev.evaluate(&parse("['a', 'b'].join('-')").unwrap()).unwrap().as_str_lossy(),
        "a-b"
    );
    assert_eq!(
        ev.evaluate(&parse("{\"a\":1}.contains('a')").unwrap()).unwrap(),
        Value::from(true)
    );
    assert_eq!(
        ev.evaluate(&parse("{\"a\":1}.contains('z')").unwrap()).unwrap(),
        Value::from(false)
    );
    assert_eq!(
        ev.evaluate(&parse("{\"a\":1}.get('a', 0)").unwrap()).unwrap(),
        Value::from(1i64)
    );
    assert_eq!(
        ev.evaluate(&parse("{\"a\":1}.get('z', 0)").unwrap()).unwrap(),
        Value::from(0i64)
    );
    assert_eq!(
        ev.evaluate(&parse("{\"b\":2, \"a\":1}.keys().join(',')").unwrap()).unwrap().as_str_lossy(),
        "a,b"
    );
    assert_eq!(
        ev.evaluate(&parse("{\"b\":2, \"a\":1}.values().join(',')").unwrap())
            .unwrap()
            .as_str_lossy(),
        "1,2"
    );
}

#[test]
fn eval_string_comparison_and_concat() {
    let ev = Evaluator::new(MockResolver::new());
    assert_eq!(ev.evaluate(&parse("'a' < 'b'").unwrap()).unwrap(), Value::from(true));
    assert_eq!(ev.evaluate(&parse("'b' <= 'a'").unwrap()).unwrap(), Value::from(false));
    assert_eq!(ev.evaluate(&parse("'ab' >= 'ab'").unwrap()).unwrap(), Value::from(true));
    assert_eq!(
        ev.evaluate(&parse("'foo' + 'bar'").unwrap()).unwrap().as_str_lossy(),
        "foobar"
    );
    match ev.evaluate(&parse("'a' < 1").unwrap()) {
        Err(Error::TypeMismatch(_)) => (),
        other => panic!("expected TypeMismatch, got {:?}", other),
    }
}

#[test]
fn eval_error_variants() {
    let ev = Evaluator::new(MockResolver::new());
    match ev.evaluate(&parse("nope").unwrap()) {
        Err(Error::ResolveFailed(n)) => assert_eq!(n, "nope"),
        other => panic!("expected ResolveFailed, got {:?}", other),
    }
    match ev.evaluate(&parse("1[0]").unwrap()) {
        Err(Error::NotIndexable(t)) => assert_eq!(t, "number"),
        other => panic!("expected NotIndexable, got {:?}", other),
    }
    match ev.evaluate(&parse("1 + true").unwrap()) {
        Err(Error::TypeMismatch(_)) => (),
        other => panic!("expected TypeMismatch, got {:?}", other),
    }
    match ev.evaluate(&parse("'ab'.toUpper(1)").unwrap()) {
        Err(Error::EvaluationFailed(m)) => assert_eq!(m, "expected 0 args"),
        other => panic!("expected EvaluationFailed, got {:?}", other),
    }
    match ev.evaluate(&parse("2 ^ 3").unwrap()) {
        Err(Error::Unsupported(_)) => (),
        other => panic!("expected Unsupported, got {:?}", other),
    }
}

#[test]
fn eval_string_entry_point_wraps_errors() {
    let ev = Evaluator::new(MockResolver::new());
    assert_eq!(ev.evaluate_string("2 + 3").unwrap(), Value::from(5i64));
    match ev.evaluate_string("1/0") {
        Err(Error::EvaluationFailed(m)) => assert_eq!(m, "evaluation error: divide by zero"),
        other => panic!("expected wrapped EvaluationFailed, got {:?}", other),
    }
    match ev.evaluate_string("1 +") {
        Err(Error::ParseFailed(_, _)) => (),
        other => panic!("expected ParseFailed, got {:?}", other),
    }
}

#[test]
fn map_resolver_binds_and_shadows() {
    let mut resolver = simple_expressions::evaluator::MapResolver::new();
    resolver.set("x".to_string(), Value::from(1i64));
    resolver.set("y".to_string(), Value::from(2i64));
    resolver.set("x".to_string(), Value::from(10i64));
    let ev = Evaluator::new(resolver);
    assert_eq!(ev.evaluate(&parse("x + y").unwrap()).unwrap(), Value::from(12i64));
    match ev.evaluate(&parse("z").unwrap()) {
        Err(Error::ResolveFailed(n)) => assert_eq!(n, "z"),
        other => panic!("expected ResolveFailed, got {:?}", other),
    }
    match ev.evaluate(&parse("x(1)").unwrap()) {
        Err(Error::NotCallable) => (),
        other => panic!("expected NotCallable, got {:?}", other),
    }
}
