use simple_expressions::errors::Error;
use simple_expressions::expression::{BinaryOp, Expr};
use simple_expressions::parser::{parse_expression, parse_in_braces, unescape_string};
use simple_expressions::value::Primitive;

#[test]
fn test_interpolated_expr() {
    let input = "123}x";
    let (expr, idx) = parse_in_braces(input).unwrap();
    assert_eq!(expr, Expr::Literal(Primitive::Int(123)));
    assert_eq!(idx, 4);
}

#[test]
fn parse_integer_literals() {
    assert_eq!(parse_expression("0").unwrap(), Expr::Literal(Primitive::Int(0)));
    assert_eq!(parse_expression("42").unwrap(), Expr::Literal(Primitive::Int(42)));
    assert_eq!(parse_expression("-7").unwrap(), Expr::Literal(Primitive::Int(-7)));
    assert_eq!(
        parse_expression("9223372036854775807").unwrap(),
        Expr::Literal(Primitive::Int(i64::MAX))
    );
    assert_eq!(
        parse_expression("-9223372036854775808").unwrap(),
        Expr::Literal(Primitive::Int(i64::MIN))
    );
    match parse_expression("9223372036854775808") {
        Err(Error::ParseFailed(m, _)) => assert_eq!(m, "invalid int"),
        other => panic!("expected ParseFailed, got {:?}", other),
    }
}

#[test]
fn parse_float_literals() {
    assert_eq!(
        parse_expression("2.5").unwrap(),
        Expr::Literal(Primitive::Float((2.5f64).to_bits()))
    );
    assert_eq!(
        parse_expression("-0.125").unwrap(),
        Expr::Literal(Primitive::Float((-0.125f64).to_bits()))
    );
}

#[test]
fn parse_operator_structure() {
    // precedence: 1 + 2 * 3 groups the product under the sum
    let e = parse_expression("1 + 2 * 3").unwrap();
    match e {
        Expr::Binary { op: BinaryOp::Add, left, right } => {
            assert_eq!(*left, Expr::Literal(Primitive::Int(1)));
            match *right {
                Expr::Binary { op: BinaryOp::Mul, .. } => (),
                other => panic!("expected product on the right, got {:?}", other),
            }
        }
        other => panic!("expected sum at the top, got {:?}", other),
    }
    // left associativity: 1 - 2 - 3 groups to (1 - 2) - 3
    let e2 = parse_expression("1 - 2 - 3").unwrap();
    match e2 {
        Expr::Binary { op: BinaryOp::Sub, left, right } => {
            assert_eq!(*right, Expr::Literal(Primitive::Int(3)));
            match *left {
                Expr::Binary { op: BinaryOp::Sub, .. } => (),
                other => panic!("expected nested difference, got {:?}", other),
            }
        }
        other => panic!("expected difference at the top, got {:?}", other),
    }
    // right associativity: 2 ^ 3 ^ 4 groups to 2 ^ (3 ^ 4)
    let e3 = parse_expression("2 ^ 3 ^ 4").unwrap();
    match e3 {
        Expr::Binary { op: BinaryOp::Pow, left, right } => {
            assert_eq!(*left, Expr::Literal(Primitive::Int(2)));
            match *right {
                Expr::Binary { op: BinaryOp::Pow, .. } => (),
                other => panic!("expected nested power, got {:?}", other),
            }
        }
        other => panic!("expected power at the top, got {:?}", other),
    }
}

#[test]
fn parse_comments_and_whitespace() {
    assert_eq!(
        parse_expression("  // a comment\n 5 ").unwrap(),
        Expr::Literal(Primitive::Int(5))
    );
}

#[test]
fn parse_postfix_chain() {
    let e = parse_expression("a.b(1)[0].c").unwrap();
    match e {
        Expr::Member { field, .. } => assert_eq!(field, "c"),
        other => panic!("expected member at the top, got {:?}", other),
    }
}

#[test]
fn parse_errors_carry_snippets() {
    match parse_expression("1 + ") {
        Err(Error::ParseFailed(m, _)) => assert_eq!(m, "expected expression"),
        other => panic!("expected ParseFailed, got {:?}", other),
    }
    match parse_expression("'open") {
        Err(Error::ParseFailed(m, _)) => assert_eq!(m, "unterminated string literal"),
        other => panic!("expected ParseFailed, got {:?}", other),
    }
    match parse_expression("1 2") {
        Err(Error::ParseFailed(m, _)) => assert_eq!(m, "unexpected trailing text"),
        other => panic!("expected ParseFailed, got {:?}", other),
    }
}

#[test]
fn unescape_string_resolves_escapes() {
    assert_eq!(unescape_string("'ab'").unwrap(), "ab");
    assert_eq!(unescape_string("'a\\nb'").unwrap(), "a\nb");
    assert_eq!(unescape_string("'a\\tb'").unwrap(), "a\tb");
    assert_eq!(unescape_string("'a\\rb'").unwrap(), "a\rb");
    assert_eq!(unescape_string("\"a\\\"b\"").unwrap(), "a\"b");
    assert_eq!(unescape_string("'a\\'b'").unwrap(), "a'b");
    assert_eq!(unescape_string("'a\\\\b'").unwrap(), "a\\b");
    match unescape_string("'a\\qb'") {
        Err(Error::ParseFailed(m, s)) => {
            assert_eq!(m, "invalid escape character");
            assert_eq!(s, "q");
        }
        other => panic!("expected ParseFailed, got {:?}", other),
    }
}

#[test]
fn parse_string_escapes_through_evaluation() {
    assert_eq!(
        parse_expression("'a\\nb'").unwrap(),
        Expr::Literal(Primitive::Str("a\nb".to_string()))
    );
    assert_eq!(
        parse_expression("\"quote \\\" inside\"").unwrap(),
        Expr::Literal(Primitive::Str("quote \" inside".to_string()))
    );
}

#[test]
fn parse_list_and_dict_literals() {
    assert_eq!(
        parse_expression("[1, 2,]").unwrap(),
        Expr::ListLiteral(vec![
            Expr::Literal(Primitive::Int(1)),
            Expr::Literal(Primitive::Int(2)),
        ])
    );
    match parse_expression("{'a': 1,}").unwrap() {
        Expr::DictLiteral(pairs) => assert_eq!(pairs.len(), 1),
        other => panic!("expected dict literal, got {:?}", other),
    }
}
