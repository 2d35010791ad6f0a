//! The tree-walking evaluator and the `${...}` interpolation scanner.
//!
//! The model function [`eval_spec`] pins the result of evaluating an
//! expression against a resolver exactly, except where a host native is
//! invoked or a power is computed: there the model leaves the outcome
//! open, and the engine only promises to hand back whatever came.
use vstd::prelude::*;

use std::rc::Rc;

use crate::errors::{spec_error_message, Error, ErrorV};
use crate::expression::{view_expr_pairs, view_exprs, BinaryOp, Expr, ExprV};
use crate::floats::{
    float_add, float_div, float_is_zero, float_le, float_lt, float_mul, float_rem, float_sub,
    spec_float_add, spec_float_div, spec_float_is_zero, spec_float_le, spec_float_lt,
    spec_float_mul, spec_float_rem, spec_float_sub,
};
use crate::members::{
    apply_dict_fn, apply_list_fn, apply_str_fn, dict_insert, dict_lookup, list_index,
    spec_apply_func, spec_dict_insert, spec_dict_lookup, spec_get_member, spec_list_index,
};
use crate::parser::{parse_expression, parse_in_braces, spec_parse_expression,
    spec_parse_in_braces, ParseOut};
use crate::text::{spec_str_lt, str_eq, str_lt};
use crate::value::{
    conforms, duplicate, duplicate_prim, lemma_view_pairs, lemma_view_values_push, prim_eq,
    spec_coerce_bool, spec_kind_name, spec_prim_eq, spec_prims_comparable, spec_to_float,
    spec_value_eq, spec_value_str, value_eq, view_pairs, view_values, FuncVal, Outcome,
    Primitive, PrimitiveV, Value, ValueV,
};

verus! {

/// The host's lookup from a free identifier to a value, together with the
/// natives it exposes as named function values.
///
/// A host implements this trait; the engine takes its word for `resolve`
/// agreeing with `spec_resolve`, and promises nothing about what
/// `call_function` computes.
pub trait VariableResolver: Sized {
    /// The mathematical model of the lookup.
    spec fn spec_resolve(&self, name: Seq<char>) -> Option<ValueV>;

    /// The value bound to `name`, if any.
    fn resolve(&self, name: &str) -> (r: Option<Value>)
        ensures
            match r {
                Some(v) => self.spec_resolve(name@) == Some(v@),
                None => self.spec_resolve(name@) is None,
            },
    ;

    /// A native function applied to evaluated arguments.  The engine makes
    /// no promise about the result: natives may fail, and may depend on
    /// state of the host's own.
    fn call_function(&self, name: &str, args: &Vec<Value>) -> Result<Value, Error>;
}

/// What evaluating an argument list produces.
pub enum ArgsOutcome {
    Vals(Seq<ValueV>),
    Fail(ErrorV),
    Unknown,
}

/// An integer wrapped into the `i64` range, as wrapping arithmetic does;
/// one wrap covers every sum or difference of two `i64` values.
pub open spec fn spec_wrap_i64(v: int) -> int {
    if v > i64::MAX {
        v - 0x1_0000_0000_0000_0000
    } else if v < i64::MIN {
        v + 0x1_0000_0000_0000_0000
    } else {
        v
    }
}

/// The truncated (sign-of-dividend) remainder of two integers, as `%`
/// computes it on machine integers.
pub open spec fn spec_trunc_rem(x: int, d: int) -> int {
    if x == 0 {
        0
    } else if x > 0 && d > 0 {
        x % d
    } else if x < 0 && d < 0 {
        ((x * -1) % (d * -1)) * -1
    } else if x < 0 {
        ((x * -1) % d) * -1
    } else {
        x % (d * -1)
    }
}

/// A binary operator applied to two evaluated operands.  `||` and `&&`
/// never reach this point: they short-circuit during evaluation.  A power
/// of two numbers is left open, as no exact result is promised for it.
pub open spec fn spec_apply_binary(op: BinaryOp, a: ValueV, b: ValueV) -> Outcome {
    match op {
        BinaryOp::Or => Outcome::Unknown,
        BinaryOp::And => Outcome::Unknown,
        BinaryOp::Eq => spec_eq_outcome(a, b, false),
        BinaryOp::Ne => spec_eq_outcome(a, b, true),
        BinaryOp::Lt => spec_cmp_outcome(a, b, BinaryOp::Lt),
        BinaryOp::Le => spec_cmp_outcome(a, b, BinaryOp::Le),
        BinaryOp::Gt => spec_cmp_outcome(a, b, BinaryOp::Gt),
        BinaryOp::Ge => spec_cmp_outcome(a, b, BinaryOp::Ge),
        BinaryOp::Add => spec_add_outcome(a, b),
        BinaryOp::Sub => match (a, b) {
            (
                ValueV::Primitive(PrimitiveV::Int(x)),
                ValueV::Primitive(PrimitiveV::Int(y)),
            ) => Outcome::Val(ValueV::Primitive(PrimitiveV::Int(spec_wrap_i64(x + y * -1)))),
            _ => match (spec_to_float(a), spec_to_float(b)) {
                (Some(x), Some(y)) => Outcome::Val(
                    ValueV::Primitive(PrimitiveV::Float(spec_float_sub(x, y))),
                ),
                _ => Outcome::Fail(ErrorV::TypeMismatch("arithmetic expects numbers"@)),
            },
        },
        BinaryOp::Mul => match (a, b) {
            (
                ValueV::Primitive(PrimitiveV::Int(x)),
                ValueV::Primitive(PrimitiveV::Int(y)),
            ) => if i64::MIN <= x <= i64::MAX && i64::MIN <= y <= i64::MAX {
                Outcome::Val(
                    ValueV::Primitive(
                        PrimitiveV::Int(
                            vstd::wrapping::i64_specs::wrapping_mul(x as i64, y as i64) as int,
                        ),
                    ),
                )
            } else {
                Outcome::Unknown
            },
            _ => match (spec_to_float(a), spec_to_float(b)) {
                (Some(x), Some(y)) => Outcome::Val(
                    ValueV::Primitive(PrimitiveV::Float(spec_float_mul(x, y))),
                ),
                _ => Outcome::Fail(ErrorV::TypeMismatch("arithmetic expects numbers"@)),
            },
        },
        BinaryOp::Div => match (spec_to_float(a), spec_to_float(b)) {
            (Some(x), Some(y)) => if spec_float_is_zero(y) {
                Outcome::Fail(ErrorV::DivideByZero)
            } else {
                Outcome::Val(ValueV::Primitive(PrimitiveV::Float(spec_float_div(x, y))))
            },
            _ => Outcome::Fail(ErrorV::TypeMismatch("arithmetic expects numbers"@)),
        },
        BinaryOp::Mod => match (a, b) {
            (
                ValueV::Primitive(PrimitiveV::Int(x)),
                ValueV::Primitive(PrimitiveV::Int(y)),
            ) => if y == 0 {
                Outcome::Fail(ErrorV::DivideByZero)
            } else if x == i64::MIN && y == -1 {
                Outcome::Val(ValueV::Primitive(PrimitiveV::Int(0)))
            } else {
                Outcome::Val(ValueV::Primitive(PrimitiveV::Int(spec_trunc_rem(x, y))))
            },
            _ => match (spec_to_float(a), spec_to_float(b)) {
                (Some(x), Some(y)) => if spec_float_is_zero(y) {
                    Outcome::Fail(ErrorV::DivideByZero)
                } else {
                    Outcome::Val(ValueV::Primitive(PrimitiveV::Float(spec_float_rem(x, y))))
                },
                _ => Outcome::Fail(ErrorV::TypeMismatch("arithmetic expects numbers"@)),
            },
        },
        BinaryOp::Pow => match (spec_to_float(a), spec_to_float(b)) {
            (Some(_), Some(_)) => Outcome::Unknown,
            _ => Outcome::Fail(ErrorV::TypeMismatch("arithmetic expects numbers"@)),
        },
    }
}

/// Equality of two evaluated operands: primitives of incomparable kinds
/// refuse, every other pairing compares deeply and never fails.
pub open spec fn spec_eq_outcome(a: ValueV, b: ValueV, negate: bool) -> Outcome {
    match (a, b) {
        (ValueV::Primitive(x), ValueV::Primitive(y)) => if spec_prims_comparable(x, y) {
            Outcome::Val(
                ValueV::Primitive(PrimitiveV::Bool(spec_prim_eq(x, y) != negate)),
            )
        } else {
            Outcome::Fail(ErrorV::TypeMismatch("'==' expects comparable operands"@))
        },
        _ => Outcome::Val(ValueV::Primitive(PrimitiveV::Bool(spec_value_eq(a, b) != negate))),
    }
}

/// Ordering of two evaluated operands: both numeric (compared as floats)
/// or both strings (compared lexicographically).
pub open spec fn spec_cmp_outcome(a: ValueV, b: ValueV, op: BinaryOp) -> Outcome {
    match (spec_to_float(a), spec_to_float(b)) {
        (Some(x), Some(y)) => Outcome::Val(
            ValueV::Primitive(
                PrimitiveV::Bool(
                    match op {
                        BinaryOp::Lt => spec_float_lt(x, y),
                        BinaryOp::Le => spec_float_le(x, y),
                        BinaryOp::Gt => spec_float_lt(y, x),
                        _ => spec_float_le(y, x),
                    },
                ),
            ),
        ),
        _ => match (a, b) {
            (
                ValueV::Primitive(PrimitiveV::Str(x)),
                ValueV::Primitive(PrimitiveV::Str(y)),
            ) => Outcome::Val(
                ValueV::Primitive(
                    PrimitiveV::Bool(
                        match op {
                            BinaryOp::Lt => spec_str_lt(x, y),
                            BinaryOp::Le => !spec_str_lt(y, x),
                            BinaryOp::Gt => spec_str_lt(y, x),
                            _ => !spec_str_lt(x, y),
                        },
                    ),
                ),
            ),
            _ => Outcome::Fail(
                ErrorV::TypeMismatch("comparison requires two numbers or two strings"@),
            ),
        },
    }
}

/// Addition: ints stay ints, numbers add as floats, strings concatenate.
pub open spec fn spec_add_outcome(a: ValueV, b: ValueV) -> Outcome {
    match (a, b) {
        (ValueV::Primitive(PrimitiveV::Int(x)), ValueV::Primitive(PrimitiveV::Int(y))) =>
            Outcome::Val(ValueV::Primitive(PrimitiveV::Int(spec_wrap_i64(x + y)))),
        _ => match (spec_to_float(a), spec_to_float(b)) {
            (Some(x), Some(y)) => Outcome::Val(
                ValueV::Primitive(PrimitiveV::Float(spec_float_add(x, y))),
            ),
            _ => match (a, b) {
                (
                    ValueV::Primitive(PrimitiveV::Str(x)),
                    ValueV::Primitive(PrimitiveV::Str(y)),
                ) => Outcome::Val(ValueV::Primitive(PrimitiveV::Str(x + y))),
                _ => Outcome::Fail(
                    ErrorV::TypeMismatch("'+' expects numbers or strings"@),
                ),
            },
        },
    }
}

/// The modeled outcome of evaluating `e` against the resolver `r`.
///
/// Every case is pinned exactly except a call of a host native and a
/// numeric power, which come out as [`Outcome::Unknown`].
pub open spec fn eval_spec<R: VariableResolver>(e: ExprV, r: &R) -> Outcome
    decreases e,
{
    match e {
        ExprV::Literal(p) => Outcome::Val(ValueV::Primitive(p)),
        ExprV::Var(name) => match r.spec_resolve(name) {
            Some(v) => Outcome::Val(v),
            None => Outcome::Fail(ErrorV::ResolveFailed(name)),
        },
        ExprV::ListLiteral(es) => match eval_args_spec(es, r, Seq::empty()) {
            ArgsOutcome::Vals(vs) => Outcome::Val(ValueV::List(vs)),
            ArgsOutcome::Fail(er) => Outcome::Fail(er),
            ArgsOutcome::Unknown => Outcome::Unknown,
        },
        ExprV::DictLiteral(pairs) => eval_pairs_spec(pairs, r, Seq::empty()),
        ExprV::Member { object, field } => match eval_spec(*object, r) {
            Outcome::Val(v) => spec_get_member(v, field),
            Outcome::Fail(er) => Outcome::Fail(er),
            Outcome::Unknown => Outcome::Unknown,
        },
        ExprV::Index { object, index } => match eval_spec(*object, r) {
            Outcome::Fail(er) => Outcome::Fail(er),
            Outcome::Unknown => Outcome::Unknown,
            Outcome::Val(ov) => match ov {
                ValueV::Dict(d) => match eval_spec(*index, r) {
                    Outcome::Fail(er) => Outcome::Fail(er),
                    Outcome::Unknown => Outcome::Unknown,
                    Outcome::Val(iv) => match iv {
                        ValueV::Primitive(PrimitiveV::Str(k)) => match spec_dict_lookup(d, k) {
                            Some(v) => Outcome::Val(v),
                            None => Outcome::Fail(ErrorV::NoSuchKey(k)),
                        },
                        _ => Outcome::Fail(
                            ErrorV::WrongIndexType {
                                target: "dict"@,
                                message: "expected string key"@,
                            },
                        ),
                    },
                },
                ValueV::List(items) => match eval_spec(*index, r) {
                    Outcome::Fail(er) => Outcome::Fail(er),
                    Outcome::Unknown => Outcome::Unknown,
                    Outcome::Val(iv) => match iv {
                        ValueV::Primitive(PrimitiveV::Int(ix)) => spec_list_index(items, ix),
                        ValueV::Primitive(PrimitiveV::Str(k)) => Outcome::Fail(
                            ErrorV::NotIndexable(k),
                        ),
                        _ => Outcome::Fail(
                            ErrorV::WrongIndexType {
                                target: "object"@,
                                message: "expected int or string index"@,
                            },
                        ),
                    },
                },
                _ => Outcome::Fail(ErrorV::NotIndexable(spec_kind_name(ov))),
            },
        },
        ExprV::Call { callee, args } => match eval_spec(*callee, r) {
            Outcome::Fail(er) => Outcome::Fail(er),
            Outcome::Unknown => Outcome::Unknown,
            Outcome::Val(cv) => match cv {
                ValueV::Func(f) => match eval_args_spec(args, r, Seq::empty()) {
                    ArgsOutcome::Vals(vs) => spec_apply_func(f, vs),
                    ArgsOutcome::Fail(er) => Outcome::Fail(er),
                    ArgsOutcome::Unknown => Outcome::Unknown,
                },
                _ => Outcome::Fail(ErrorV::NotCallable),
            },
        },
        ExprV::Unary { op: _, expr } => match eval_spec(*expr, r) {
            Outcome::Fail(er) => Outcome::Fail(er),
            Outcome::Unknown => Outcome::Unknown,
            Outcome::Val(v) => match spec_coerce_bool(v) {
                Some(b) => Outcome::Val(ValueV::Primitive(PrimitiveV::Bool(!b))),
                None => Outcome::Fail(ErrorV::TypeMismatch("'!' expects bool"@)),
            },
        },
        ExprV::Binary { op, left, right } => {
            if op == BinaryOp::Or {
                match eval_spec(*left, r) {
                    Outcome::Fail(er) => Outcome::Fail(er),
                    Outcome::Unknown => Outcome::Unknown,
                    Outcome::Val(l) => match spec_coerce_bool(l) {
                        None => Outcome::Fail(ErrorV::TypeMismatch("'||' expects bools"@)),
                        Some(true) => Outcome::Val(ValueV::Primitive(PrimitiveV::Bool(true))),
                        Some(false) => match eval_spec(*right, r) {
                            Outcome::Fail(er) => Outcome::Fail(er),
                            Outcome::Unknown => Outcome::Unknown,
                            Outcome::Val(rv) => match spec_coerce_bool(rv) {
                                None => Outcome::Fail(
                                    ErrorV::TypeMismatch("'&&' expects bools"@),
                                ),
                                Some(rb) => Outcome::Val(
                                    ValueV::Primitive(PrimitiveV::Bool(rb)),
                                ),
                            },
                        },
                    },
                }
            } else if op == BinaryOp::And {
                match eval_spec(*left, r) {
                    Outcome::Fail(er) => Outcome::Fail(er),
                    Outcome::Unknown => Outcome::Unknown,
                    Outcome::Val(l) => match spec_coerce_bool(l) {
                        None => Outcome::Fail(ErrorV::TypeMismatch("'&&' expects bools"@)),
                        Some(false) => Outcome::Val(ValueV::Primitive(PrimitiveV::Bool(false))),
                        Some(true) => match eval_spec(*right, r) {
                            Outcome::Fail(er) => Outcome::Fail(er),
                            Outcome::Unknown => Outcome::Unknown,
                            Outcome::Val(rv) => match spec_coerce_bool(rv) {
                                None => Outcome::Fail(
                                    ErrorV::TypeMismatch("'&&' expects bools"@),
                                ),
                                Some(rb) => Outcome::Val(
                                    ValueV::Primitive(PrimitiveV::Bool(rb)),
                                ),
                            },
                        },
                    },
                }
            } else {
                match eval_spec(*left, r) {
                    Outcome::Fail(er) => Outcome::Fail(er),
                    Outcome::Unknown => Outcome::Unknown,
                    Outcome::Val(l) => match eval_spec(*right, r) {
                        Outcome::Fail(er) => Outcome::Fail(er),
                        Outcome::Unknown => Outcome::Unknown,
                        Outcome::Val(rv) => spec_apply_binary(op, l, rv),
                    },
                }
            }
        },
    }
}

/// Left-to-right evaluation of an expression sequence onto `acc`.
pub open spec fn eval_args_spec<R: VariableResolver>(
    es: Seq<ExprV>,
    r: &R,
    acc: Seq<ValueV>,
) -> ArgsOutcome
    decreases es,
{
    if es.len() == 0 {
        ArgsOutcome::Vals(acc)
    } else {
        match eval_spec(es[0], r) {
            Outcome::Fail(er) => ArgsOutcome::Fail(er),
            Outcome::Unknown => ArgsOutcome::Unknown,
            Outcome::Val(v) => eval_args_spec(es.subrange(1, es.len() as int), r, acc.push(v)),
        }
    }
}

/// Left-to-right evaluation of dictionary entries onto `acc`: each key is
/// evaluated strictly before its value and must come out a string, and a
/// duplicate key overwrites the earlier binding.
pub open spec fn eval_pairs_spec<R: VariableResolver>(
    pairs: Seq<(ExprV, ExprV)>,
    r: &R,
    acc: Seq<(Seq<char>, ValueV)>,
) -> Outcome
    decreases pairs,
{
    if pairs.len() == 0 {
        Outcome::Val(ValueV::Dict(acc))
    } else {
        match eval_spec(pairs[0].0, r) {
            Outcome::Fail(er) => Outcome::Fail(er),
            Outcome::Unknown => Outcome::Unknown,
            Outcome::Val(kv) => match kv {
                ValueV::Primitive(PrimitiveV::Str(ks)) => match eval_spec(pairs[0].1, r) {
                    Outcome::Fail(er) => Outcome::Fail(er),
                    Outcome::Unknown => Outcome::Unknown,
                    Outcome::Val(vv) => eval_pairs_spec(
                        pairs.subrange(1, pairs.len() as int),
                        r,
                        spec_dict_insert(acc, ks, vv),
                    ),
                },
                _ => Outcome::Fail(ErrorV::TypeMismatch("dict key must be a string"@)),
            },
        }
    }
}

/// Whether an executable argument-list result agrees with its model.
pub open spec fn args_conforms(r: Result<Vec<Value>, Error>, o: ArgsOutcome) -> bool {
    match o {
        ArgsOutcome::Vals(vs) => match r {
            Ok(out) => view_values(out@) == vs,
            Err(_) => false,
        },
        ArgsOutcome::Fail(e) => match r {
            Ok(_) => false,
            Err(re) => re@ == e,
        },
        ArgsOutcome::Unknown => true,
    }
}

/// Whether two primitives are of comparable kinds for `==`/`!=`.
fn prims_comparable(a: &Primitive, b: &Primitive) -> (r: bool)
    ensures
        r == spec_prims_comparable(a@, b@),
{
    match (a, b) {
        (Primitive::Int(_), Primitive::Int(_)) => true,
        (Primitive::Int(_), Primitive::Float(_)) => true,
        (Primitive::Float(_), Primitive::Int(_)) => true,
        (Primitive::Float(_), Primitive::Float(_)) => true,
        (Primitive::Str(_), Primitive::Str(_)) => true,
        (Primitive::Bool(_), Primitive::Bool(_)) => true,
        _ => false,
    }
}

/// A non-short-circuiting binary operator applied to evaluated operands.
fn apply_binary(op: BinaryOp, a: &Value, b: &Value) -> (r: Result<Value, Error>)
    ensures
        conforms(r, spec_apply_binary(op, a@, b@)),
{
    match op {
        BinaryOp::Or => Err(Error::Unsupported(String::from_str("short-circuit operator"))),
        BinaryOp::And => Err(Error::Unsupported(String::from_str("short-circuit operator"))),
        BinaryOp::Eq => eq_values(a, b, false),
        BinaryOp::Ne => eq_values(a, b, true),
        BinaryOp::Lt => cmp_values(a, b, BinaryOp::Lt),
        BinaryOp::Le => cmp_values(a, b, BinaryOp::Le),
        BinaryOp::Gt => cmp_values(a, b, BinaryOp::Gt),
        BinaryOp::Ge => cmp_values(a, b, BinaryOp::Ge),
        BinaryOp::Add => {
            match (a, b) {
                (Value::Primitive(Primitive::Int(x)), Value::Primitive(Primitive::Int(y))) => Ok(
                    Value::Primitive(Primitive::Int(x.wrapping_add(*y))),
                ),
                _ => {
                    match (a.to_float_lossy(), b.to_float_lossy()) {
                        (Some(x), Some(y)) => Ok(
                            Value::Primitive(Primitive::Float(float_add(x, y))),
                        ),
                        _ => {
                            match (a, b) {
                                (
                                    Value::Primitive(Primitive::Str(x)),
                                    Value::Primitive(Primitive::Str(y)),
                                ) => {
                                    let mut out = x.clone();
                                    out.append(y.as_str());
                                    Ok(Value::Primitive(Primitive::Str(out)))
                                },
                                _ => Err(
                                    Error::TypeMismatch(
                                        String::from_str("'+' expects numbers or strings"),
                                    ),
                                ),
                            }
                        },
                    }
                },
            }
        },
        BinaryOp::Sub => {
            match (a, b) {
                (Value::Primitive(Primitive::Int(x)), Value::Primitive(Primitive::Int(y))) => Ok(
                    Value::Primitive(Primitive::Int(x.wrapping_sub(*y))),
                ),
                _ => {
                    match (a.to_float_lossy(), b.to_float_lossy()) {
                        (Some(x), Some(y)) => Ok(
                            Value::Primitive(Primitive::Float(float_sub(x, y))),
                        ),
                        _ => Err(
                            Error::TypeMismatch(String::from_str("arithmetic expects numbers")),
                        ),
                    }
                },
            }
        },
        BinaryOp::Mul => {
            match (a, b) {
                (Value::Primitive(Primitive::Int(x)), Value::Primitive(Primitive::Int(y))) => Ok(
                    Value::Primitive(Primitive::Int(x.wrapping_mul(*y))),
                ),
                _ => {
                    match (a.to_float_lossy(), b.to_float_lossy()) {
                        (Some(x), Some(y)) => Ok(
                            Value::Primitive(Primitive::Float(float_mul(x, y))),
                        ),
                        _ => Err(
                            Error::TypeMismatch(String::from_str("arithmetic expects numbers")),
                        ),
                    }
                },
            }
        },
        BinaryOp::Div => {
            match (a.to_float_lossy(), b.to_float_lossy()) {
                (Some(x), Some(y)) => {
                    if float_is_zero(y) {
                        Err(Error::DivideByZero)
                    } else {
                        Ok(Value::Primitive(Primitive::Float(float_div(x, y))))
                    }
                },
                _ => Err(Error::TypeMismatch(String::from_str("arithmetic expects numbers"))),
            }
        },
        BinaryOp::Mod => {
            match (a, b) {
                (Value::Primitive(Primitive::Int(x)), Value::Primitive(Primitive::Int(y))) => {
                    if *y == 0 {
                        Err(Error::DivideByZero)
                    } else {
                        match x.checked_rem(*y) {
                            Some(v) => Ok(Value::Primitive(Primitive::Int(v))),
                            None => Ok(Value::Primitive(Primitive::Int(0))),
                        }
                    }
                },
                _ => {
                    match (a.to_float_lossy(), b.to_float_lossy()) {
                        (Some(x), Some(y)) => {
                            if float_is_zero(y) {
                                Err(Error::DivideByZero)
                            } else {
                                Ok(Value::Primitive(Primitive::Float(float_rem(x, y))))
                            }
                        },
                        _ => Err(
                            Error::TypeMismatch(String::from_str("arithmetic expects numbers")),
                        ),
                    }
                },
            }
        },
        BinaryOp::Pow => {
            match (a.to_float_lossy(), b.to_float_lossy()) {
                (Some(_), Some(_)) => Err(
                    Error::Unsupported(String::from_str("power operator")),
                ),
                _ => Err(Error::TypeMismatch(String::from_str("arithmetic expects numbers"))),
            }
        },
    }
}

/// The `==`/`!=` of two evaluated operands.
fn eq_values(a: &Value, b: &Value, negate: bool) -> (r: Result<Value, Error>)
    ensures
        conforms(r, spec_eq_outcome(a@, b@, negate)),
{
    match (a, b) {
        (Value::Primitive(x), Value::Primitive(y)) => {
            if prims_comparable(x, y) {
                let e = prim_eq(x, y);
                Ok(Value::Primitive(Primitive::Bool(e != negate)))
            } else {
                Err(Error::TypeMismatch(String::from_str("'==' expects comparable operands")))
            }
        },
        _ => {
            let e = value_eq(a, b);
            Ok(Value::Primitive(Primitive::Bool(e != negate)))
        },
    }
}

/// The ordering operators on two evaluated operands.
fn cmp_values(a: &Value, b: &Value, op: BinaryOp) -> (r: Result<Value, Error>)
    ensures
        conforms(r, spec_cmp_outcome(a@, b@, op)),
{
    match (a.to_float_lossy(), b.to_float_lossy()) {
        (Some(x), Some(y)) => {
            let res: bool = match op {
                BinaryOp::Lt => float_lt(x, y),
                BinaryOp::Le => float_le(x, y),
                BinaryOp::Gt => float_lt(y, x),
                _ => float_le(y, x),
            };
            Ok(Value::Primitive(Primitive::Bool(res)))
        },
        _ => {
            match (a, b) {
                (Value::Primitive(Primitive::Str(x)), Value::Primitive(Primitive::Str(y))) => {
                    let res: bool = match op {
                        BinaryOp::Lt => str_lt(x.as_str(), y.as_str()),
                        BinaryOp::Le => !str_lt(y.as_str(), x.as_str()),
                        BinaryOp::Gt => str_lt(y.as_str(), x.as_str()),
                        _ => !str_lt(x.as_str(), y.as_str()),
                    };
                    Ok(Value::Primitive(Primitive::Bool(res)))
                },
                _ => Err(
                    Error::TypeMismatch(
                        String::from_str("comparison requires two numbers or two strings"),
                    ),
                ),
            }
        },
    }
}

/// The evaluation engine: holds the host's resolver and walks expression
/// trees against it.
pub struct Evaluator<R: VariableResolver> {
    pub resolver: R,
}

impl<R: VariableResolver> Evaluator<R> {
    /// An engine evaluating against the given resolver.
    pub fn new(resolver: R) -> (s: Self)
        ensures
            s.resolver == resolver,
    {
        Evaluator { resolver }
    }

    /// The value of `expr` under this engine's resolver, exactly as the
    /// model [`eval_spec`] describes it.
    #[verifier::loop_isolation(false)]
    pub fn evaluate(&self, expr: &Expr) -> (r: Result<Value, Error>)
        ensures
            conforms(r, eval_spec(expr@, &self.resolver)),
        decreases expr,
    {
        match expr {
            Expr::Literal(p) => Ok(Value::Primitive(duplicate_prim(p))),
            Expr::Var(name) => {
                match self.resolver.resolve(name.as_str()) {
                    Some(v) => Ok(v),
                    None => Err(Error::ResolveFailed(name.clone())),
                }
            },
            Expr::ListLiteral(items) => {
                proof {
                    assert(decreases_to!(expr => *items));
                }
                match self.eval_args(items) {
                    Err(e) => Err(e),
                    Ok(vals) => Ok(Value::List(Rc::new(vals))),
                }
            },
            Expr::DictLiteral(pairs) => {
                proof {
                    assert(decreases_to!(expr => *pairs));
                }
                match self.eval_pairs(pairs) {
                    Err(e) => Err(e),
                    Ok(entries) => Ok(Value::Dict(Rc::new(entries))),
                }
            },
            Expr::Member { object, field } => {
                match self.evaluate(&**object) {
                    Err(e) => Err(e),
                    Ok(v) => v.get_member(field.as_str()),
                }
            },
            Expr::Index { object, index } => {
                let ov = match self.evaluate(&**object) {
                    Err(e) => {
                        return Err(e);
                    },
                    Ok(v) => v,
                };
                match ov {
                    Value::Dict(d) => {
                        let iv = match self.evaluate(&**index) {
                            Err(e) => {
                                return Err(e);
                            },
                            Ok(v) => v,
                        };
                        match iv {
                            Value::Primitive(Primitive::Str(k)) => {
                                match dict_lookup(&*d, k.as_str()) {
                                    Some(v) => Ok(v),
                                    None => Err(Error::NoSuchKey(k)),
                                }
                            },
                            _ => Err(
                                Error::WrongIndexType {
                                    target: "dict",
                                    message: String::from_str("expected string key"),
                                },
                            ),
                        }
                    },
                    Value::List(items) => {
                        let iv = match self.evaluate(&**index) {
                            Err(e) => {
                                return Err(e);
                            },
                            Ok(v) => v,
                        };
                        match iv {
                            Value::Primitive(Primitive::Int(ix)) => list_index(&*items, ix),
                            Value::Primitive(Primitive::Str(k)) => Err(Error::NotIndexable(k)),
                            _ => Err(
                                Error::WrongIndexType {
                                    target: "object",
                                    message: String::from_str("expected int or string index"),
                                },
                            ),
                        }
                    },
                    other => {
                        let kind = other.kind_name();
                        Err(Error::NotIndexable(kind.to_owned()))
                    },
                }
            },
            Expr::Call { callee, args } => {
                let cv = match self.evaluate(&**callee) {
                    Err(e) => {
                        return Err(e);
                    },
                    Ok(v) => v,
                };
                match cv {
                    Value::Func(f) => {
                        proof {
                            assert(decreases_to!(expr => *args));
                        }
                        let argv = match self.eval_args(args) {
                            Err(e) => {
                                return Err(e);
                            },
                            Ok(vs) => vs,
                        };
                        match f {
                            FuncVal::Native(name) => self.resolver.call_function(
                                name.as_str(),
                                &argv,
                            ),
                            FuncVal::StrFn(m, recv) => apply_str_fn(m, &recv, &argv),
                            FuncVal::ListFn(m, items) => apply_list_fn(m, &items, &argv),
                            FuncVal::DictFn(m, pairs) => apply_dict_fn(m, &pairs, &argv),
                        }
                    },
                    _ => Err(Error::NotCallable),
                }
            },
            Expr::Unary { op: _, expr: inner } => {
                match self.evaluate(&**inner) {
                    Err(e) => Err(e),
                    Ok(v) => {
                        match v.coerce_bool() {
                            Some(b) => Ok(Value::Primitive(Primitive::Bool(!b))),
                            None => Err(
                                Error::TypeMismatch(String::from_str("'!' expects bool")),
                            ),
                        }
                    },
                }
            },
            Expr::Binary { op, left, right } => {
                let opv: BinaryOp = *op;
                if opv == BinaryOp::Or {
                    let l = match self.evaluate(&**left) {
                        Err(e) => {
                            return Err(e);
                        },
                        Ok(v) => v,
                    };
                    match l.coerce_bool() {
                        None => Err(Error::TypeMismatch(String::from_str("'||' expects bools"))),
                        Some(true) => Ok(Value::Primitive(Primitive::Bool(true))),
                        Some(false) => {
                            let rv = match self.evaluate(&**right) {
                                Err(e) => {
                                    return Err(e);
                                },
                                Ok(v) => v,
                            };
                            match rv.coerce_bool() {
                                None => Err(
                                    Error::TypeMismatch(String::from_str("'&&' expects bools")),
                                ),
                                Some(rb) => Ok(Value::Primitive(Primitive::Bool(rb))),
                            }
                        },
                    }
                } else if opv == BinaryOp::And {
                    let l = match self.evaluate(&**left) {
                        Err(e) => {
                            return Err(e);
                        },
                        Ok(v) => v,
                    };
                    match l.coerce_bool() {
                        None => Err(Error::TypeMismatch(String::from_str("'&&' expects bools"))),
                        Some(false) => Ok(Value::Primitive(Primitive::Bool(false))),
                        Some(true) => {
                            let rv = match self.evaluate(&**right) {
                                Err(e) => {
                                    return Err(e);
                                },
                                Ok(v) => v,
                            };
                            match rv.coerce_bool() {
                                None => Err(
                                    Error::TypeMismatch(String::from_str("'&&' expects bools")),
                                ),
                                Some(rb) => Ok(Value::Primitive(Primitive::Bool(rb))),
                            }
                        },
                    }
                } else {
                    let l = match self.evaluate(&**left) {
                        Err(e) => {
                            return Err(e);
                        },
                        Ok(v) => v,
                    };
                    let rv = match self.evaluate(&**right) {
                        Err(e) => {
                            return Err(e);
                        },
                        Ok(v) => v,
                    };
                    apply_binary(opv, &l, &rv)
                }
            },
        }
    }

    /// The arguments of a call or the elements of a list literal,
    /// evaluated left to right.
    #[verifier::loop_isolation(false)]
    fn eval_args(&self, items: &Vec<Expr>) -> (r: Result<Vec<Value>, Error>)
        ensures
            args_conforms(
                r,
                eval_args_spec(view_exprs(items@), &self.resolver, Seq::empty()),
            ),
        decreases items,
    {
        let ghost esv = view_exprs(items@);
        proof {
            crate::expression::lemma_view_exprs(items@);
            assert(esv.skip(0) =~= esv);
            assert(view_values(Seq::<Value>::empty()) =~= Seq::<ValueV>::empty());
        }
        let mut out: Vec<Value> = Vec::new();
        let mut idx: usize = 0;
        while idx < items.len()
            invariant
                idx <= items.len(),
                eval_args_spec(esv, &self.resolver, Seq::empty()) == eval_args_spec(
                    esv.skip(idx as int),
                    &self.resolver,
                    view_values(out@),
                ) || eval_args_spec(esv, &self.resolver, Seq::empty()) is Unknown,
            decreases items.len() - idx,
        {
            proof {
                assert(decreases_to!(items => items@[idx as int]));
                assert(esv[idx as int] == items@[idx as int]@);
                assert(esv.skip(idx as int)[0] == esv[idx as int]);
                assert(esv.skip(idx as int).subrange(1, esv.skip(idx as int).len() as int)
                    =~= esv.skip(idx as int + 1));
            }
            match self.evaluate(&items[idx]) {
                Err(e) => {
                    return Err(e);
                },
                Ok(v) => {
                    proof {
                        lemma_view_values_push(out@, v);
                    }
                    out.push(v);
                },
            }
            idx = idx + 1;
        }
        proof {
            assert(esv.skip(items@.len() as int) =~= Seq::<ExprV>::empty());
        }
        Ok(out)
    }

    /// The entries of a dictionary literal: each key evaluated strictly
    /// before its value, left to right, keys kept sorted, last write wins.
    #[verifier::loop_isolation(false)]
    fn eval_pairs(&self, pairs: &Vec<(Expr, Expr)>) -> (r: Result<Vec<(String, Value)>, Error>)
        ensures
            match eval_pairs_spec(view_expr_pairs(pairs@), &self.resolver, Seq::empty()) {
                Outcome::Val(v) => match r {
                    Ok(out) => v == ValueV::Dict(view_pairs(out@)),
                    Err(_) => false,
                },
                Outcome::Fail(e) => match r {
                    Ok(_) => false,
                    Err(re) => re@ == e,
                },
                Outcome::Unknown => true,
            },
        decreases pairs,
    {
        let ghost psv = view_expr_pairs(pairs@);
        proof {
            crate::expression::lemma_view_expr_pairs(pairs@);
            assert(psv.skip(0) =~= psv);
            assert(view_pairs(Seq::<(String, Value)>::empty()) =~= Seq::<
                (Seq<char>, ValueV),
            >::empty());
        }
        let mut out: Vec<(String, Value)> = Vec::new();
        let mut idx: usize = 0;
        while idx < pairs.len()
            invariant
                idx <= pairs.len(),
                eval_pairs_spec(psv, &self.resolver, Seq::empty()) == eval_pairs_spec(
                    psv.skip(idx as int),
                    &self.resolver,
                    view_pairs(out@),
                ) || eval_pairs_spec(psv, &self.resolver, Seq::empty()) is Unknown,
            decreases pairs.len() - idx,
        {
            proof {
                assert(decreases_to!(pairs => pairs@[idx as int].0));
                assert(decreases_to!(pairs => pairs@[idx as int].1));
                assert(psv[idx as int] == (pairs@[idx as int].0@, pairs@[idx as int].1@));
                assert(psv.skip(idx as int)[0] == psv[idx as int]);
                assert(psv.skip(idx as int).subrange(1, psv.skip(idx as int).len() as int)
                    =~= psv.skip(idx as int + 1));
            }
            let kv = match self.evaluate(&pairs[idx].0) {
                Err(e) => {
                    return Err(e);
                },
                Ok(v) => v,
            };
            let ks = match kv {
                Value::Primitive(Primitive::Str(ks)) => ks,
                _ => {
                    return Err(
                        Error::TypeMismatch(String::from_str("dict key must be a string")),
                    );
                },
            };
            let vv = match self.evaluate(&pairs[idx].1) {
                Err(e) => {
                    return Err(e);
                },
                Ok(v) => v,
            };
            dict_insert(&mut out, ks, vv);
            idx = idx + 1;
        }
        proof {
            assert(psv.skip(pairs@.len() as int) =~= Seq::<(ExprV, ExprV)>::empty());
        }
        Ok(out)
    }

    /// Parse and evaluate a source text in one step; an evaluation error
    /// is wrapped with its rendered message.
    pub fn evaluate_string(&self, input: &str) -> (r: Result<Value, Error>)
        ensures
            match spec_parse_expression(input@) {
                Err(pe) => match r {
                    Ok(_) => false,
                    Err(re) => re@ == pe,
                },
                Ok(ev) => match eval_spec(ev, &self.resolver) {
                    Outcome::Val(v) => match r {
                        Ok(out) => out@ == v,
                        Err(_) => false,
                    },
                    Outcome::Fail(e) => match r {
                        Ok(_) => false,
                        Err(re) => re@ == ErrorV::EvaluationFailed(
                            "evaluation error: "@ + spec_error_message(e),
                        ),
                    },
                    Outcome::Unknown => true,
                },
            },
    {
        match parse_expression(input) {
            Err(e) => Err(e),
            Ok(expr) => {
                match self.evaluate(&expr) {
                    Ok(v) => Ok(v),
                    Err(e) => {
                        let mut msg = String::from_str("evaluation error: ");
                        let em = e.message();
                        msg.append(em.as_str());
                        Err(Error::EvaluationFailed(msg))
                    },
                }
            },
        }
    }
}

/// The binding under `name` in a list of bindings, the newest (last)
/// binding winning.
pub open spec fn spec_lookup_binding(
    entries: Seq<(Seq<char>, ValueV)>,
    name: Seq<char>,
) -> Option<ValueV>
    decreases entries.len(),
{
    if entries.len() == 0 {
        None
    } else if entries.last().0 == name {
        Some(entries.last().1)
    } else {
        spec_lookup_binding(entries.drop_last(), name)
    }
}

/// A ready-made resolver backed by a list of variable bindings; a later
/// binding for the same name shadows an earlier one.  It exposes no
/// native functions.
pub struct MapResolver {
    pub entries: Vec<(String, Value)>,
}

impl MapResolver {
    /// An empty resolver.
    pub fn new() -> (r: Self)
        ensures
            r.entries@.len() == 0,
    {
        MapResolver { entries: Vec::new() }
    }

    /// Bind `name` to `value`, shadowing any earlier binding.
    pub fn set(&mut self, name: String, value: Value)
        ensures
            final(self).entries@ == old(self).entries@.push((name, value)),
    {
        self.entries.push((name, value));
    }
}

impl VariableResolver for MapResolver {
    open spec fn spec_resolve(&self, name: Seq<char>) -> Option<ValueV> {
        spec_lookup_binding(view_pairs(self.entries@), name)
    }

    #[verifier::loop_isolation(false)]
    fn resolve(&self, name: &str) -> (r: Option<Value>) {
        let ghost es = view_pairs(self.entries@);
        proof {
            lemma_view_pairs(self.entries@);
        }
        let mut i: usize = self.entries.len();
        proof {
            assert(es.take(i as int) =~= es);
        }
        while i > 0
            invariant
                i <= self.entries.len(),
                spec_lookup_binding(es, name@) == spec_lookup_binding(es.take(i as int), name@),
            decreases i,
        {
            i = i - 1;
            proof {
                assert(es.take(i as int + 1).drop_last() =~= es.take(i as int));
                assert(es.take(i as int + 1).last() == es[i as int]);
            }
            if str_eq(self.entries[i].0.as_str(), name) {
                return Some(duplicate(&self.entries[i].1));
            }
        }
        proof {
            assert(es.take(0) =~= Seq::<(Seq<char>, ValueV)>::empty());
        }
        None
    }

    fn call_function(&self, _name: &str, _args: &Vec<Value>) -> Result<Value, Error> {
        Err(Error::NotCallable)
    }
}

/// What interpolating a template produces.
pub enum InterpOut {
    Str(Seq<char>),
    Fail(ErrorV),
    Unknown,
}

/// The position of the first `${` at or after `i`, or `-1` when none.
pub open spec fn spec_find_interp(s: Seq<char>, i: int) -> int
    decreases s.len() - i,
{
    if i < 0 || i + 1 >= s.len() {
        -1
    } else if s[i] == '$' && s[i + 1] == '{' {
        i
    } else {
        spec_find_interp(s, i + 1)
    }
}

/// The modeled result of interpolating a template: literal text is copied
/// verbatim, each `${expr}` is parsed as a brace-terminated expression,
/// evaluated, and rendered in place.
pub open spec fn spec_interp<R: VariableResolver>(s: Seq<char>, r: &R) -> InterpOut
    decreases s.len(),
{
    let idx = spec_find_interp(s, 0);
    if idx < 0 {
        InterpOut::Str(s)
    } else {
        let cut = if idx + 2 > s.len() {
            s.len() as int
        } else {
            idx + 2
        };
        let tail = s.subrange(cut, s.len() as int);
        match spec_parse_in_braces(tail) {
            ParseOut::Fail(e) => InterpOut::Fail(e),
            ParseOut::Done(ev, c0) => {
                let c1 = if c0 < 1 {
                    1
                } else {
                    c0
                };
                let c = if c1 > tail.len() {
                    tail.len() as int
                } else {
                    c1
                };
                match eval_spec(ev, r) {
                    Outcome::Fail(e) => InterpOut::Fail(e),
                    Outcome::Unknown => InterpOut::Unknown,
                    Outcome::Val(v) => match spec_interp(tail.subrange(c, tail.len() as int), r) {
                        InterpOut::Str(restout) => InterpOut::Str(
                            s.subrange(0, idx) + spec_value_str(v) + restout,
                        ),
                        InterpOut::Fail(e) => InterpOut::Fail(e),
                        InterpOut::Unknown => InterpOut::Unknown,
                    },
                }
            },
        }
    }
}

fn find_interp(s: &str, n: usize, i: usize) -> (r: Option<usize>)
    requires
        n == s@.len(),
        i <= n,
    ensures
        match r {
            Some(p) => spec_find_interp(s@, i as int) == p as int && i <= p && p + 1 < n,
            None => spec_find_interp(s@, i as int) == -1,
        },
    decreases n - i,
{
    if i >= n || i + 1 >= n {
        None
    } else if s.get_char(i) == '$' && s.get_char(i + 1) == '{' {
        Some(i)
    } else {
        find_interp(s, n, i + 1)
    }
}

impl<R: VariableResolver> Evaluator<R> {
    /// A template with every `${expr}` placeholder replaced by the
    /// rendered value of the expression; the first failure aborts the
    /// whole interpolation.
    pub fn evaluate_interpolated(&self, input: &str) -> (r: Result<String, Error>)
        ensures
            match spec_interp(input@, &self.resolver) {
                InterpOut::Str(o) => match r {
                    Ok(out) => out@ == o,
                    Err(_) => false,
                },
                InterpOut::Fail(e) => match r {
                    Ok(_) => false,
                    Err(re) => re@ == e,
                },
                InterpOut::Unknown => true,
            },
        decreases input@.len(),
    {
        let n: usize = input.unicode_len();
        match find_interp(input, n, 0) {
            None => Ok(input.to_owned()),
            Some(idx) => {
                let tail = input.substring_char(idx + 2, n);
                match parse_in_braces(tail) {
                    Err(e) => Err(e),
                    Ok((expr, c)) => {
                        match self.evaluate(&expr) {
                            Err(e) => Err(e),
                            Ok(v) => {
                                let tn: usize = tail.unicode_len();
                                let rest2 = tail.substring_char(c, tn);
                                proof {
                                    assert(rest2@.len() < input@.len());
                                }
                                match self.evaluate_interpolated(rest2) {
                                    Err(e) => Err(e),
                                    Ok(restout) => {
                                        let mut out = input.substring_char(0, idx).to_owned();
                                        let vs = v.as_str_lossy();
                                        out.append(vs.as_str());
                                        out.append(restout.as_str());
                                        Ok(out)
                                    },
                                }
                            },
                        }
                    },
                }
            },
        }
    }
}

} // verus!
