//! The engine's general guarantees, stated over the evaluation model and
//! proved once and for all.
use vstd::prelude::*;

use crate::decimal::{
    all_digits, digit_val, is_digit, lemma_digits_roundtrip, spec_dec_digits, spec_dec_str,
    spec_digits_val,
};
use crate::errors::ErrorV;
use crate::evaluator::{eval_pairs_spec, eval_spec, VariableResolver};
use crate::expression::{BinaryOp, ExprV};
use crate::decimal::{lemma_digits_val_front, lemma_digits_val_nonneg, lemma_pow10_pos, pow10};
use crate::floats::{spec_float_is_zero, spec_float_of_dec};
use crate::members::{lemma_dict_insert_wf, spec_dict_insert, spec_dict_wf};
use crate::parser::{
    adv, adv_ge, is_ws, spec_accum_digits, spec_parse_expr, spec_parse_expression,
    spec_parse_infix, spec_parse_number, spec_parse_postfix, spec_parse_primary,
    spec_parse_suffixes, spec_parse_unary, spec_scan_digits, spec_skip_ws, ParseOut,
};
use crate::value::{
    conforms, spec_coerce_bool, spec_to_float, Outcome, PrimitiveV, Value, ValueV,
};
use crate::errors::Error;

verus! {

/// Evaluation is deterministic: two results that both agree with the
/// model of the same expression under the same resolver are equal,
/// whenever the model pins the outcome (that is, no host native and no
/// power result is involved).
pub proof fn lemma_evaluation_deterministic<R: VariableResolver>(
    e: ExprV,
    r: &R,
    r1: Result<Value, Error>,
    r2: Result<Value, Error>,
)
    requires
        conforms(r1, eval_spec(e, r)),
        conforms(r2, eval_spec(e, r)),
        !(eval_spec(e, r) is Unknown),
    ensures
        match (r1, r2) {
            (Ok(a), Ok(b)) => a@ == b@,
            (Err(a), Err(b)) => a@ == b@,
            _ => false,
        },
{
}

/// `&&` short-circuits: when the left operand evaluates to a value that
/// coerces to false, the conjunction is false whatever stands on the
/// right — the right operand is never evaluated, so it cannot fail.
pub proof fn lemma_and_short_circuits<R: VariableResolver>(
    left: ExprV,
    right: ExprV,
    lv: ValueV,
    r: &R,
)
    requires
        eval_spec(left, r) == Outcome::Val(lv),
        spec_coerce_bool(lv) == Some(false),
    ensures
        eval_spec(
            ExprV::Binary { op: BinaryOp::And, left: Box::new(left), right: Box::new(right) },
            r,
        ) == Outcome::Val(ValueV::Primitive(PrimitiveV::Bool(false))),
{
}

/// `||` short-circuits: when the left operand evaluates to a value that
/// coerces to true, the disjunction is true whatever stands on the right.
pub proof fn lemma_or_short_circuits<R: VariableResolver>(
    left: ExprV,
    right: ExprV,
    lv: ValueV,
    r: &R,
)
    requires
        eval_spec(left, r) == Outcome::Val(lv),
        spec_coerce_bool(lv) == Some(true),
    ensures
        eval_spec(
            ExprV::Binary { op: BinaryOp::Or, left: Box::new(left), right: Box::new(right) },
            r,
        ) == Outcome::Val(ValueV::Primitive(PrimitiveV::Bool(true))),
{
}

/// Whether an evaluated divisor is zero: the integer zero, or a float
/// whose value is a zero of either sign.
pub open spec fn spec_zero_divisor(rv: ValueV) -> bool {
    match rv {
        ValueV::Primitive(PrimitiveV::Int(y)) => y == 0,
        ValueV::Primitive(PrimitiveV::Float(b)) => spec_float_is_zero(b),
        _ => false,
    }
}

/// Any division or modulo whose divisor evaluates to zero is a
/// division-by-zero error — never a value, so no native infinity or NaN
/// can leak out of a zero divisor.
pub proof fn lemma_zero_divisor_errors<R: VariableResolver>(
    op: BinaryOp,
    left: ExprV,
    right: ExprV,
    lv: ValueV,
    rv: ValueV,
    r: &R,
)
    requires
        op == BinaryOp::Div || op == BinaryOp::Mod,
        eval_spec(left, r) == Outcome::Val(lv),
        eval_spec(right, r) == Outcome::Val(rv),
        spec_to_float(lv) is Some,
        spec_zero_divisor(rv),
    ensures
        eval_spec(
            ExprV::Binary { op, left: Box::new(left), right: Box::new(right) },
            r,
        ) == Outcome::Fail(ErrorV::DivideByZero),
{
}

/// Evaluating dictionary entries onto a sorted accumulator yields a
/// sorted dictionary.
proof fn lemma_eval_pairs_sorted<R: VariableResolver>(
    pairs: Seq<(ExprV, ExprV)>,
    r: &R,
    acc: Seq<(Seq<char>, ValueV)>,
)
    requires
        spec_dict_wf(acc),
    ensures
        match eval_pairs_spec(pairs, r, acc) {
            Outcome::Val(v) => match v {
                ValueV::Dict(d) => spec_dict_wf(d),
                _ => true,
            },
            _ => true,
        },
    decreases pairs,
{
    if pairs.len() > 0 {
        match eval_spec(pairs[0].0, r) {
            Outcome::Val(kv) => match kv {
                ValueV::Primitive(PrimitiveV::Str(ks)) => match eval_spec(pairs[0].1, r) {
                    Outcome::Val(vv) => {
                        lemma_dict_insert_wf(acc, ks, vv);
                        lemma_eval_pairs_sorted(
                            pairs.subrange(1, pairs.len() as int),
                            r,
                            spec_dict_insert(acc, ks, vv),
                        );
                    },
                    _ => {},
                },
                _ => {},
            },
            _ => {},
        }
    }
}

/// A dictionary literal always evaluates to a dictionary whose keys are
/// strictly sorted: keys are unique, duplicate literal keys resolve to
/// the last write, and iteration order is deterministic.
pub proof fn lemma_dict_literal_keys_sorted<R: VariableResolver>(pairs: Seq<(ExprV, ExprV)>, r: &R)
    ensures
        match eval_spec(ExprV::DictLiteral(pairs), r) {
            Outcome::Val(v) => match v {
                ValueV::Dict(d) => spec_dict_wf(d),
                _ => true,
            },
            _ => true,
        },
{
    lemma_eval_pairs_sorted(pairs, r, Seq::empty());
}

/// A digit run ends exactly at the first non-digit (or the end).
proof fn lemma_scan_digits_until(s: Seq<char>, i: int, e: int)
    requires
        0 <= i <= e <= s.len(),
        forall|j: int| i <= j < e ==> is_digit(#[trigger] s[j]),
        e == s.len() || !is_digit(s[e]),
    ensures
        spec_scan_digits(s, i) == e,
    decreases e - i,
{
    if i < e {
        assert(is_digit(s[i]));
        lemma_scan_digits_until(s, i + 1, e);
    }
}

/// The exact mathematical value the digit accumulation aims for: the
/// accumulator shifted past the run, minus the run's value.
pub open spec fn accum_target(s: Seq<char>, i: int, end: int, acc: int) -> int {
    acc * pow10((end - i) as nat) - spec_digits_val(s.subrange(i, end))
}

/// The digit accumulation computes exactly the negated value of the digit
/// run, failing exactly when that value falls below `i64::MIN`.
proof fn lemma_accum_exact(s: Seq<char>, i: int, end: int, acc: int)
    requires
        0 <= i <= end <= s.len(),
        forall|j: int| i <= j < end ==> is_digit(#[trigger] s[j]),
        i64::MIN <= acc <= 0,
    ensures
        accum_target(s, i, end, acc) <= acc,
        accum_target(s, i, end, acc) >= i64::MIN ==> spec_accum_digits(s, i, end, acc) == Some(
            accum_target(s, i, end, acc),
        ),
        accum_target(s, i, end, acc) < i64::MIN ==> spec_accum_digits(s, i, end, acc) is None,
    decreases end - i,
{
    let target = accum_target(s, i, end, acc);
    let sub = s.subrange(i, end);
    if i == end {
        assert(sub =~= Seq::<char>::empty());
        assert(spec_digits_val(sub) == 0);
        assert(pow10(0) == 1);
        assert(spec_accum_digits(s, i, end, acc) == Some(acc));
    } else {
        assert(is_digit(s[i]));
        let d = digit_val(s[i]);
        let a2 = acc * 10 - d;
        let rest = s.subrange(i + 1, end);
        assert(sub.len() > 0);
        assert(sub[0] == s[i]);
        lemma_digits_val_front(sub);
        assert(sub.subrange(1, sub.len() as int) =~= rest);
        assert(all_digits(rest)) by {
            assert forall|j: int| 0 <= j < rest.len() implies is_digit(#[trigger] rest[j]) by {
                assert(rest[j] == s[i + 1 + j]);
            }
        }
        lemma_digits_val_nonneg(rest);
        let k = (end - i - 1) as nat;
        lemma_pow10_pos(k);
        assert(pow10((end - i) as nat) == 10 * pow10(k));
        assert(spec_digits_val(sub) == d * pow10(k) + spec_digits_val(rest));
        let target2 = a2 * pow10(k) - spec_digits_val(rest);
        assert(target2 == accum_target(s, i + 1, end, a2)) by {
            assert(s.subrange(i + 1, end) =~= rest);
        }
        assert(acc * (10 * pow10(k)) == (acc * 10) * pow10(k)) by (nonlinear_arith);
        assert((acc * 10) * pow10(k) - d * pow10(k) == (acc * 10 - d) * pow10(k))
            by (nonlinear_arith);
        assert(target == target2);
        assert(a2 * pow10(k) <= a2) by (nonlinear_arith)
            requires
                a2 <= 0,
                pow10(k) >= 1,
        ;
        assert(target2 <= a2);
        assert(a2 <= acc);
        assert(spec_accum_digits(s, i, end, acc) == (if a2 < i64::MIN as int {
            None
        } else {
            spec_accum_digits(s, i + 1, end, a2)
        }));
        if a2 >= i64::MIN {
            lemma_accum_exact(s, i + 1, end, a2);
        } else {
            assert(target < i64::MIN);
        }
    }
}

/// A decimal integer notation reaches the end of the source and no
/// whitespace is left over after it.
proof fn lemma_skip_ws_at_end(s: Seq<char>)
    ensures
        spec_skip_ws(s, s.len() as int) == s.len(),
{
}

/// The spec parser on the decimal notation of an integer: it consumes the
/// whole source and yields exactly the integer literal.
proof fn lemma_parse_int_notation(i: i64)
    ensures
        spec_parse_expression(spec_dec_str(i as int)) == Ok::<ExprV, ErrorV>(
            ExprV::Literal(PrimitiveV::Int(i as int)),
        ),
{
    let s = spec_dec_str(i as int);
    let neg = i < 0;
    let m: nat = if i < 0 {
        (-(i as int)) as nat
    } else {
        i as nat
    };
    let d = spec_dec_digits(m);
    lemma_digits_roundtrip(m);
    let len = s.len() as int;
    let ds: int = if neg {
        1
    } else {
        0
    };
    if neg {
        assert(s == seq!['-'] + d);
        assert(s[0] == '-');
        assert forall|j: int| ds <= j < len implies is_digit(#[trigger] s[j]) by {
            assert(s[j] == d[j - 1]);
        }
        assert(s.subrange(ds, len) =~= d);
    } else {
        assert(s == d);
        assert forall|j: int| ds <= j < len implies is_digit(#[trigger] s[j]) by {
            assert(s[j] == d[j]);
        }
        assert(s.subrange(ds, len) =~= d);
    }
    assert(len >= ds + 1);
    assert(is_digit(s[ds]));
    assert(!is_ws(s[0]) && s[0] != '/');
    assert(spec_skip_ws(s, 0) == 0);
    lemma_scan_digits_until(s, ds, len);
    lemma_accum_exact(s, ds, len, 0);
    let target = 0 * pow10((len - ds) as nat) - spec_digits_val(s.subrange(ds, len));
    assert(spec_digits_val(s.subrange(ds, len)) == m);
    assert(target == -(m as int));
    assert(m <= 0x8000_0000_0000_0000);
    assert(target >= i64::MIN);
    assert(spec_accum_digits(s, ds, len, 0) == Some(-(m as int)));
    let lit = ExprV::Literal(PrimitiveV::Int(i as int));
    assert(spec_parse_number(s, 0) == ParseOut::Done(lit, len)) by {
        if neg {
            assert(-(m as int) == i as int);
        } else {
            assert(!((-(m as int)) < -(i64::MAX as int)));
            assert(-(-(m as int)) == i as int);
        }
    }
    assert(adv_ge(0, len, 0) == 0);
    assert(spec_parse_primary(s, 0) == ParseOut::Done(lit, len)) by {
        if neg {
            assert(s[1] == d[0]);
            assert(is_digit(s[1]));
        }
    }
    assert(adv(0, len, len) == len);
    assert(spec_parse_suffixes(s, lit, len) == ParseOut::Done(lit, len));
    assert(spec_parse_postfix(s, 0) == ParseOut::Done(lit, len));
    assert(s[0] != '!');
    assert(spec_parse_unary(s, 0) == ParseOut::Done(lit, len));
    assert(adv_ge(0, len, len) == len);
    assert(spec_parse_infix(s, lit, len, 1) == ParseOut::Done(lit, len));
    assert(spec_parse_expr(s, 0, 1) == ParseOut::Done(lit, len));
    lemma_skip_ws_at_end(s);
    assert(adv_ge(len, len, len) == len);
    assert(spec_parse_expression(s) == Ok::<ExprV, ErrorV>(lit));
}

/// For every 64-bit integer `i`, parsing the decimal notation of `i` and
/// evaluating the result yields exactly the integer value `i`, against
/// any resolver.
pub proof fn lemma_int_literal_round_trip<R: VariableResolver>(i: i64, r: &R)
    ensures
        spec_parse_expression(spec_dec_str(i as int)) == Ok::<ExprV, ErrorV>(
            ExprV::Literal(PrimitiveV::Int(i as int)),
        ),
        eval_spec(ExprV::Literal(PrimitiveV::Int(i as int)), r) == Outcome::Val(
            ValueV::Primitive(PrimitiveV::Int(i as int)),
        ),
{
    lemma_parse_int_notation(i);
}

/// A literal with a decimal point parses to a float literal and evaluates
/// to a float: for any nonempty digit runs around the point whose decimal
/// reading is the double `bits`, the whole source is consumed and the
/// result is exactly `Float(bits)`.
pub proof fn lemma_float_literal_round_trip<R: VariableResolver>(
    a: Seq<char>,
    b: Seq<char>,
    bits: u64,
    r: &R,
)
    requires
        a.len() > 0,
        b.len() > 0,
        all_digits(a),
        all_digits(b),
        spec_float_of_dec(a + seq!['.'] + b) == Some(bits),
    ensures
        spec_parse_expression(a + seq!['.'] + b) == Ok::<ExprV, ErrorV>(
            ExprV::Literal(PrimitiveV::Float(bits)),
        ),
        eval_spec(ExprV::Literal(PrimitiveV::Float(bits)), r) == Outcome::Val(
            ValueV::Primitive(PrimitiveV::Float(bits)),
        ),
{
    let s = a + seq!['.'] + b;
    let len = s.len() as int;
    let al = a.len() as int;
    assert(len == al + 1 + b.len());
    assert forall|j: int| 0 <= j < al implies is_digit(#[trigger] s[j]) by {
        assert(s[j] == a[j]);
    }
    assert(s[al] == '.');
    assert forall|j: int| al + 1 <= j < len implies is_digit(#[trigger] s[j]) by {
        assert(s[j] == b[j - al - 1]);
    }
    assert(is_digit(s[0]));
    assert(!is_ws(s[0]) && s[0] != '/');
    assert(spec_skip_ws(s, 0) == 0);
    assert(!is_digit(s[al]));
    lemma_scan_digits_until(s, 0, al);
    lemma_scan_digits_until(s, al + 1, len);
    assert(is_digit(s[al + 1]));
    assert(s.subrange(0, len) =~= s);
    let lit = ExprV::Literal(PrimitiveV::Float(bits));
    assert(spec_parse_number(s, 0) == ParseOut::Done(lit, len));
    assert(adv_ge(0, len, 0) == 0);
    assert(spec_parse_primary(s, 0) == ParseOut::Done(lit, len));
    assert(adv(0, len, len) == len);
    assert(spec_parse_suffixes(s, lit, len) == ParseOut::Done(lit, len));
    assert(spec_parse_postfix(s, 0) == ParseOut::Done(lit, len));
    assert(s[0] != '!');
    assert(spec_parse_unary(s, 0) == ParseOut::Done(lit, len));
    assert(adv_ge(0, len, len) == len);
    assert(spec_parse_infix(s, lit, len, 1) == ParseOut::Done(lit, len));
    assert(spec_parse_expr(s, 0, 1) == ParseOut::Done(lit, len));
    lemma_skip_ws_at_end(s);
    assert(adv_ge(len, len, len) == len);
    assert(spec_parse_expression(s) == Ok::<ExprV, ErrorV>(lit));
}

} // verus!
