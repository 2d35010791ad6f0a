//! A recursive-descent parser for the expression grammar.
//!
//! Positions are character indices into the source.  Every executable
//! function mirrors a spec-level twin, and its contract states that the
//! two agree exactly, so the grammar accepted by the engine is pinned by
//! the spec functions in this module.
use vstd::prelude::*;

use crate::decimal::{digit_val, is_digit};
use crate::errors::{Error, ErrorV};
use crate::expression::{
    lemma_view_expr_pairs_push, lemma_view_exprs_push, view_expr_pairs, view_exprs, BinaryOp,
    Expr, ExprV, UnaryOp,
};
use crate::floats::{float_of_dec, spec_float_of_dec};
use crate::text::{str_eq, string_push};
use crate::value::{Primitive, PrimitiveV};

verus! {

/// What a parsing step produces: an expression with the position after
/// it, or a definite error.
pub enum ParseOut {
    Done(ExprV, int),
    Fail(ErrorV),
}

/// Whether an executable parse result agrees with its modeled outcome.
pub open spec fn parse_conforms(r: Result<(Expr, usize), Error>, o: ParseOut) -> bool {
    match o {
        ParseOut::Done(ev, j) => match r {
            Ok(p) => p.0@ == ev && p.1 as int == j,
            Err(_) => false,
        },
        ParseOut::Fail(e) => match r {
            Ok(_) => false,
            Err(re) => re@ == e,
        },
    }
}

/// A parse error: the message and a snippet of the offending text.
pub open spec fn spec_mk_err(s: Seq<char>, i: int, msg: Seq<char>) -> ErrorV {
    let end = if i + 20 > s.len() {
        s.len() as int
    } else {
        i + 20
    };
    ErrorV::ParseFailed(msg, s.subrange(i, end))
}

fn mk_err(s: &str, n: usize, i: usize, msg: &str) -> (r: Error)
    requires
        n == s@.len(),
        i <= n,
    ensures
        r@ == spec_mk_err(s@, i as int, msg@),
{
    let end: usize = if n - i > 20 {
        i + 20
    } else {
        n
    };
    Error::ParseFailed(msg.to_owned(), s.substring_char(i, end).to_owned())
}

/// Whether a character is whitespace to the grammar.
pub open spec fn is_ws(c: char) -> bool {
    c == ' ' || c == '\t' || c == '\r' || c == '\n'
}

/// The position after any run of whitespace and `//` line comments.
pub open spec fn spec_skip_ws(s: Seq<char>, i: int) -> int
    decreases s.len() - i, 1int,
{
    if 0 <= i < s.len() && is_ws(s[i]) {
        spec_skip_ws(s, i + 1)
    } else if 0 <= i && i + 1 < s.len() && s[i] == '/' && s[i + 1] == '/' {
        spec_skip_comment(s, i + 2)
    } else {
        i
    }
}

/// The position after the rest of a `//` comment line.
pub open spec fn spec_skip_comment(s: Seq<char>, i: int) -> int
    decreases s.len() - i, 0int,
{
    if 0 <= i < s.len() {
        if s[i] == '\n' {
            spec_skip_ws(s, i + 1)
        } else {
            spec_skip_comment(s, i + 1)
        }
    } else {
        i
    }
}

fn skip_ws(s: &str, n: usize, i: usize) -> (r: usize)
    requires
        n == s@.len(),
        i <= n,
    ensures
        r == spec_skip_ws(s@, i as int),
        i <= r <= n,
    decreases n - i, 1int,
{
    if i < n {
        let c = s.get_char(i);
        if c == ' ' || c == '\t' || c == '\r' || c == '\n' {
            return skip_ws(s, n, i + 1);
        }
        if c == '/' && i + 1 < n && s.get_char(i + 1) == '/' {
            return skip_comment(s, n, i + 2);
        }
        i
    } else {
        i
    }
}

fn skip_comment(s: &str, n: usize, i: usize) -> (r: usize)
    requires
        n == s@.len(),
        i <= n,
    ensures
        r == spec_skip_comment(s@, i as int),
        i <= r <= n,
    decreases n - i, 0int,
{
    if i < n {
        if s.get_char(i) == '\n' {
            skip_ws(s, n, i + 1)
        } else {
            skip_comment(s, n, i + 1)
        }
    } else {
        i
    }
}

/// The position after a run of decimal digits.
pub open spec fn spec_scan_digits(s: Seq<char>, i: int) -> int
    decreases s.len() - i,
{
    if 0 <= i < s.len() && is_digit(s[i]) {
        spec_scan_digits(s, i + 1)
    } else {
        i
    }
}

fn exec_is_digit(c: char) -> (r: bool)
    ensures
        r == is_digit(c),
{
    ('0' as u32) <= (c as u32) && (c as u32) <= ('9' as u32)
}

fn scan_digits(s: &str, n: usize, i: usize) -> (r: usize)
    requires
        n == s@.len(),
        i <= n,
    ensures
        r == spec_scan_digits(s@, i as int),
        i <= r <= n,
    decreases n - i,
{
    if i < n && exec_is_digit(s.get_char(i)) {
        scan_digits(s, n, i + 1)
    } else {
        i
    }
}

/// Whether a character can begin an identifier.
pub open spec fn is_ident_start(c: char) -> bool {
    ('a' as int <= c as int && c as int <= 'z' as int) || ('A' as int <= c as int && c as int
        <= 'Z' as int) || c == '_'
}

/// Whether a character can continue an identifier.
pub open spec fn is_ident_char(c: char) -> bool {
    is_ident_start(c) || is_digit(c)
}

fn exec_is_ident_start(c: char) -> (r: bool)
    ensures
        r == is_ident_start(c),
{
    (('a' as u32) <= (c as u32) && (c as u32) <= ('z' as u32)) || (('A' as u32) <= (c as u32) && (c
        as u32) <= ('Z' as u32)) || c == '_'
}

fn exec_is_ident_char(c: char) -> (r: bool)
    ensures
        r == is_ident_char(c),
{
    exec_is_ident_start(c) || exec_is_digit(c)
}

/// The position after a run of identifier characters.
pub open spec fn spec_scan_ident(s: Seq<char>, i: int) -> int
    decreases s.len() - i,
{
    if 0 <= i < s.len() && is_ident_char(s[i]) {
        spec_scan_ident(s, i + 1)
    } else {
        i
    }
}

fn scan_ident(s: &str, n: usize, i: usize) -> (r: usize)
    requires
        n == s@.len(),
        i <= n,
    ensures
        r == spec_scan_ident(s@, i as int),
        i <= r <= n,
    decreases n - i,
{
    if i < n && exec_is_ident_char(s.get_char(i)) {
        scan_ident(s, n, i + 1)
    } else {
        i
    }
}

/// The position of the closing quote of a string literal whose body begins
/// at `i`, honoring backslash escapes; `None` when the literal never ends.
pub open spec fn spec_str_end(s: Seq<char>, i: int, q: char) -> Option<int>
    decreases s.len() - i,
{
    if 0 <= i < s.len() {
        if s[i] == q {
            Some(i)
        } else if s[i] == '\\' {
            if i + 1 < s.len() {
                spec_str_end(s, i + 2, q)
            } else {
                None
            }
        } else {
            spec_str_end(s, i + 1, q)
        }
    } else {
        None
    }
}

fn str_end(s: &str, n: usize, i: usize, q: char) -> (r: Option<usize>)
    requires
        n == s@.len(),
        i <= n,
    ensures
        match r {
            Some(e) => spec_str_end(s@, i as int, q) == Some(e as int) && i <= e < n,
            None => spec_str_end(s@, i as int, q) is None,
        },
    decreases n - i,
{
    if i < n {
        let c = s.get_char(i);
        if c == q {
            Some(i)
        } else if c == '\\' {
            if i + 1 < n {
                str_end(s, n, i + 2, q)
            } else {
                None
            }
        } else {
            str_end(s, n, i + 1, q)
        }
    } else {
        None
    }
}

/// The unescaped character an escape introduces, if the escape is legal:
/// `\n \r \t \\ \" \'` and an escaped literal newline.
pub open spec fn spec_escape_map(c: char) -> Option<char> {
    if c == 'n' {
        Some('\n')
    } else if c == 'r' {
        Some('\r')
    } else if c == 't' {
        Some('\t')
    } else if c == '\\' {
        Some('\\')
    } else if c == '"' {
        Some('"')
    } else if c == '\'' {
        Some('\'')
    } else if c == '\n' {
        Some('\n')
    } else {
        None
    }
}

fn exec_escape_map(c: char) -> (r: Option<char>)
    ensures
        r == spec_escape_map(c),
{
    if c == 'n' {
        Some('\n')
    } else if c == 'r' {
        Some('\r')
    } else if c == 't' {
        Some('\t')
    } else if c == '\\' {
        Some('\\')
    } else if c == '"' {
        Some('"')
    } else if c == '\'' {
        Some('\'')
    } else if c == '\n' {
        Some('\n')
    } else {
        None
    }
}

/// The body of a quoted literal from position `i` on, unescaped onto `acc`.
pub open spec fn spec_unescape_from(src: Seq<char>, i: int, acc: Seq<char>) -> Result<
    Seq<char>,
    ErrorV,
>
    decreases src.len() - i,
{
    if i >= src.len() - 1 {
        Ok(acc)
    } else if src[i] == '\\' {
        if i + 1 >= src.len() - 1 {
            Err(ErrorV::ParseFailed("invalid escape character"@, Seq::empty()))
        } else {
            match spec_escape_map(src[i + 1]) {
                Some(m) => spec_unescape_from(src, i + 2, acc.push(m)),
                None => Err(
                    ErrorV::ParseFailed("invalid escape character"@, seq![src[i + 1]]),
                ),
            }
        }
    } else {
        spec_unescape_from(src, i + 1, acc.push(src[i]))
    }
}

/// The unescaped body of a quoted string literal, quotes included.
pub open spec fn spec_unescape(src: Seq<char>) -> Result<Seq<char>, ErrorV> {
    spec_unescape_from(src, 1, Seq::empty())
}

/// The text of a quoted string literal turned into its value: the
/// surrounding quotes are dropped and the escapes are resolved.
pub fn unescape_string(src: &str) -> (r: Result<String, Error>)
    requires
        src@.len() >= 2,
    ensures
        match r {
            Ok(out) => spec_unescape(src@) == Ok::<Seq<char>, ErrorV>(out@),
            Err(e) => spec_unescape(src@) == Err::<Seq<char>, ErrorV>(e@),
        },
{
    let n: usize = src.unicode_len();
    let mut out = String::new();
    let mut i: usize = 1;
    proof {
        assert(out@ =~= Seq::<char>::empty());
    }
    while i < n - 1
        invariant
            n == src@.len(),
            n >= 2,
            1 <= i <= n - 1,
            spec_unescape(src@) == spec_unescape_from(src@, i as int, out@),
        decreases n - i,
    {
        let c = src.get_char(i);
        if c == '\\' {
            if i + 1 >= n - 1 {
                return Err(
                    Error::ParseFailed(
                        String::from_str("invalid escape character"),
                        String::new(),
                    ),
                );
            }
            let e = src.get_char(i + 1);
            match exec_escape_map(e) {
                Some(m) => {
                    string_push(&mut out, m);
                    i = i + 2;
                },
                None => {
                    let mut snip = String::new();
                    string_push(&mut snip, e);
                    proof {
                        assert(snip@ =~= seq![src@[i as int + 1]]);
                    }
                    return Err(
                        Error::ParseFailed(String::from_str("invalid escape character"), snip),
                    );
                },
            }
        } else {
            string_push(&mut out, c);
            i = i + 1;
        }
    }
    Ok(out)
}

/// Every scanned position holds a digit.
proof fn lemma_scan_digits(s: Seq<char>, i: int)
    requires
        0 <= i,
    ensures
        forall|m: int| i <= m < spec_scan_digits(s, i) ==> is_digit(s[m]),
        spec_scan_digits(s, i) >= i,
    decreases s.len() - i,
{
    if 0 <= i < s.len() && is_digit(s[i]) {
        lemma_scan_digits(s, i + 1);
    }
}

/// Digits folded onto a non-positive accumulator, failing on overflow
/// below `i64::MIN`; this mirrors the executable accumulation exactly.
pub open spec fn spec_accum_digits(s: Seq<char>, i: int, end: int, acc: int) -> Option<int>
    decreases end - i,
{
    if i >= end {
        Some(acc)
    } else {
        let a2 = acc * 10 - digit_val(s[i]);
        if a2 < i64::MIN as int {
            None
        } else {
            spec_accum_digits(s, i + 1, end, a2)
        }
    }
}

/// A numeric literal at `j`: an optional sign, digits, and optionally a
/// point followed by digits, which makes it a float.
pub open spec fn spec_parse_number(s: Seq<char>, j: int) -> ParseOut {
    let neg = 0 <= j < s.len() && s[j] == '-';
    let ds = if neg {
        j + 1
    } else {
        j
    };
    let de = spec_scan_digits(s, ds);
    if de == ds {
        ParseOut::Fail(spec_mk_err(s, j, "expected number"@))
    } else if de < s.len() && s[de] == '.' && de + 1 < s.len() && is_digit(s[de + 1]) {
        let fe = spec_scan_digits(s, de + 1);
        match spec_float_of_dec(s.subrange(j, fe)) {
            Some(b) => ParseOut::Done(ExprV::Literal(PrimitiveV::Float(b)), fe),
            None => ParseOut::Fail(spec_mk_err(s, j, "invalid float"@)),
        }
    } else {
        match spec_accum_digits(s, ds, de, 0) {
            None => ParseOut::Fail(spec_mk_err(s, j, "invalid int"@)),
            Some(a) => if neg {
                ParseOut::Done(ExprV::Literal(PrimitiveV::Int(a)), de)
            } else if a < -(i64::MAX as int) {
                ParseOut::Fail(spec_mk_err(s, j, "invalid int"@))
            } else {
                ParseOut::Done(ExprV::Literal(PrimitiveV::Int(-a)), de)
            },
        }
    }
}

#[verifier::loop_isolation(false)]
fn parse_number(s: &str, n: usize, j: usize) -> (r: Result<(Expr, usize), Error>)
    requires
        n == s@.len(),
        j < n,
        is_digit(s@[j as int]) || (s@[j as int] == '-' && j + 1 < n && is_digit(
            s@[j as int + 1],
        )),
    ensures
        parse_conforms(r, spec_parse_number(s@, j as int)),
        r matches Ok(p) ==> j < p.1 <= n,
{
    let neg: bool = s.get_char(j) == '-';
    let ds: usize = if neg {
        j + 1
    } else {
        j
    };
    let de: usize = scan_digits(s, n, ds);
    proof {
        lemma_scan_digits(s@, ds as int);
    }
    if de == ds {
        return Err(mk_err(s, n, j, "expected number"));
    }
    if de < n && s.get_char(de) == '.' && de + 1 < n && exec_is_digit(s.get_char(de + 1)) {
        let fe: usize = scan_digits(s, n, de + 1);
        let lexeme = s.substring_char(j, fe);
        return match float_of_dec(lexeme) {
            Some(b) => Ok((Expr::Literal(Primitive::Float(b)), fe)),
            None => Err(mk_err(s, n, j, "invalid float")),
        };
    }
    let mut acc: i64 = 0;
    let mut k: usize = ds;
    while k < de
        invariant
            ds <= k <= de,
            acc <= 0,
            spec_accum_digits(s@, ds as int, de as int, 0) == spec_accum_digits(
                s@,
                k as int,
                de as int,
                acc as int,
            ),
        decreases de - k,
    {
        let c = s.get_char(k);
        proof {
            assert(is_digit(s@[k as int]));
        }
        let d: i64 = ((c as u32) - ('0' as u32)) as i64;
        proof {
            assert(d == digit_val(s@[k as int]));
        }
        let m = match acc.checked_mul(10) {
            Some(m) => m,
            None => {
                proof {
                    assert(acc as int * 10 - digit_val(s@[k as int]) < i64::MIN as int);
                }
                return Err(mk_err(s, n, j, "invalid int"));
            },
        };
        let a2 = match m.checked_sub(d) {
            Some(a2) => a2,
            None => {
                return Err(mk_err(s, n, j, "invalid int"));
            },
        };
        acc = a2;
        k = k + 1;
    }
    if neg {
        Ok((Expr::Literal(Primitive::Int(acc)), de))
    } else if acc == i64::MIN {
        Err(mk_err(s, n, j, "invalid int"))
    } else {
        Ok((Expr::Literal(Primitive::Int(-acc)), de))
    }
}

/// The infix operator starting at `k`, with the count of characters it
/// spans; two-character operators win over their one-character prefixes.
pub open spec fn spec_peek_op(s: Seq<char>, k: int) -> Option<(BinaryOp, int)> {
    if 0 <= k && k + 1 < s.len() && s[k] == '|' && s[k + 1] == '|' {
        Some((BinaryOp::Or, 2))
    } else if 0 <= k && k + 1 < s.len() && s[k] == '&' && s[k + 1] == '&' {
        Some((BinaryOp::And, 2))
    } else if 0 <= k && k + 1 < s.len() && s[k] == '=' && s[k + 1] == '=' {
        Some((BinaryOp::Eq, 2))
    } else if 0 <= k && k + 1 < s.len() && s[k] == '!' && s[k + 1] == '=' {
        Some((BinaryOp::Ne, 2))
    } else if 0 <= k && k + 1 < s.len() && s[k] == '<' && s[k + 1] == '=' {
        Some((BinaryOp::Le, 2))
    } else if 0 <= k && k + 1 < s.len() && s[k] == '>' && s[k + 1] == '=' {
        Some((BinaryOp::Ge, 2))
    } else if 0 <= k < s.len() {
        if s[k] == '<' {
            Some((BinaryOp::Lt, 1))
        } else if s[k] == '>' {
            Some((BinaryOp::Gt, 1))
        } else if s[k] == '+' {
            Some((BinaryOp::Add, 1))
        } else if s[k] == '-' {
            Some((BinaryOp::Sub, 1))
        } else if s[k] == '*' {
            Some((BinaryOp::Mul, 1))
        } else if s[k] == '/' {
            Some((BinaryOp::Div, 1))
        } else if s[k] == '%' {
            Some((BinaryOp::Mod, 1))
        } else if s[k] == '^' {
            Some((BinaryOp::Pow, 1))
        } else {
            None
        }
    } else {
        None
    }
}

fn peek_op(s: &str, n: usize, k: usize) -> (r: Option<(BinaryOp, usize)>)
    requires
        n == s@.len(),
        k <= n,
    ensures
        match r {
            Some(p) => spec_peek_op(s@, k as int) == Some((p.0, p.1 as int)) && 1 <= p.1 <= 2
                && k + p.1 <= n && k < n,
            None => spec_peek_op(s@, k as int) is None,
        },
{
    if k < n && k + 1 < n {
        let a = s.get_char(k);
        let b = s.get_char(k + 1);
        if a == '|' && b == '|' {
            return Some((BinaryOp::Or, 2));
        }
        if a == '&' && b == '&' {
            return Some((BinaryOp::And, 2));
        }
        if a == '=' && b == '=' {
            return Some((BinaryOp::Eq, 2));
        }
        if a == '!' && b == '=' {
            return Some((BinaryOp::Ne, 2));
        }
        if a == '<' && b == '=' {
            return Some((BinaryOp::Le, 2));
        }
        if a == '>' && b == '=' {
            return Some((BinaryOp::Ge, 2));
        }
    }
    if k < n {
        let a = s.get_char(k);
        if a == '<' {
            Some((BinaryOp::Lt, 1))
        } else if a == '>' {
            Some((BinaryOp::Gt, 1))
        } else if a == '+' {
            Some((BinaryOp::Add, 1))
        } else if a == '-' {
            Some((BinaryOp::Sub, 1))
        } else if a == '*' {
            Some((BinaryOp::Mul, 1))
        } else if a == '/' {
            Some((BinaryOp::Div, 1))
        } else if a == '%' {
            Some((BinaryOp::Mod, 1))
        } else if a == '^' {
            Some((BinaryOp::Pow, 1))
        } else {
            None
        }
    } else {
        None
    }
}

/// The binding strength of an infix operator, loosest 1 to tightest 7.
pub open spec fn spec_prec(op: BinaryOp) -> int {
    match op {
        BinaryOp::Or => 1,
        BinaryOp::And => 2,
        BinaryOp::Eq => 3,
        BinaryOp::Ne => 3,
        BinaryOp::Lt => 4,
        BinaryOp::Le => 4,
        BinaryOp::Gt => 4,
        BinaryOp::Ge => 4,
        BinaryOp::Add => 5,
        BinaryOp::Sub => 5,
        BinaryOp::Mul => 6,
        BinaryOp::Div => 6,
        BinaryOp::Mod => 6,
        BinaryOp::Pow => 7,
    }
}

fn prec_of(op: BinaryOp) -> (r: u32)
    ensures
        r as int == spec_prec(op),
        1 <= r <= 7,
{
    match op {
        BinaryOp::Or => 1,
        BinaryOp::And => 2,
        BinaryOp::Eq => 3,
        BinaryOp::Ne => 3,
        BinaryOp::Lt => 4,
        BinaryOp::Le => 4,
        BinaryOp::Gt => 4,
        BinaryOp::Ge => 4,
        BinaryOp::Add => 5,
        BinaryOp::Sub => 5,
        BinaryOp::Mul => 6,
        BinaryOp::Div => 6,
        BinaryOp::Mod => 6,
        BinaryOp::Pow => 7,
    }
}

/// A sub-parse position forced to make progress past `lo` and to stay in
/// bounds; on positions an actual parse produces this is the identity.
pub open spec fn adv(lo: int, hi: int, j: int) -> int {
    if lo >= hi {
        hi
    } else if j <= lo {
        lo + 1
    } else if j > hi {
        hi
    } else {
        j
    }
}

/// A position clamped into `[lo, hi]`; the identity on in-range positions.
pub open spec fn adv_ge(lo: int, hi: int, j: int) -> int {
    if j < lo {
        lo
    } else if j > hi {
        hi
    } else {
        j
    }
}

/// What parsing a delimited item sequence produces.
pub enum ItemsOut {
    Done(Seq<ExprV>, int),
    Fail(ErrorV),
}

/// What parsing a dictionary entry sequence produces.
pub enum PairsOut {
    Done(Seq<(ExprV, ExprV)>, int),
    Fail(ErrorV),
}

/// A primary expression: a literal, a variable, a parenthesized
/// expression, a list literal or a dictionary literal.
pub open spec fn spec_parse_primary(s: Seq<char>, i: int) -> ParseOut
    decreases s.len() - i, 1int,
{
    if !(0 <= i <= s.len()) {
        ParseOut::Fail(spec_mk_err(s, 0, "position out of range"@))
    } else {
        let j = adv_ge(i, s.len() as int, spec_skip_ws(s, i));
        if j >= s.len() {
            ParseOut::Fail(spec_mk_err(s, j, "expected expression"@))
        } else {
            let c = s[j];
            if is_digit(c) || (c == '-' && j + 1 < s.len() && is_digit(s[j + 1])) {
                spec_parse_number(s, j)
            } else if c == '\'' || c == '"' {
                match spec_str_end(s, j + 1, c) {
                    None => ParseOut::Fail(spec_mk_err(s, j, "unterminated string literal"@)),
                    Some(e) => match spec_unescape(s.subrange(j, e + 1)) {
                        Ok(body) => ParseOut::Done(ExprV::Literal(PrimitiveV::Str(body)), e + 1),
                        Err(er) => ParseOut::Fail(er),
                    },
                }
            } else if is_ident_start(c) {
                let ie = adv(j, s.len() as int, spec_scan_ident(s, j));
                let name = s.subrange(j, ie);
                if name == "true"@ {
                    ParseOut::Done(ExprV::Literal(PrimitiveV::Bool(true)), ie)
                } else if name == "false"@ {
                    ParseOut::Done(ExprV::Literal(PrimitiveV::Bool(false)), ie)
                } else {
                    ParseOut::Done(ExprV::Var(name), ie)
                }
            } else if c == '(' {
                match spec_parse_expr(s, j + 1, 1) {
                    ParseOut::Fail(e) => ParseOut::Fail(e),
                    ParseOut::Done(inner, m0) => {
                        let m = adv(j, s.len() as int, m0);
                        let k = adv_ge(m, s.len() as int, spec_skip_ws(s, m));
                        if k < s.len() && s[k] == ')' {
                            ParseOut::Done(inner, k + 1)
                        } else {
                            ParseOut::Fail(spec_mk_err(s, k, "expected closing parenthesis"@))
                        }
                    },
                }
            } else if c == '[' {
                match spec_parse_items(s, j + 1, Seq::empty(), ']') {
                    ItemsOut::Fail(e) => ParseOut::Fail(e),
                    ItemsOut::Done(es, m) => ParseOut::Done(ExprV::ListLiteral(es), m),
                }
            } else if c == '{' {
                match spec_parse_pairs(s, j + 1, Seq::empty()) {
                    PairsOut::Fail(e) => ParseOut::Fail(e),
                    PairsOut::Done(ps, m) => ParseOut::Done(ExprV::DictLiteral(ps), m),
                }
            } else {
                ParseOut::Fail(spec_mk_err(s, j, "expected expression"@))
            }
        }
    }
}

/// The comma-separated expressions up to the closing delimiter, a trailing
/// comma allowed.
pub open spec fn spec_parse_items(s: Seq<char>, i: int, acc: Seq<ExprV>, close: char) -> ItemsOut
    decreases s.len() - i, 5int,
{
    if !(0 <= i <= s.len()) {
        ItemsOut::Fail(spec_mk_err(s, 0, "position out of range"@))
    } else {
        let k = adv_ge(i, s.len() as int, spec_skip_ws(s, i));
        if k >= s.len() {
            ItemsOut::Fail(spec_mk_err(s, k, "unterminated sequence"@))
        } else if s[k] == close {
            ItemsOut::Done(acc, k + 1)
        } else {
            match spec_parse_expr(s, k, 1) {
                ParseOut::Fail(e) => ItemsOut::Fail(e),
                ParseOut::Done(e, m0) => {
                    let m = adv(i, s.len() as int, m0);
                    let k2 = adv_ge(m, s.len() as int, spec_skip_ws(s, m));
                    if k2 < s.len() && s[k2] == ',' {
                        spec_parse_items(s, k2 + 1, acc.push(e), close)
                    } else if k2 < s.len() && s[k2] == close {
                        ItemsOut::Done(acc.push(e), k2 + 1)
                    } else {
                        ItemsOut::Fail(spec_mk_err(s, k2, "expected ',' or closing delimiter"@))
                    }
                },
            }
        }
    }
}

/// The comma-separated `key: value` entries up to the closing curly brace,
/// a trailing comma allowed.
pub open spec fn spec_parse_pairs(s: Seq<char>, i: int, acc: Seq<(ExprV, ExprV)>) -> PairsOut
    decreases s.len() - i, 5int,
{
    if !(0 <= i <= s.len()) {
        PairsOut::Fail(spec_mk_err(s, 0, "position out of range"@))
    } else {
        let k = adv_ge(i, s.len() as int, spec_skip_ws(s, i));
        if k >= s.len() {
            PairsOut::Fail(spec_mk_err(s, k, "unterminated sequence"@))
        } else if s[k] == '}' {
            PairsOut::Done(acc, k + 1)
        } else {
            match spec_parse_expr(s, k, 1) {
                ParseOut::Fail(e) => PairsOut::Fail(e),
                ParseOut::Done(kexpr, m0) => {
                    let m = adv(i, s.len() as int, m0);
                    let kc = adv_ge(m, s.len() as int, spec_skip_ws(s, m));
                    if !(kc < s.len() && s[kc] == ':') {
                        PairsOut::Fail(spec_mk_err(s, kc, "expected ':'"@))
                    } else {
                        match spec_parse_expr(s, kc + 1, 1) {
                            ParseOut::Fail(e) => PairsOut::Fail(e),
                            ParseOut::Done(vexpr, v0) => {
                                let v = adv(kc, s.len() as int, v0);
                                let k2 = adv_ge(v, s.len() as int, spec_skip_ws(s, v));
                                if k2 < s.len() && s[k2] == ',' {
                                    spec_parse_pairs(s, k2 + 1, acc.push((kexpr, vexpr)))
                                } else if k2 < s.len() && s[k2] == '}' {
                                    PairsOut::Done(acc.push((kexpr, vexpr)), k2 + 1)
                                } else {
                                    PairsOut::Fail(
                                        spec_mk_err(s, k2, "expected ',' or closing delimiter"@),
                                    )
                                }
                            },
                        }
                    }
                },
            }
        }
    }
}

/// The postfix chain after a primary: calls, index accesses and member
/// accesses, repeated in source order.
pub open spec fn spec_parse_suffixes(s: Seq<char>, lhs: ExprV, i: int) -> ParseOut
    decreases s.len() - i, 1int,
{
    if !(0 <= i <= s.len()) {
        ParseOut::Fail(spec_mk_err(s, 0, "position out of range"@))
    } else if i >= s.len() {
        ParseOut::Done(lhs, i)
    } else {
        let k = adv_ge(i, s.len() as int, spec_skip_ws(s, i));
        if k < s.len() && s[k] == '(' {
            match spec_parse_items(s, k + 1, Seq::empty(), ')') {
                ItemsOut::Fail(e) => ParseOut::Fail(e),
                ItemsOut::Done(args, m0) => {
                    let m = adv(i, s.len() as int, m0);
                    spec_parse_suffixes(s, ExprV::Call { callee: Box::new(lhs), args }, m)
                },
            }
        } else if k < s.len() && s[k] == '[' {
            match spec_parse_expr(s, k + 1, 1) {
                ParseOut::Fail(e) => ParseOut::Fail(e),
                ParseOut::Done(idx, m0) => {
                    let m = adv_ge(k + 1, s.len() as int, m0);
                    let k2 = adv_ge(m, s.len() as int, spec_skip_ws(s, m));
                    if k2 < s.len() && s[k2] == ']' {
                        spec_parse_suffixes(
                            s,
                            ExprV::Index { object: Box::new(lhs), index: Box::new(idx) },
                            adv(i, s.len() as int, k2 + 1),
                        )
                    } else {
                        ParseOut::Fail(spec_mk_err(s, k2, "expected ']'"@))
                    }
                },
            }
        } else if k < s.len() && s[k] == '.' {
            let k2 = adv_ge(k + 1, s.len() as int, spec_skip_ws(s, k + 1));
            if k2 < s.len() && is_ident_start(s[k2]) {
                let ie = adv(k2, s.len() as int, spec_scan_ident(s, k2));
                spec_parse_suffixes(
                    s,
                    ExprV::Member { object: Box::new(lhs), field: s.subrange(k2, ie) },
                    adv(i, s.len() as int, ie),
                )
            } else {
                ParseOut::Fail(spec_mk_err(s, k2, "expected member name"@))
            }
        } else {
            ParseOut::Done(lhs, i)
        }
    }
}

/// A primary followed by its postfix chain.
pub open spec fn spec_parse_postfix(s: Seq<char>, i: int) -> ParseOut
    decreases s.len() - i, 2int,
{
    if !(0 <= i <= s.len()) {
        ParseOut::Fail(spec_mk_err(s, 0, "position out of range"@))
    } else {
        match spec_parse_primary(s, i) {
            ParseOut::Fail(e) => ParseOut::Fail(e),
            ParseOut::Done(e, j) => spec_parse_suffixes(s, e, adv(i, s.len() as int, j)),
        }
    }
}

/// Zero or more `!` followed by a postfix expression.
pub open spec fn spec_parse_unary(s: Seq<char>, i: int) -> ParseOut
    decreases s.len() - i, 3int,
{
    if !(0 <= i <= s.len()) {
        ParseOut::Fail(spec_mk_err(s, 0, "position out of range"@))
    } else {
        let j = adv_ge(i, s.len() as int, spec_skip_ws(s, i));
        if j < s.len() && s[j] == '!' {
            match spec_parse_unary(s, j + 1) {
                ParseOut::Fail(e) => ParseOut::Fail(e),
                ParseOut::Done(e, m) => ParseOut::Done(
                    ExprV::Unary { op: UnaryOp::Not, expr: Box::new(e) },
                    m,
                ),
            }
        } else {
            spec_parse_postfix(s, i)
        }
    }
}

/// The infix continuation: operators of at least `min_prec` are folded
/// onto `lhs`, left-associatively except the right-associative `^`.
pub open spec fn spec_parse_infix(s: Seq<char>, lhs: ExprV, j: int, min_prec: int) -> ParseOut
    decreases s.len() - j, 2int,
{
    if !(0 <= j <= s.len()) {
        ParseOut::Fail(spec_mk_err(s, 0, "position out of range"@))
    } else if j >= s.len() {
        ParseOut::Done(lhs, j)
    } else {
        let k = adv_ge(j, s.len() as int, spec_skip_ws(s, j));
        if k >= s.len() {
            ParseOut::Done(lhs, j)
        } else {
            match spec_peek_op(s, k) {
                None => ParseOut::Done(lhs, j),
                Some((op, clen)) => {
                    if spec_prec(op) < min_prec {
                        ParseOut::Done(lhs, j)
                    } else {
                        let next_min = if op == BinaryOp::Pow {
                            spec_prec(op)
                        } else {
                            spec_prec(op) + 1
                        };
                        let c1 = if clen < 1 {
                            1
                        } else if clen > 2 {
                            2
                        } else {
                            clen
                        };
                        let p = if k + c1 > s.len() {
                            s.len() as int
                        } else {
                            k + c1
                        };
                        match spec_parse_expr(s, p, next_min) {
                            ParseOut::Fail(e) => ParseOut::Fail(e),
                            ParseOut::Done(rhs, m0) => {
                                let m = adv(j, s.len() as int, m0);
                                spec_parse_infix(
                                    s,
                                    ExprV::Binary {
                                        op,
                                        left: Box::new(lhs),
                                        right: Box::new(rhs),
                                    },
                                    m,
                                    min_prec,
                                )
                            },
                        }
                    }
                },
            }
        }
    }
}

/// An expression whose operators all bind at least as tightly as
/// `min_prec`: a unary expression followed by its infix continuation.
pub open spec fn spec_parse_expr(s: Seq<char>, i: int, min_prec: int) -> ParseOut
    decreases s.len() - i, 4int,
{
    if !(0 <= i <= s.len()) {
        ParseOut::Fail(spec_mk_err(s, 0, "position out of range"@))
    } else {
        match spec_parse_unary(s, i) {
            ParseOut::Fail(e) => ParseOut::Fail(e),
            ParseOut::Done(lhs, j0) => {
                let j = adv_ge(i, s.len() as int, j0);
                spec_parse_infix(s, lhs, j, min_prec)
            },
        }
    }
}

/// Whether an executable item-sequence result agrees with its model.
pub open spec fn items_conforms(r: Result<(Vec<Expr>, usize), Error>, o: ItemsOut) -> bool {
    match o {
        ItemsOut::Done(es, j) => match r {
            Ok(p) => view_exprs(p.0@) == es && p.1 as int == j,
            Err(_) => false,
        },
        ItemsOut::Fail(e) => match r {
            Ok(_) => false,
            Err(re) => re@ == e,
        },
    }
}

/// Whether an executable entry-sequence result agrees with its model.
pub open spec fn pairs_conforms(r: Result<(Vec<(Expr, Expr)>, usize), Error>, o: PairsOut) -> bool {
    match o {
        PairsOut::Done(ps, j) => match r {
            Ok(p) => view_expr_pairs(p.0@) == ps && p.1 as int == j,
            Err(_) => false,
        },
        PairsOut::Fail(e) => match r {
            Ok(_) => false,
            Err(re) => re@ == e,
        },
    }
}

fn parse_primary(s: &str, n: usize, i: usize) -> (r: Result<(Expr, usize), Error>)
    requires
        n == s@.len(),
        i <= n,
    ensures
        parse_conforms(r, spec_parse_primary(s@, i as int)),
        r matches Ok(p) ==> i < p.1 <= n,
    decreases n - i, 1int,
{
    let j = skip_ws(s, n, i);
    if j >= n {
        return Err(mk_err(s, n, j, "expected expression"));
    }
    let c = s.get_char(j);
    if exec_is_digit(c) || (c == '-' && j + 1 < n && exec_is_digit(s.get_char(j + 1))) {
        parse_number(s, n, j)
    } else if c == '\'' || c == '"' {
        match str_end(s, n, j + 1, c) {
            None => Err(mk_err(s, n, j, "unterminated string literal")),
            Some(e) => {
                let lexeme = s.substring_char(j, e + 1);
                match unescape_string(lexeme) {
                    Ok(body) => Ok((Expr::Literal(Primitive::Str(body)), e + 1)),
                    Err(er) => Err(er),
                }
            },
        }
    } else if exec_is_ident_start(c) {
        let ie = scan_ident(s, n, j + 1);
        proof {
            assert(is_ident_char(s@[j as int]));
            assert(spec_scan_ident(s@, j as int) == ie as int);
        }
        let name = s.substring_char(j, ie);
        if str_eq(name, "true") {
            Ok((Expr::Literal(Primitive::Bool(true)), ie))
        } else if str_eq(name, "false") {
            Ok((Expr::Literal(Primitive::Bool(false)), ie))
        } else {
            Ok((Expr::Var(name.to_owned()), ie))
        }
    } else if c == '(' {
        match parse_expr_prec(s, n, j + 1, 1) {
            Err(e) => Err(e),
            Ok((inner, m0)) => {
                let k = skip_ws(s, n, m0);
                if k < n && s.get_char(k) == ')' {
                    Ok((inner, k + 1))
                } else {
                    Err(mk_err(s, n, k, "expected closing parenthesis"))
                }
            },
        }
    } else if c == '[' {
        match parse_items(s, n, j + 1, Vec::new(), ']') {
            Err(e) => Err(e),
            Ok((es, m)) => {
                proof {
                    assert(view_exprs(Seq::<Expr>::empty()) =~= Seq::<ExprV>::empty());
                }
                Ok((Expr::ListLiteral(es), m))
            },
        }
    } else if c == '{' {
        match parse_pairs(s, n, j + 1, Vec::new()) {
            Err(e) => Err(e),
            Ok((ps, m)) => {
                proof {
                    assert(view_expr_pairs(Seq::<(Expr, Expr)>::empty()) =~= Seq::<
                        (ExprV, ExprV),
                    >::empty());
                }
                Ok((Expr::DictLiteral(ps), m))
            },
        }
    } else {
        Err(mk_err(s, n, j, "expected expression"))
    }
}

fn parse_items(s: &str, n: usize, i: usize, acc: Vec<Expr>, close: char) -> (r: Result<
    (Vec<Expr>, usize),
    Error,
>)
    requires
        n == s@.len(),
        i <= n,
    ensures
        items_conforms(r, spec_parse_items(s@, i as int, view_exprs(acc@), close)),
        r matches Ok(p) ==> i < p.1 <= n,
    decreases n - i, 5int,
{
    let k = skip_ws(s, n, i);
    if k >= n {
        return Err(mk_err(s, n, k, "unterminated sequence"));
    }
    if s.get_char(k) == close {
        return Ok((acc, k + 1));
    }
    match parse_expr_prec(s, n, k, 1) {
        Err(e) => Err(e),
        Ok((e, m0)) => {
            let k2 = skip_ws(s, n, m0);
            if k2 < n && s.get_char(k2) == ',' {
                let ghost accv = acc@;
                let mut acc2 = acc;
                proof {
                    lemma_view_exprs_push(accv, e);
                }
                acc2.push(e);
                parse_items(s, n, k2 + 1, acc2, close)
            } else if k2 < n && s.get_char(k2) == close {
                let ghost accv = acc@;
                let mut acc2 = acc;
                proof {
                    lemma_view_exprs_push(accv, e);
                }
                acc2.push(e);
                Ok((acc2, k2 + 1))
            } else {
                Err(mk_err(s, n, k2, "expected ',' or closing delimiter"))
            }
        },
    }
}

fn parse_pairs(s: &str, n: usize, i: usize, acc: Vec<(Expr, Expr)>) -> (r: Result<
    (Vec<(Expr, Expr)>, usize),
    Error,
>)
    requires
        n == s@.len(),
        i <= n,
    ensures
        pairs_conforms(r, spec_parse_pairs(s@, i as int, view_expr_pairs(acc@))),
        r matches Ok(p) ==> i < p.1 <= n,
    decreases n - i, 5int,
{
    let k = skip_ws(s, n, i);
    if k >= n {
        return Err(mk_err(s, n, k, "unterminated sequence"));
    }
    if s.get_char(k) == '}' {
        return Ok((acc, k + 1));
    }
    match parse_expr_prec(s, n, k, 1) {
        Err(e) => Err(e),
        Ok((kexpr, m0)) => {
            let kc = skip_ws(s, n, m0);
            if !(kc < n && s.get_char(kc) == ':') {
                return Err(mk_err(s, n, kc, "expected ':'"));
            }
            match parse_expr_prec(s, n, kc + 1, 1) {
                Err(e) => Err(e),
                Ok((vexpr, v0)) => {
                    let k2 = skip_ws(s, n, v0);
                    if k2 < n && s.get_char(k2) == ',' {
                        let ghost accv = acc@;
                        let mut acc2 = acc;
                        proof {
                            lemma_view_expr_pairs_push(accv, kexpr, vexpr);
                        }
                        acc2.push((kexpr, vexpr));
                        parse_pairs(s, n, k2 + 1, acc2)
                    } else if k2 < n && s.get_char(k2) == '}' {
                        let ghost accv = acc@;
                        let mut acc2 = acc;
                        proof {
                            lemma_view_expr_pairs_push(accv, kexpr, vexpr);
                        }
                        acc2.push((kexpr, vexpr));
                        Ok((acc2, k2 + 1))
                    } else {
                        Err(mk_err(s, n, k2, "expected ',' or closing delimiter"))
                    }
                },
            }
        },
    }
}

fn parse_suffixes(s: &str, n: usize, lhs: Expr, i: usize) -> (r: Result<(Expr, usize), Error>)
    requires
        n == s@.len(),
        i <= n,
    ensures
        parse_conforms(r, spec_parse_suffixes(s@, lhs@, i as int)),
        r matches Ok(p) ==> i <= p.1 <= n,
    decreases n - i, 1int,
{
    if i >= n {
        return Ok((lhs, i));
    }
    let k = skip_ws(s, n, i);
    if k < n && s.get_char(k) == '(' {
        match parse_items(s, n, k + 1, Vec::new(), ')') {
            Err(e) => Err(e),
            Ok((args, m0)) => {
                proof {
                    assert(view_exprs(Seq::<Expr>::empty()) =~= Seq::<ExprV>::empty());
                }
                parse_suffixes(s, n, Expr::Call { callee: Box::new(lhs), args }, m0)
            },
        }
    } else if k < n && s.get_char(k) == '[' {
        match parse_expr_prec(s, n, k + 1, 1) {
            Err(e) => Err(e),
            Ok((idx, m0)) => {
                let k2 = skip_ws(s, n, m0);
                if k2 < n && s.get_char(k2) == ']' {
                    parse_suffixes(
                        s,
                        n,
                        Expr::Index { object: Box::new(lhs), index: Box::new(idx) },
                        k2 + 1,
                    )
                } else {
                    Err(mk_err(s, n, k2, "expected ']'"))
                }
            },
        }
    } else if k < n && s.get_char(k) == '.' {
        let k2 = skip_ws(s, n, k + 1);
        if k2 < n && exec_is_ident_start(s.get_char(k2)) {
            let ie = scan_ident(s, n, k2 + 1);
            proof {
                assert(is_ident_char(s@[k2 as int]));
                assert(spec_scan_ident(s@, k2 as int) == ie as int);
            }
            let name = s.substring_char(k2, ie).to_owned();
            parse_suffixes(s, n, Expr::Member { object: Box::new(lhs), field: name }, ie)
        } else {
            Err(mk_err(s, n, k2, "expected member name"))
        }
    } else {
        Ok((lhs, i))
    }
}

fn parse_postfix(s: &str, n: usize, i: usize) -> (r: Result<(Expr, usize), Error>)
    requires
        n == s@.len(),
        i <= n,
    ensures
        parse_conforms(r, spec_parse_postfix(s@, i as int)),
        r matches Ok(p) ==> i < p.1 <= n,
    decreases n - i, 2int,
{
    match parse_primary(s, n, i) {
        Err(e) => Err(e),
        Ok((e, j)) => parse_suffixes(s, n, e, j),
    }
}

fn parse_unary(s: &str, n: usize, i: usize) -> (r: Result<(Expr, usize), Error>)
    requires
        n == s@.len(),
        i <= n,
    ensures
        parse_conforms(r, spec_parse_unary(s@, i as int)),
        r matches Ok(p) ==> i < p.1 <= n,
    decreases n - i, 3int,
{
    let j = skip_ws(s, n, i);
    if j < n && s.get_char(j) == '!' {
        match parse_unary(s, n, j + 1) {
            Err(e) => Err(e),
            Ok((e, m)) => Ok((Expr::Unary { op: UnaryOp::Not, expr: Box::new(e) }, m)),
        }
    } else {
        parse_postfix(s, n, i)
    }
}

fn parse_infix(s: &str, n: usize, lhs: Expr, j: usize, min_prec: u32) -> (r: Result<
    (Expr, usize),
    Error,
>)
    requires
        n == s@.len(),
        j <= n,
    ensures
        parse_conforms(r, spec_parse_infix(s@, lhs@, j as int, min_prec as int)),
        r matches Ok(p) ==> j <= p.1 <= n,
    decreases n - j, 2int,
{
    if j >= n {
        return Ok((lhs, j));
    }
    let k = skip_ws(s, n, j);
    if k >= n {
        return Ok((lhs, j));
    }
    match peek_op(s, n, k) {
        None => Ok((lhs, j)),
        Some((op, clen)) => {
            let prec = prec_of(op);
            if prec < min_prec {
                return Ok((lhs, j));
            }
            let next_min: u32 = if op == BinaryOp::Pow {
                prec
            } else {
                prec + 1
            };
            let p = k + clen;
            match parse_expr_prec(s, n, p, next_min) {
                Err(e) => Err(e),
                Ok((rhs, m0)) => parse_infix(
                    s,
                    n,
                    Expr::Binary { op, left: Box::new(lhs), right: Box::new(rhs) },
                    m0,
                    min_prec,
                ),
            }
        },
    }
}

fn parse_expr_prec(s: &str, n: usize, i: usize, min_prec: u32) -> (r: Result<(Expr, usize), Error>)
    requires
        n == s@.len(),
        i <= n,
    ensures
        parse_conforms(r, spec_parse_expr(s@, i as int, min_prec as int)),
        r matches Ok(p) ==> i < p.1 <= n,
    decreases n - i, 4int,
{
    match parse_unary(s, n, i) {
        Err(e) => Err(e),
        Ok((lhs, j0)) => parse_infix(s, n, lhs, j0, min_prec),
    }
}

/// A whole source text parsed as one expression: nothing but whitespace
/// and comments may follow it.
pub open spec fn spec_parse_expression(s: Seq<char>) -> Result<ExprV, ErrorV> {
    match spec_parse_expr(s, 0, 1) {
        ParseOut::Fail(e) => Err(e),
        ParseOut::Done(e, j0) => {
            let j = adv_ge(0, s.len() as int, j0);
            let k = adv_ge(j, s.len() as int, spec_skip_ws(s, j));
            if k == s.len() {
                Ok(e)
            } else {
                Err(spec_mk_err(s, k, "unexpected trailing text"@))
            }
        },
    }
}

/// An expression that must be followed by `}`; the position returned
/// includes that closing brace.
pub open spec fn spec_parse_in_braces(s: Seq<char>) -> ParseOut {
    match spec_parse_expr(s, 0, 1) {
        ParseOut::Fail(e) => ParseOut::Fail(e),
        ParseOut::Done(e, j0) => {
            let j = adv_ge(0, s.len() as int, j0);
            let k = adv_ge(j, s.len() as int, spec_skip_ws(s, j));
            if k < s.len() && s[k] == '}' {
                ParseOut::Done(e, k + 1)
            } else {
                ParseOut::Fail(spec_mk_err(s, k, "expected '}'"@))
            }
        },
    }
}

/// Source text parsed into an expression tree, or a parse error with a
/// snippet of the offending text.
pub fn parse_expression(input: &str) -> (r: Result<Expr, Error>)
    ensures
        match r {
            Ok(e) => spec_parse_expression(input@) == Ok::<ExprV, ErrorV>(e@),
            Err(er) => spec_parse_expression(input@) == Err::<ExprV, ErrorV>(er@),
        },
{
    let n: usize = input.unicode_len();
    match parse_expr_prec(input, n, 0, 1) {
        Err(e) => Err(e),
        Ok((e, j)) => {
            let k = skip_ws(input, n, j);
            if k == n {
                Ok(e)
            } else {
                Err(mk_err(input, n, k, "unexpected trailing text"))
            }
        },
    }
}

/// An expression immediately followed by a closing `}`: the result carries
/// the number of characters consumed, that brace included.  The same
/// string-literal grammar applies, so a `}` inside a quoted string is
/// never mistaken for the terminator.
pub fn parse_in_braces(input: &str) -> (r: Result<(Expr, usize), Error>)
    ensures
        parse_conforms(r, spec_parse_in_braces(input@)),
        r matches Ok(p) ==> 0 < p.1 <= input@.len(),
{
    let n: usize = input.unicode_len();
    match parse_expr_prec(input, n, 0, 1) {
        Err(e) => Err(e),
        Ok((e, j)) => {
            let k = skip_ws(input, n, j);
            if k < n && input.get_char(k) == '}' {
                Ok((e, k + 1))
            } else {
                Err(mk_err(input, n, k, "expected '}'"))
            }
        },
    }
}

} // verus!
