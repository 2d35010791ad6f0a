//! The immutable syntax tree a parse produces and an evaluation walks.
use vstd::prelude::*;

use crate::value::{Primitive, PrimitiveV};

verus! {

/// The one prefix operator of the language.
#[derive(Debug, Clone, Copy, PartialEq, Eq, Structural)]
pub enum UnaryOp {
    Not,
}

/// The infix operators, loosest (`||`) to tightest (`^`).
#[derive(Debug, Clone, Copy, PartialEq, Eq, Structural)]
pub enum BinaryOp {
    Or,
    And,
    Eq,
    Ne,
    Lt,
    Le,
    Gt,
    Ge,
    Add,
    Sub,
    Mul,
    Div,
    Mod,
    Pow,
}

/// A parsed expression: built once by the parser, never mutated.
#[derive(Debug, PartialEq)]
pub enum Expr {
    Literal(Primitive),
    Var(String),
    ListLiteral(Vec<Expr>),
    DictLiteral(Vec<(Expr, Expr)>),
    Member { object: Box<Expr>, field: String },
    Index { object: Box<Expr>, index: Box<Expr> },
    Call { callee: Box<Expr>, args: Vec<Expr> },
    Unary { op: UnaryOp, expr: Box<Expr> },
    Binary { op: BinaryOp, left: Box<Expr>, right: Box<Expr> },
}

/// The mathematical model of an [`Expr`].
pub enum ExprV {
    Literal(PrimitiveV),
    Var(Seq<char>),
    ListLiteral(Seq<ExprV>),
    DictLiteral(Seq<(ExprV, ExprV)>),
    Member { object: Box<ExprV>, field: Seq<char> },
    Index { object: Box<ExprV>, index: Box<ExprV> },
    Call { callee: Box<ExprV>, args: Seq<ExprV> },
    Unary { op: UnaryOp, expr: Box<ExprV> },
    Binary { op: BinaryOp, left: Box<ExprV>, right: Box<ExprV> },
}

/// The models of the elements of an expression list.
pub open spec fn view_exprs(s: Seq<Expr>) -> Seq<ExprV>
    decreases s,
{
    if s.len() == 0 {
        Seq::empty()
    } else {
        view_exprs(s.drop_last()).push(view_expr(&s.last()))
    }
}

/// The models of the entries of a dictionary literal.
pub open spec fn view_expr_pairs(s: Seq<(Expr, Expr)>) -> Seq<(ExprV, ExprV)>
    decreases s,
{
    if s.len() == 0 {
        Seq::empty()
    } else {
        view_expr_pairs(s.drop_last()).push((view_expr(&s.last().0), view_expr(&s.last().1)))
    }
}

/// The model of a single expression.
pub open spec fn view_expr(e: &Expr) -> ExprV
    decreases e,
{
    {
        match e {
            Expr::Literal(p) => ExprV::Literal(p@),
            Expr::Var(name) => ExprV::Var(name@),
            Expr::ListLiteral(items) => ExprV::ListLiteral(view_exprs(items@)),
            Expr::DictLiteral(pairs) => ExprV::DictLiteral(view_expr_pairs(pairs@)),
            Expr::Member { object, field } => ExprV::Member {
                object: Box::new(view_expr(&**object)),
                field: field@,
            },
            Expr::Index { object, index } => ExprV::Index {
                object: Box::new(view_expr(&**object)),
                index: Box::new(view_expr(&**index)),
            },
            Expr::Call { callee, args } => ExprV::Call {
                callee: Box::new(view_expr(&**callee)),
                args: view_exprs(args@),
            },
            Expr::Unary { op, expr } => ExprV::Unary { op: *op, expr: Box::new(view_expr(&**expr)) },
            Expr::Binary { op, left, right } => ExprV::Binary {
                op: *op,
                left: Box::new(view_expr(&**left)),
                right: Box::new(view_expr(&**right)),
            },
        }
    }
}

impl View for Expr {
    type V = ExprV;

    open spec fn view(&self) -> ExprV {
        view_expr(self)
    }
}

/// `view_exprs` is the element-wise model of the sequence.
pub proof fn lemma_view_exprs(s: Seq<Expr>)
    ensures
        view_exprs(s).len() == s.len(),
        forall|i: int| 0 <= i < s.len() ==> view_exprs(s)[i] == view_expr(&#[trigger] s[i]),
    decreases s,
{
    if s.len() > 0 {
        lemma_view_exprs(s.drop_last());
        assert(view_exprs(s) == view_exprs(s.drop_last()).push(view_expr(&s.last())));
        assert forall|i: int|
            0 <= i < s.len() implies view_exprs(s)[i] == view_expr(&#[trigger] s[i]) by {
            if i < s.len() - 1 {
                assert(s.drop_last()[i] == s[i]);
                assert(view_exprs(s)[i] == view_exprs(s.drop_last())[i]);
            } else {
                assert(s[i] == s.last());
            }
        }
    }
}

/// `view_expr_pairs` is the entry-wise model of the sequence.
pub proof fn lemma_view_expr_pairs(s: Seq<(Expr, Expr)>)
    ensures
        view_expr_pairs(s).len() == s.len(),
        forall|i: int|
            0 <= i < s.len() ==> view_expr_pairs(s)[i] == (
            view_expr(&(#[trigger] s[i]).0),
            view_expr(&s[i].1),
            ),
    decreases s,
{
    if s.len() > 0 {
        lemma_view_expr_pairs(s.drop_last());
        assert(view_expr_pairs(s) == view_expr_pairs(s.drop_last()).push(
            (view_expr(&s.last().0), view_expr(&s.last().1)),
        ));
        assert forall|i: int|
            0 <= i < s.len() implies view_expr_pairs(s)[i] == (
            view_expr(&(#[trigger] s[i]).0),
            view_expr(&s[i].1),
        ) by {
            if i < s.len() - 1 {
                assert(s.drop_last()[i] == s[i]);
                assert(view_expr_pairs(s)[i] == view_expr_pairs(s.drop_last())[i]);
            } else {
                assert(s[i] == s.last());
            }
        }
    }
}

/// Appending one expression appends its model.
pub proof fn lemma_view_exprs_push(s: Seq<Expr>, e: Expr)
    ensures
        view_exprs(s.push(e)) == view_exprs(s).push(view_expr(&e)),
{
    assert(s.push(e).drop_last() =~= s);
    assert(s.push(e).last() == e);
}

/// Appending one entry appends its model.
pub proof fn lemma_view_expr_pairs_push(s: Seq<(Expr, Expr)>, k: Expr, v: Expr)
    ensures
        view_expr_pairs(s.push((k, v))) == view_expr_pairs(s).push(
            (view_expr(&k), view_expr(&v)),
        ),
{
    assert(s.push((k, v)).drop_last() =~= s);
    assert(s.push((k, v)).last() == (k, v));
}

} // verus!
