//! The error taxonomy shared by the parser and the evaluator.
//!
//! Every failure carries the offending identifier, member, index or source
//! snippet, so a host can report it without consulting engine internals.
use vstd::prelude::*;

use crate::decimal::{int_to_string, spec_dec_str, usize_to_string};

verus! {

/// What can go wrong while parsing or evaluating an expression.
#[derive(Debug, Clone, PartialEq)]
pub enum Error {
    /// A free variable that the host's resolver did not know.
    ResolveFailed(String),
    /// A call whose callee is not a function value.
    NotCallable,
    /// An operator applied to operands of the wrong kinds.
    TypeMismatch(String),
    /// A division or modulo whose divisor is zero.
    DivideByZero,
    /// A native function reported a failure, or a wrong argument count.
    EvaluationFailed(String),
    /// Malformed source text: the message and a snippet of the offending text.
    ParseFailed(String, String),
    /// An operation the engine does not provide.
    Unsupported(String),
    /// A strict list index outside `[-len, len)`.
    IndexOutOfBounds { index: i64, len: usize },
    /// An index value whose kind does not fit the indexed container.
    WrongIndexType { target: &'static str, message: String },
    /// An index applied to a value that is not indexable at all.
    NotIndexable(String),
    /// A strict dictionary lookup whose key is absent.
    NoSuchKey(String),
    /// A member access that the receiver's kind does not offer.
    UnknownMember { kind_name: String, member: String },
}

/// The mathematical model of an [`Error`], over character sequences.
pub enum ErrorV {
    ResolveFailed(Seq<char>),
    NotCallable,
    TypeMismatch(Seq<char>),
    DivideByZero,
    EvaluationFailed(Seq<char>),
    ParseFailed(Seq<char>, Seq<char>),
    Unsupported(Seq<char>),
    IndexOutOfBounds { index: int, len: int },
    WrongIndexType { target: Seq<char>, message: Seq<char> },
    NotIndexable(Seq<char>),
    NoSuchKey(Seq<char>),
    UnknownMember { kind_name: Seq<char>, member: Seq<char> },
}

impl View for Error {
    type V = ErrorV;

    open spec fn view(&self) -> ErrorV {
        match self {
            Error::ResolveFailed(n) => ErrorV::ResolveFailed(n@),
            Error::NotCallable => ErrorV::NotCallable,
            Error::TypeMismatch(m) => ErrorV::TypeMismatch(m@),
            Error::DivideByZero => ErrorV::DivideByZero,
            Error::EvaluationFailed(m) => ErrorV::EvaluationFailed(m@),
            Error::ParseFailed(m, s) => ErrorV::ParseFailed(m@, s@),
            Error::Unsupported(m) => ErrorV::Unsupported(m@),
            Error::IndexOutOfBounds { index, len } => ErrorV::IndexOutOfBounds {
                index: *index as int,
                len: *len as int,
            },
            Error::WrongIndexType { target, message } => ErrorV::WrongIndexType {
                target: target@,
                message: message@,
            },
            Error::NotIndexable(t) => ErrorV::NotIndexable(t@),
            Error::NoSuchKey(k) => ErrorV::NoSuchKey(k@),
            Error::UnknownMember { kind_name, member } => ErrorV::UnknownMember {
                kind_name: kind_name@,
                member: member@,
            },
        }
    }
}

/// The human-readable description of an error.
pub open spec fn spec_error_message(e: ErrorV) -> Seq<char> {
    match e {
        ErrorV::ResolveFailed(n) => "unable to resolve variable: \""@ + n + "\""@,
        ErrorV::NotCallable => "variable is not callable"@,
        ErrorV::TypeMismatch(m) => "type mismatch: "@ + m,
        ErrorV::DivideByZero => "divide by zero"@,
        ErrorV::EvaluationFailed(m) => "evaluation failed: "@ + m,
        ErrorV::ParseFailed(m, sn) => "parse failed: "@ + m + " (near: '"@ + sn + "')"@,
        ErrorV::Unsupported(m) => "unsupported operation: "@ + m,
        ErrorV::IndexOutOfBounds { index, len } => "index out of bounds: "@ + spec_dec_str(index)
            + " (len: "@ + spec_dec_str(len) + ")"@,
        ErrorV::WrongIndexType { target, message } => target + ": "@ + message,
        ErrorV::NotIndexable(t) => "not indexable: "@ + t,
        ErrorV::NoSuchKey(k) => "no such key: "@ + k,
        ErrorV::UnknownMember { kind_name, member } => "unknown member '"@ + member
            + "' for type "@ + kind_name,
    }
}

impl Error {
    /// The human-readable description of this error, with the offending
    /// identifier, member, index or snippet spliced in.
    pub fn message(&self) -> (r: String)
        ensures
            r@ == spec_error_message(self@),
    {
        match self {
            Error::ResolveFailed(n) => {
                let mut out = String::from_str("unable to resolve variable: \"");
                out.append(n.as_str());
                out.append("\"");
                out
            },
            Error::NotCallable => String::from_str("variable is not callable"),
            Error::TypeMismatch(m) => {
                let mut out = String::from_str("type mismatch: ");
                out.append(m.as_str());
                out
            },
            Error::DivideByZero => String::from_str("divide by zero"),
            Error::EvaluationFailed(m) => {
                let mut out = String::from_str("evaluation failed: ");
                out.append(m.as_str());
                out
            },
            Error::ParseFailed(m, sn) => {
                let mut out = String::from_str("parse failed: ");
                out.append(m.as_str());
                out.append(" (near: '");
                out.append(sn.as_str());
                out.append("')");
                out
            },
            Error::Unsupported(m) => {
                let mut out = String::from_str("unsupported operation: ");
                out.append(m.as_str());
                out
            },
            Error::IndexOutOfBounds { index, len } => {
                let mut out = String::from_str("index out of bounds: ");
                let ixs = int_to_string(*index);
                out.append(ixs.as_str());
                out.append(" (len: ");
                let ls = usize_to_string(*len);
                out.append(ls.as_str());
                out.append(")");
                out
            },
            Error::WrongIndexType { target, message } => {
                let mut out = (*target).to_owned();
                out.append(": ");
                out.append(message.as_str());
                out
            },
            Error::NotIndexable(t) => {
                let mut out = String::from_str("not indexable: ");
                out.append(t.as_str());
                out
            },
            Error::NoSuchKey(k) => {
                let mut out = String::from_str("no such key: ");
                out.append(k.as_str());
                out
            },
            Error::UnknownMember { kind_name, member } => {
                let mut out = String::from_str("unknown member '");
                out.append(member.as_str());
                out.append("' for type ");
                out.append(kind_name.as_str());
                out
            },
        }
    }
}

} // verus!
