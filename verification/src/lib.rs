//! An embeddable expression-language engine.
//!
//! The crate parses a small expression grammar into an [`expression::Expr`]
//! tree and evaluates that tree against a host-supplied variable resolver,
//! producing a dynamically typed [`value::Value`].  It also scans template
//! strings for `${expr}` placeholders and splices in their evaluated,
//! stringified results.

pub mod decimal;
pub mod errors;
pub mod evaluator;
pub mod expression;
pub mod floats;
pub mod laws;
pub mod members;
pub mod parser;
pub mod text;
pub mod value;

pub use errors::Error;
