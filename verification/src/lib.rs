//! Typed extraction of values from JavaScript-literal expression trees.
//!
//! A tree ([`ast::Node`]) is read through a [`Deserializer`]: the caller
//! asks for one shape at a time (a boolean, an integer of some width, a
//! string, a sequence, a map, an enum tag) and gets the value, an accessor
//! that walks the node, or the reason why the node has no such shape. The
//! functions of this module read a whole tree as a generic [`Value`].

use vstd::prelude::*;

pub mod access;
pub mod ast;
pub mod de;
pub mod error;
pub mod laws;
pub mod number;
pub mod parse;
pub mod value;

pub use de::Deserializer;
pub use error::Error;
pub use value::Value;

verus! {

/// Whether `r` is what reading the source text as a generic value gives:
/// the parser's failure, or the value of the tree that the parser returns
/// for the text.
pub open spec fn reads_source(
    source: &str,
    version: swc_ecma_ast::EsVersion,
    r: Result<Value, Error>,
) -> bool {
    match parse::read_source(source, version) {
        Ok(tree) => value::reads(tree, r),
        Err(e) => r matches Err(failure) && failure@ == e,
    }
}

/// Reads the expression that `expr_str` holds as a generic value, with the
/// parser's default version of the language: see [`reads_source`]. Which
/// version that is, is the parser's to say.
pub fn from_str(expr_str: &str) -> (r: Result<Value, Error>)
    ensures
        exists|version: swc_ecma_ast::EsVersion| reads_source(expr_str, version, r),
{
    let version = parse::default_es_version();
    let r = from_str_with_version(expr_str, version);
    assert(reads_source(expr_str, version, r));
    r
}

/// Reads the expression that `expr_str` holds as a generic value, for the
/// given version of the language: see [`reads_source`].
pub fn from_str_with_version(expr_str: &str, version: swc_ecma_ast::EsVersion) -> (r: Result<
    Value,
    Error,
>)
    ensures
        reads_source(expr_str, version, r),
{
    match parse::parse(expr_str, version) {
        Err(e) => Err(e),
        Ok(tree) => value::to_value(Deserializer::owned(tree)),
    }
}

/// Reads a tree that the caller keeps as a generic value: see
/// [`value::value_of`].
pub fn from_expr(expr: &ast::Node) -> (r: Result<Value, Error>)
    ensures
        value::reads(expr@, r),
{
    value::to_value(Deserializer::borrowed(expr))
}

} // verus!
