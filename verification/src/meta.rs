//! Attributes and their options as written on an item: `#[proto(validator = ensure_valid, ...)]`.

use vstd::prelude::*;

use crate::text::str_eq;
use crate::types::RustType;

verus! {

broadcast use vstd::std_specs::vec::group_vec_axioms;

/// An expression as written in an option's value.
pub enum MetaExpr {
    /// A string literal.
    Str(String),
    /// A boolean literal.
    Bool(bool),
    /// An integer literal; `None` when its value does not fit in `usize`.
    Int(Option<usize>),
    /// A path such as `validate` or `crate::checks::validate`, by its segments.
    Path(Vec<String>),
    /// An array `[a, b, ...]`.
    Array(Vec<ArrayElem>),
    /// An assignment `left = right`.
    Assign(Box<MetaExpr>, Box<MetaExpr>),
    /// Any other expression.
    Other,
}

/// An element of an array, with its reading as a type when its tokens form one.
pub struct ArrayElem {
    pub expr: MetaExpr,
    pub as_type: Option<RustType>,
}

/// What follows an option's path.
pub enum MetaValue {
    /// Nothing: a bare flag such as `transparent`.
    Flag,
    /// `= tokens`.
    Eq(EqValue),
    /// A parenthesized list of nested options, `name(a, b::c)`.
    List(Vec<MetaItem>),
    /// Tokens that do not form an option: the list cannot be read past this point.
    Malformed,
}

/// The tokens after `=`, read in the ways an option may need them.
pub struct EqValue {
    /// As an expression, when they form one.
    pub expr: Option<MetaExpr>,
    /// As a single type, when they form one.
    pub ty: Option<RustType>,
    /// They start with a bracket.
    pub bracketed: bool,
    /// As a bracketed list of types `[A, B]`, when they form one.
    pub types: Option<Vec<RustType>>,
    /// When they form a string literal, its text read as a type, when it is one.
    pub str_type: Option<RustType>,
}

/// One option of an attribute's list.
pub struct MetaItem {
    /// The option's path, by segments; empty for a `Malformed` item.
    pub path: Vec<String>,
    pub value: MetaValue,
}

/// An attribute on an item.
pub struct AttrModel {
    /// The attribute's path, by segments: `["proto"]` for `#[proto(...)]`.
    pub path: Vec<String>,
    /// Its arguments read as a list of options, in order; a syntax error ends the list with a
    /// `Malformed` item.
    pub items: Vec<MetaItem>,
    /// Its arguments read as a single expression (`Other` when they are not one).
    pub args: MetaExpr,
}

/// The path is the single identifier `name`.
pub open spec fn path_is(path: Seq<String>, name: Seq<char>) -> bool {
    path.len() == 1 && path[0]@ == name
}

pub fn path_is_ident(path: &Vec<String>, name: &str) -> (r: bool)
    ensures
        r == path_is(path@, name@),
{
    path.len() == 1 && str_eq(path[0].as_str(), name)
}

/// `#[proto_message]` keeps an attribute on the item it emits unless it is one of its own:
/// `#[proto_message(...)]` or `#[proto(...)]`.
pub fn kept_by_message(path: &Vec<String>) -> (r: bool)
    ensures
        r == !(path_is(path@, "proto_message"@) || path_is(path@, "proto"@)),
{
    !(path_is_ident(path, "proto_message") || path_is_ident(path, "proto"))
}

/// `#[proto_dump]` keeps an attribute on the item it emits unless it is `#[proto(...)]`.
pub fn kept_by_dump(path: &Vec<String>) -> (r: bool)
    ensures
        r == !path_is(path@, "proto"@),
{
    !path_is_ident(path, "proto")
}

} // verus!
