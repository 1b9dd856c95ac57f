//! The items a message derivation works on: fields, variants, and service methods.

use vstd::prelude::*;

use crate::field::FieldConfig;
use crate::types::RustType;

verus! {

/// A field of a struct or of a struct-like enum variant.
pub struct FieldModel {
    /// The field's name; empty for tuple fields.
    pub name: String,
    pub ty: RustType,
    pub config: FieldConfig,
}

/// The fields of a struct or enum variant.
pub enum FieldsModel {
    Named(Vec<FieldModel>),
    Unnamed(Vec<FieldModel>),
    Unit,
}

/// The fields in order; none for a unit struct or variant.
pub open spec fn field_seq(f: FieldsModel) -> Seq<FieldModel> {
    match f {
        FieldsModel::Named(v) => v@,
        FieldsModel::Unnamed(v) => v@,
        FieldsModel::Unit => Seq::empty(),
    }
}

/// An explicit enum discriminant as written in the source.
#[derive(Clone, Copy)]
pub enum Discriminant {
    /// No `= value` was written.
    Implicit,
    /// An integer literal, possibly negated.
    Literal(i64),
    /// Any other expression.
    Unsupported,
}

/// The literal given to a `#[proto(tag = ...)]` option.
pub enum TagLiteral {
    /// An integer literal; `None` when its value does not fit in `usize`.
    Int(Option<usize>),
    /// A string literal, whose text must be a decimal number.
    Str(String),
    /// Any other literal.
    Other,
}

/// A variant of an enum.
pub struct VariantModel {
    pub ident: String,
    pub fields: FieldsModel,
    pub discriminant: Discriminant,
    /// The variant is marked `#[default]`.
    pub is_default: bool,
    /// The literals of the `#[proto(tag = ...)]` options on the variant, in order.
    pub tag_attrs: Vec<TagLiteral>,
}

/// A method of an RPC service trait.
pub struct MethodModel {
    pub name: String,
    pub request_type: RustType,
    pub response_type: RustType,
    pub is_streaming: bool,
    /// For a streaming method, the type of the streamed messages.
    pub inner_response_type: Option<RustType>,
}

/// The body of an item a message is derived from.
pub enum DataModel {
    Struct(FieldsModel),
    Enum(Vec<VariantModel>),
    Union,
}

/// A service trait, whose imports come from trait-level options rather than from fields.
pub struct TraitModel {
    pub ident: String,
}

/// The types a `.proto` file imports from one package.
pub struct ImportGroup {
    pub package: String,
    pub types: Vec<String>,
}

} // verus!
