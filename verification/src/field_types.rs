//! The types a field is encoded and decoded as.

use vstd::prelude::*;

use crate::field::{FieldConfig, ParsedFieldType, is_numeric_enum, is_numeric_enum_spec};
use crate::subst::{copy_type, type_eq};
use crate::text::string_of;
use crate::types::{PathSegment, RustType, TypePath};

verus! {

broadcast use vstd::std_specs::vec::group_vec_axioms;

/// The type is the path `i32`.
pub open spec fn is_i32_type(t: RustType) -> bool {
    match t {
        RustType::Path(p) => !p.qself && p.segments@.len() == 1 && p.segments@[0].ident@ == "i32"@
            && p.segments@[0].args@.len() == 0,
        _ => false,
    }
}

fn i32_type() -> (r: RustType)
    ensures
        is_i32_type(r),
{
    let mut segments: Vec<PathSegment> = Vec::new();
    segments.push(PathSegment { ident: string_of("i32"), args: Vec::new() });
    RustType::Path(TypePath { qself: false, segments })
}

/// Every type given as text in the field's options reads as a type.
pub open spec fn type_texts_parsed(config: FieldConfig) -> bool {
    &&& (config.into_type matches Some(tt) ==> tt.parsed is Some)
    &&& (config.from_type matches Some(tt) ==> tt.parsed is Some)
}

/// The type a field is encoded as: its `into` type, `i32` for an enum, or its own type.
pub fn compute_proto_ty(config: &FieldConfig, parsed: &ParsedFieldType, effective_ty: &RustType) -> (r:
    RustType)
    requires
        type_texts_parsed(*config),
    ensures
        match config.into_type {
            Some(tt) => type_eq(tt.parsed->Some_0, r),
            None => if is_numeric_enum_spec(*config, *parsed) {
                is_i32_type(r)
            } else {
                type_eq(*effective_ty, r)
            },
        },
{
    match &config.into_type {
        Some(tt) => copy_type(tt.parsed.as_ref().unwrap()),
        None => if is_numeric_enum(config, parsed) {
            i32_type()
        } else {
            copy_type(effective_ty)
        },
    }
}

/// The type a field is decoded as: its `from` type, its `into` type, `i32` for an enum, or the
/// type it is encoded as.
pub fn compute_decode_ty(config: &FieldConfig, parsed: &ParsedFieldType, proto_ty: &RustType) -> (r:
    RustType)
    requires
        type_texts_parsed(*config),
    ensures
        match config.from_type {
            Some(ft) => type_eq(ft.parsed->Some_0, r),
            None => match config.into_type {
                Some(tt) => type_eq(tt.parsed->Some_0, r),
                None => if is_numeric_enum_spec(*config, *parsed) {
                    is_i32_type(r)
                } else {
                    type_eq(*proto_ty, r)
                },
            },
        },
{
    match &config.from_type {
        Some(ft) => copy_type(ft.parsed.as_ref().unwrap()),
        None => match &config.into_type {
            Some(tt) => copy_type(tt.parsed.as_ref().unwrap()),
            None => if is_numeric_enum(config, parsed) {
                i32_type()
            } else {
                copy_type(proto_ty)
            },
        },
    }
}

/// The code of the type a field is encoded as (see `compute_proto_ty`), given the code of its
/// effective type.
pub fn proto_ty_code(config: &FieldConfig, parsed: &ParsedFieldType, effective_code: &str) -> (r: String)
    ensures
        r@ == match config.into_type {
            Some(tt) => tt.text@,
            None => if is_numeric_enum_spec(*config, *parsed) {
                "i32"@
            } else {
                effective_code@
            },
        },
{
    match &config.into_type {
        Some(tt) => string_of(tt.text.as_str()),
        None => if is_numeric_enum(config, parsed) {
            string_of("i32")
        } else {
            string_of(effective_code)
        },
    }
}

/// The code of the type a field is decoded as (see `compute_decode_ty`), given the code of the
/// type it is encoded as.
pub fn decode_ty_code(config: &FieldConfig, parsed: &ParsedFieldType, proto_code: &str) -> (r: String)
    ensures
        r@ == match config.from_type {
            Some(ft) => ft.text@,
            None => match config.into_type {
                Some(tt) => tt.text@,
                None => if is_numeric_enum_spec(*config, *parsed) {
                    "i32"@
                } else {
                    proto_code@
                },
            },
        },
{
    match &config.from_type {
        Some(ft) => string_of(ft.text.as_str()),
        None => match &config.into_type {
            Some(tt) => string_of(tt.text.as_str()),
            None => if is_numeric_enum(config, parsed) {
                string_of("i32")
            } else {
                string_of(proto_code)
            },
        },
    }
}

} // verus!
