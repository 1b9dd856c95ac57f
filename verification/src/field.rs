//! The `#[proto(...)]` options of a field, and the decisions that depend on them alone.

use vstd::prelude::*;

use crate::text::str_eq;
use crate::types::RustType;

verus! {

/// A type given as text in an attribute (`into = "i64"`), with its parsed form when the text is a
/// valid type.
pub struct TypeText {
    pub text: String,
    pub parsed: Option<RustType>,
}

/// How a `rename = ...` option overrides a field's protobuf type and modifiers.
pub struct ProtoRename {
    pub proto_type: String,
    /// `Some(flag)` forces the `optional` modifier on or off; `None` keeps the field's own.
    pub is_optional: Option<bool>,
    /// `Some(flag)` forces the `repeated` modifier on or off; `None` keeps the field's own.
    pub is_repeated: Option<bool>,
}

/// The options given to a field by its `#[proto(...)]` attributes.
pub struct FieldConfig {
    pub skip: bool,
    pub skip_deser_fn: Option<String>,
    pub custom_tag: Option<usize>,
    pub into_type: Option<TypeText>,
    pub from_type: Option<TypeText>,
    pub into_fn: Option<String>,
    pub from_fn: Option<String>,
    pub try_from_fn: Option<String>,
    pub treat_as: Option<RustType>,
    pub rename: Option<ProtoRename>,
    pub import_path: Option<String>,
    pub is_rust_enum: bool,
    pub is_proto_enum: bool,
    pub is_message: bool,
    pub getter: Option<String>,
    pub validator: Option<String>,
}

impl FieldConfig {
    /// A field without any option.
    pub fn plain() -> (r: FieldConfig)
        ensures
            !r.skip,
            r.skip_deser_fn is None,
            r.custom_tag is None,
            r.into_type is None,
            r.from_type is None,
            r.into_fn is None,
            r.from_fn is None,
            r.try_from_fn is None,
            r.treat_as is None,
            r.rename is None,
            r.import_path is None,
            !r.is_rust_enum,
            !r.is_proto_enum,
            !r.is_message,
            r.getter is None,
            r.validator is None,
    {
        FieldConfig {
            skip: false,
            skip_deser_fn: None,
            custom_tag: None,
            into_type: None,
            from_type: None,
            into_fn: None,
            from_fn: None,
            try_from_fn: None,
            treat_as: None,
            rename: None,
            import_path: None,
            is_rust_enum: false,
            is_proto_enum: false,
            is_message: false,
            getter: None,
            validator: None,
        }
    }
}

/// What the analysis of a field's type found.
pub struct ParsedFieldType {
    /// The outer type is an `Option` (possibly behind transparent wrappers).
    pub is_option: bool,
    /// The type is a repeated collection (`Vec<T>`, `VecDeque<T>`, sets, arrays; not bytes).
    pub is_repeated: bool,
    /// The type is a `HashMap` or `BTreeMap`.
    pub is_map: bool,
    /// The element is a message rather than a scalar, bytes or a map.
    pub is_message_like: bool,
    /// The element is a Rust enum encoded by its discriminant.
    pub is_rust_enum: bool,
    /// The protobuf type of the element (`uint32`, `string`, `map<string, uint32>`, a message).
    pub proto_type: String,
}

/// The field is encoded through its enum discriminant (`i32` on the wire).
pub open spec fn is_numeric_enum_spec(config: FieldConfig, parsed: ParsedFieldType) -> bool {
    config.is_rust_enum || config.is_proto_enum || parsed.is_rust_enum
}

pub fn is_numeric_enum(config: &FieldConfig, parsed: &ParsedFieldType) -> (r: bool)
    ensures
        r == is_numeric_enum_spec(*config, *parsed),
{
    config.is_rust_enum || config.is_proto_enum || parsed.is_rust_enum
}

/// Encoding goes through a conversion: `into`, `into_fn`, or an enum discriminant.
pub open spec fn needs_encode_conversion_spec(config: FieldConfig, parsed: ParsedFieldType) -> bool {
    config.into_type is Some || config.into_fn is Some || is_numeric_enum_spec(config, parsed)
}

pub fn needs_encode_conversion(config: &FieldConfig, parsed: &ParsedFieldType) -> (r: bool)
    ensures
        r == needs_encode_conversion_spec(*config, *parsed),
{
    config.into_type.is_some() || config.into_fn.is_some() || is_numeric_enum(config, parsed)
}

/// Decoding goes through a conversion: `from`, `from_fn`, `try_from_fn`, `into`, or an enum
/// discriminant.
pub open spec fn needs_decode_conversion_spec(config: FieldConfig, parsed: ParsedFieldType) -> bool {
    ||| config.from_type is Some
    ||| config.from_fn is Some
    ||| config.try_from_fn is Some
    ||| config.into_type is Some
    ||| is_numeric_enum_spec(config, parsed)
}

pub fn needs_decode_conversion(config: &FieldConfig, parsed: &ParsedFieldType) -> (r: bool)
    ensures
        r == needs_decode_conversion_spec(*config, *parsed),
{
    config.from_type.is_some() || config.from_fn.is_some() || config.try_from_fn.is_some()
        || config.into_type.is_some() || is_numeric_enum(config, parsed)
}

/// The field is encoded and decoded by its own type's wire implementation, without conversion.
pub open spec fn uses_proto_wire_directly_spec(config: FieldConfig, parsed: ParsedFieldType) -> bool {
    &&& !config.skip
    &&& !needs_encode_conversion_spec(config, parsed)
    &&& config.from_type is None
    &&& config.from_fn is None
    &&& config.try_from_fn is None
}

pub fn uses_proto_wire_directly(config: &FieldConfig, parsed: &ParsedFieldType) -> (r: bool)
    ensures
        r == uses_proto_wire_directly_spec(*config, *parsed),
{
    !config.skip && !needs_encode_conversion(config, parsed) && config.from_type.is_none()
        && config.from_fn.is_none() && config.try_from_fn.is_none()
}

/// The modifier written before a field's type: `repeated` wins over `optional`.
pub open spec fn field_modifier_spec(is_option: bool, is_repeated: bool) -> Seq<char> {
    if is_repeated {
        "repeated "@
    } else if is_option {
        "optional "@
    } else {
        ""@
    }
}

pub fn field_modifier(is_option: bool, is_repeated: bool) -> (r: &'static str)
    ensures
        r@ == field_modifier_spec(is_option, is_repeated),
{
    match (is_option, is_repeated) {
        (true, false) => "optional ",
        (_, true) => "repeated ",
        (false, false) => "",
    }
}

/// The primitive types that are passed to the encoder by value.
pub open spec fn is_value_name(id: Seq<char>) -> bool {
    ||| id == "bool"@
    ||| id == "i8"@
    ||| id == "i16"@
    ||| id == "i32"@
    ||| id == "i64"@
    ||| id == "i128"@
    ||| id == "isize"@
    ||| id == "u8"@
    ||| id == "u16"@
    ||| id == "u32"@
    ||| id == "u64"@
    ||| id == "u128"@
    ||| id == "usize"@
    ||| id == "f32"@
    ||| id == "f64"@
}

pub open spec fn is_value_encode_type_spec(t: RustType) -> bool {
    match t {
        RustType::Path(p) => !p.qself && p.segments@.len() == 1 && is_value_name(
            p.segments@[0].ident@,
        ),
        _ => false,
    }
}

fn is_value_name_exec(id: &str) -> (r: bool)
    ensures
        r == is_value_name(id@),
{
    str_eq(id, "bool") || str_eq(id, "i8") || str_eq(id, "i16") || str_eq(id, "i32") || str_eq(
        id,
        "i64",
    ) || str_eq(id, "i128") || str_eq(id, "isize") || str_eq(id, "u8") || str_eq(id, "u16")
        || str_eq(id, "u32") || str_eq(id, "u64") || str_eq(id, "u128") || str_eq(id, "usize")
        || str_eq(id, "f32") || str_eq(id, "f64")
}

pub fn is_value_encode_type(t: &RustType) -> (r: bool)
    ensures
        r == is_value_encode_type_spec(*t),
{
    match t {
        RustType::Path(p) => !p.qself && p.segments.len() == 1 && is_value_name_exec(
            p.segments[0].ident.as_str(),
        ),
        _ => false,
    }
}

} // verus!
