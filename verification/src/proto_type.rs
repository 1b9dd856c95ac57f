//! How a Rust field type maps to a protobuf field type and modifiers.

use vstd::prelude::*;

use crate::field::{FieldConfig, ParsedFieldType, ProtoRename, TypeText};
use crate::text::{push_str, str_eq, string_of, views};
use crate::types::{
    GenericArg, PathSegment, RustType, bare_ident, bare_ident_spec, is_generic_param,
    is_generic_param_spec, path_ident_spec, proto_type_name, proto_type_name_spec,
    rust_type_path_ident,
};

verus! {

broadcast use vstd::std_specs::vec::group_vec_axioms;

/// The protobuf scalar that a primitive, atomic or non-zero integer type, `String` or `Bytes`
/// maps to. Narrow integers widen to 32 bits.
pub open spec fn scalar_proto_spec(id: Seq<char>) -> Option<Seq<char>> {
    if id == "bool"@ || id == "AtomicBool"@ {
        Some("bool"@)
    } else if id == "u8"@ || id == "u16"@ || id == "u32"@ || id == "AtomicU8"@ || id
        == "AtomicU16"@ || id == "AtomicU32"@ || id == "NonZeroU8"@ || id == "NonZeroU16"@ || id
        == "NonZeroU32"@ {
        Some("uint32"@)
    } else if id == "u64"@ || id == "usize"@ || id == "AtomicU64"@ || id == "AtomicUsize"@ || id
        == "NonZeroU64"@ || id == "NonZeroUsize"@ {
        Some("uint64"@)
    } else if id == "i8"@ || id == "i16"@ || id == "i32"@ || id == "AtomicI8"@ || id
        == "AtomicI16"@ || id == "AtomicI32"@ || id == "NonZeroI8"@ || id == "NonZeroI16"@ || id
        == "NonZeroI32"@ {
        Some("int32"@)
    } else if id == "i64"@ || id == "isize"@ || id == "AtomicI64"@ || id == "AtomicIsize"@ || id
        == "NonZeroI64"@ || id == "NonZeroIsize"@ {
        Some("int64"@)
    } else if id == "f32"@ {
        Some("float"@)
    } else if id == "f64"@ {
        Some("double"@)
    } else if id == "String"@ {
        Some("string"@)
    } else if id == "Bytes"@ {
        Some("bytes"@)
    } else {
        None
    }
}

pub fn scalar_proto(id: &str) -> (r: Option<&'static str>)
    ensures
        match r {
            Some(s) => scalar_proto_spec(id@) == Some(s@),
            None => scalar_proto_spec(id@) is None,
        },
{
    if str_eq(id, "bool") || str_eq(id, "AtomicBool") {
        Some("bool")
    } else if str_eq(id, "u8") || str_eq(id, "u16") || str_eq(id, "u32") || str_eq(id, "AtomicU8")
        || str_eq(id, "AtomicU16") || str_eq(id, "AtomicU32") || str_eq(id, "NonZeroU8") || str_eq(
        id,
        "NonZeroU16",
    ) || str_eq(id, "NonZeroU32") {
        Some("uint32")
    } else if str_eq(id, "u64") || str_eq(id, "usize") || str_eq(id, "AtomicU64") || str_eq(
        id,
        "AtomicUsize",
    ) || str_eq(id, "NonZeroU64") || str_eq(id, "NonZeroUsize") {
        Some("uint64")
    } else if str_eq(id, "i8") || str_eq(id, "i16") || str_eq(id, "i32") || str_eq(id, "AtomicI8")
        || str_eq(id, "AtomicI16") || str_eq(id, "AtomicI32") || str_eq(id, "NonZeroI8") || str_eq(
        id,
        "NonZeroI16",
    ) || str_eq(id, "NonZeroI32") {
        Some("int32")
    } else if str_eq(id, "i64") || str_eq(id, "isize") || str_eq(id, "AtomicI64") || str_eq(
        id,
        "AtomicIsize",
    ) || str_eq(id, "NonZeroI64") || str_eq(id, "NonZeroIsize") {
        Some("int64")
    } else if str_eq(id, "f32") {
        Some("float")
    } else if str_eq(id, "f64") {
        Some("double")
    } else if str_eq(id, "String") {
        Some("string")
    } else if str_eq(id, "Bytes") {
        Some("bytes")
    } else {
        None
    }
}

/// Wrappers that encode exactly as the type they hold.
pub open spec fn is_transparent_wrapper(id: Seq<char>) -> bool {
    id == "Box"@ || id == "Arc"@ || id == "Rc"@ || id == "CachePadded"@ || id == "ArcSwap"@ || id
        == "Mutex"@ || id == "RwLock"@
}

fn is_transparent_wrapper_exec(id: &str) -> (r: bool)
    ensures
        r == is_transparent_wrapper(id@),
{
    str_eq(id, "Box") || str_eq(id, "Arc") || str_eq(id, "Rc") || str_eq(id, "CachePadded")
        || str_eq(id, "ArcSwap") || str_eq(id, "Mutex") || str_eq(id, "RwLock")
}

/// Wrappers whose value may be absent.
pub open spec fn is_optional_wrapper(id: Seq<char>) -> bool {
    id == "Option"@ || id == "ArcSwapOption"@
}

/// Collections encoded as repeated fields.
pub open spec fn is_repeated_collection(id: Seq<char>) -> bool {
    id == "Vec"@ || id == "VecDeque"@ || id == "HashSet"@ || id == "BTreeSet"@
}

fn is_repeated_collection_exec(id: &str) -> (r: bool)
    ensures
        r == is_repeated_collection(id@),
{
    str_eq(id, "Vec") || str_eq(id, "VecDeque") || str_eq(id, "HashSet") || str_eq(id, "BTreeSet")
}

/// The first generic argument of a segment, when it is a type.
pub open spec fn first_type_arg_spec(seg: PathSegment) -> Option<RustType> {
    if seg.args@.len() > 0 {
        match seg.args@[0] {
            GenericArg::Type(a) => Some(a),
            _ => None,
        }
    } else {
        None
    }
}

pub fn first_type_arg(seg: &PathSegment) -> (r: Option<&RustType>)
    ensures
        match r {
            Some(a) => first_type_arg_spec(*seg) == Some(*a),
            None => first_type_arg_spec(*seg) is None,
        },
{
    if seg.args.len() > 0 {
        match &seg.args[0] {
            GenericArg::Type(a) => Some(a),
            _ => None,
        }
    } else {
        None
    }
}

/// The second generic argument of a segment, when it is a type.
pub open spec fn second_type_arg_spec(seg: PathSegment) -> Option<RustType> {
    if seg.args@.len() > 1 {
        match seg.args@[1] {
            GenericArg::Type(a) => Some(a),
            _ => None,
        }
    } else {
        None
    }
}

pub fn second_type_arg(seg: &PathSegment) -> (r: Option<&RustType>)
    ensures
        match r {
            Some(a) => second_type_arg_spec(*seg) == Some(*a),
            None => second_type_arg_spec(*seg) is None,
        },
{
    if seg.args.len() > 1 {
        match &seg.args[1] {
            GenericArg::Type(a) => Some(a),
            _ => None,
        }
    } else {
        None
    }
}

/// Byte buffers: `Vec<u8>`, `[u8; N]` and `Bytes`.
pub open spec fn is_bytes_spec(t: RustType) -> bool {
    match t {
        RustType::Path(p) => p.segments@.len() > 0 && {
            let seg = p.segments@.last();
            ||| (seg.ident@ == "Vec"@ && match first_type_arg_spec(seg) {
                Some(a) => bare_ident_spec(a) == Some("u8"@),
                None => false,
            })
            ||| (seg.ident@ == "Bytes"@ && seg.args@.len() == 0)
        },
        RustType::Array(e) => bare_ident_spec(*e) == Some("u8"@),
        _ => false,
    }
}

fn is_u8(t: &RustType) -> (r: bool)
    ensures
        r == (bare_ident_spec(*t) == Some("u8"@)),
{
    match bare_ident(t) {
        Some(id) => str_eq(id.as_str(), "u8"),
        None => false,
    }
}

pub fn is_bytes(t: &RustType) -> (r: bool)
    ensures
        r == is_bytes_spec(*t),
{
    match t {
        RustType::Path(p) => {
            let n = p.segments.len();
            if n == 0 {
                return false;
            }
            let seg = &p.segments[n - 1];
            let vec_u8 = str_eq(seg.ident.as_str(), "Vec") && match first_type_arg(seg) {
                Some(a) => is_u8(a),
                None => false,
            };
            vec_u8 || (str_eq(seg.ident.as_str(), "Bytes") && seg.args.len() == 0)
        },
        RustType::Array(e) => is_u8(e),
        _ => false,
    }
}

/// Maps: `HashMap<K, V>` and `BTreeMap<K, V>`.
pub open spec fn is_map_spec(t: RustType) -> bool {
    match t {
        RustType::Path(p) => p.segments@.len() > 0 && {
            let seg = p.segments@.last();
            &&& (seg.ident@ == "HashMap"@ || seg.ident@ == "BTreeMap"@)
            &&& first_type_arg_spec(seg) is Some
            &&& second_type_arg_spec(seg) is Some
        },
        _ => false,
    }
}

pub fn is_map(t: &RustType) -> (r: bool)
    ensures
        r == is_map_spec(*t),
{
    match t {
        RustType::Path(p) => {
            let n = p.segments.len();
            if n == 0 {
                return false;
            }
            let seg = &p.segments[n - 1];
            (str_eq(seg.ident.as_str(), "HashMap") || str_eq(seg.ident.as_str(), "BTreeMap"))
                && first_type_arg(seg).is_some() && second_type_arg(seg).is_some()
        },
        _ => false,
    }
}

/// The scalar a type maps to: a path whose last segment has no generic arguments and names a
/// scalar, or `()`, which maps to the well-known empty message.
pub open spec fn scalar_of_spec(t: RustType) -> Option<Seq<char>> {
    match t {
        RustType::Path(p) => if p.segments@.len() > 0 && p.segments@.last().args@.len() == 0 {
            scalar_proto_spec(p.segments@.last().ident@)
        } else {
            None
        },
        RustType::Tuple(v) => if v@.len() == 0 {
            Some("google.protobuf.Empty"@)
        } else {
            None
        },
        _ => None,
    }
}

pub fn scalar_of(t: &RustType) -> (r: Option<&'static str>)
    ensures
        match r {
            Some(s) => scalar_of_spec(*t) == Some(s@),
            None => scalar_of_spec(*t) is None,
        },
{
    match t {
        RustType::Path(p) => {
            let n = p.segments.len();
            if n > 0 && p.segments[n - 1].args.len() == 0 {
                scalar_proto(p.segments[n - 1].ident.as_str())
            } else {
                None
            }
        },
        RustType::Tuple(v) => if v.len() == 0 {
            Some("google.protobuf.Empty")
        } else {
            None
        },
        _ => None,
    }
}

/// The protobuf type of a single (non-map) element: bytes, a scalar, or a message name.
pub open spec fn elem_proto_spec(t: RustType) -> Seq<char> {
    if is_bytes_spec(t) {
        "bytes"@
    } else {
        match scalar_of_spec(t) {
            Some(s) => s,
            None => proto_type_name_spec(t),
        }
    }
}

pub fn elem_proto(t: &RustType) -> (r: String)
    ensures
        r@ == elem_proto_spec(*t),
{
    if is_bytes(t) {
        string_of("bytes")
    } else {
        match scalar_of(t) {
            Some(s) => string_of(s),
            None => proto_type_name(t),
        }
    }
}

/// `map<K, V>` for a map type, with the element types of its key and value.
pub open spec fn map_proto_spec(t: RustType) -> Seq<char>
    recommends
        is_map_spec(t),
{
    match t {
        RustType::Path(p) => {
            let seg = p.segments@.last();
            "map<"@ + elem_proto_spec(first_type_arg_spec(seg)->0) + ", "@ + elem_proto_spec(
                second_type_arg_spec(seg)->0,
            ) + ">"@
        },
        _ => Seq::empty(),
    }
}

pub fn map_proto(t: &RustType) -> (r: String)
    requires
        is_map_spec(*t),
    ensures
        r@ == map_proto_spec(*t),
{
    match t {
        RustType::Path(p) => {
            let seg = &p.segments[p.segments.len() - 1];
            let k = first_type_arg(seg).unwrap();
            let v = second_type_arg(seg).unwrap();
            let mut r = string_of("map<");
            let ks = elem_proto(k);
            push_str(&mut r, ks.as_str());
            push_str(&mut r, ", ");
            let vs = elem_proto(v);
            push_str(&mut r, vs.as_str());
            push_str(&mut r, ">");
            r
        },
        _ => String::new(),
    }
}

/// Unwraps a field type into (optional, repeated, element): `Option` and `ArcSwapOption` make it
/// optional, transparent wrappers (`Box`, `Arc`, `CachePadded`, `ArcSwap`, locks) are looked
/// through, and a collection or array makes it repeated with its element type. Byte buffers and
/// maps are elements themselves.
pub open spec fn wrapper_info_spec(t: RustType) -> (bool, bool, RustType)
    decreases t,
{
    if is_bytes_spec(t) {
        (false, false, t)
    } else {
        match t {
            RustType::Array(e) => (false, true, *e),
            RustType::Path(p) => {
                if p.segments@.len() > 0 && p.segments@.last().args@.len() > 0 {
                    let id = p.segments@.last().ident@;
                    match p.segments@.last().args@[0] {
                        GenericArg::Type(a) => {
                            if is_transparent_wrapper(id) {
                                wrapper_info_spec(a)
                            } else if is_optional_wrapper(id) {
                                let w = wrapper_info_spec(a);
                                (true, w.1, w.2)
                            } else if is_repeated_collection(id) {
                                (false, true, a)
                            } else {
                                (false, false, t)
                            }
                        },
                        _ => (false, false, t),
                    }
                } else {
                    (false, false, t)
                }
            },
            _ => (false, false, t),
        }
    }
}

pub fn extract_field_wrapper_info(t: &RustType) -> (r: (bool, bool, &RustType))
    ensures
        r.0 == wrapper_info_spec(*t).0,
        r.1 == wrapper_info_spec(*t).1,
        *r.2 == wrapper_info_spec(*t).2,
    decreases t,
{
    if is_bytes(t) {
        return (false, false, t);
    }
    match t {
        RustType::Array(e) => (false, true, e),
        RustType::Path(p) => {
            let n = p.segments.len();
            if n > 0 && p.segments[n - 1].args.len() > 0 {
                let seg = &p.segments[n - 1];
                let id = seg.ident.as_str();
                match &seg.args[0] {
                    GenericArg::Type(a) => {
                        proof {
                            assert(decreases_to!(*t => (*t)->Path_0));
                            assert(decreases_to!(p.segments => p.segments[n - 1]));
                            assert(decreases_to!(seg.args => seg.args[0]));
                        }
                        if is_transparent_wrapper_exec(id) {
                            extract_field_wrapper_info(a)
                        } else if str_eq(id, "Option") || str_eq(id, "ArcSwapOption") {
                            let w = extract_field_wrapper_info(a);
                            (true, w.1, w.2)
                        } else if is_repeated_collection_exec(id) {
                            (false, true, a)
                        } else {
                            (false, false, t)
                        }
                    },
                    _ => (false, false, t),
                }
            } else {
                (false, false, t)
            }
        },
        _ => (false, false, t),
    }
}

/// The protobuf type of a field type's element, once wrappers and collections are removed.
pub open spec fn parsed_proto_type_spec(t: RustType) -> Seq<char> {
    let inner = wrapper_info_spec(t).2;
    if is_map_spec(inner) {
        map_proto_spec(inner)
    } else {
        elem_proto_spec(inner)
    }
}

/// Whether that element is a message.
pub open spec fn parsed_message_like_spec(t: RustType) -> bool {
    let inner = wrapper_info_spec(t).2;
    !is_map_spec(inner) && !is_bytes_spec(inner) && scalar_of_spec(inner) is None
}

/// Analyses a field type: its modifiers and the protobuf type of its element.
pub fn parse_field_type(t: &RustType) -> (r: ParsedFieldType)
    ensures
        r.is_option == wrapper_info_spec(*t).0,
        r.is_repeated == wrapper_info_spec(*t).1,
        r.is_map == is_map_spec(wrapper_info_spec(*t).2),
        r.is_message_like == parsed_message_like_spec(*t),
        !r.is_rust_enum,
        r.proto_type@ == parsed_proto_type_spec(*t),
{
    let (is_option, is_repeated, inner) = extract_field_wrapper_info(t);
    let map = is_map(inner);
    let proto_type = if map {
        map_proto(inner)
    } else {
        elem_proto(inner)
    };
    let message_like = !map && !is_bytes(inner) && scalar_of(inner).is_none();
    ParsedFieldType {
        is_option,
        is_repeated,
        is_map: map,
        is_message_like: message_like,
        is_rust_enum: false,
        proto_type,
    }
}

/// The protobuf type of a field's (unwrapped) element type under its options: bytes, an
/// imported message (`package.Name`), an opaque generic parameter (bytes), a map, an enum, a
/// message, or the scalar.
pub open spec fn determine_proto_type_spec(
    inner: RustType,
    config: FieldConfig,
    params: Seq<Seq<char>>,
) -> Seq<char> {
    if is_bytes_spec(inner) {
        "bytes"@
    } else if config.import_path is Some {
        config.import_path->0@ + "."@ + proto_type_name_spec(inner)
    } else if is_generic_param_spec(inner, params) {
        "bytes"@
    } else if is_map_spec(wrapper_info_spec(inner).2) {
        parsed_proto_type_spec(inner)
    } else if config.is_rust_enum || config.is_proto_enum {
        path_ident_spec(inner)
    } else if config.is_message {
        proto_type_name_spec(inner)
    } else {
        parsed_proto_type_spec(inner)
    }
}

pub fn determine_proto_type(inner: &RustType, config: &FieldConfig, params: &Vec<String>) -> (r:
    String)
    ensures
        r@ == determine_proto_type_spec(*inner, *config, views(params@)),
{
    if is_bytes(inner) {
        return string_of("bytes");
    }
    if let Some(import_path) = &config.import_path {
        let mut r = import_path.clone();
        push_str(&mut r, ".");
        let base = proto_type_name(inner);
        push_str(&mut r, base.as_str());
        return r;
    }
    if is_generic_param(inner, params) {
        return string_of("bytes");
    }
    let parsed = parse_field_type(inner);
    if parsed.is_map {
        return parsed.proto_type;
    }
    if config.is_rust_enum || config.is_proto_enum {
        return rust_type_path_ident(inner);
    }
    if config.is_message {
        return proto_type_name(inner);
    }
    parsed.proto_type
}

/// The type a field is described by: the parsed `into` type when given and valid, else the
/// `treat_as` type when given, else the declared type.
pub open spec fn effective_type_spec(ty: RustType, config: FieldConfig) -> RustType {
    match config.into_type {
        Some(tt) if tt.parsed is Some => tt.parsed->0,
        _ => match config.treat_as {
            Some(t) => t,
            None => ty,
        },
    }
}

pub fn effective_type<'a>(ty: &'a RustType, config: &'a FieldConfig) -> (r: &'a RustType)
    ensures
        *r == effective_type_spec(*ty, *config),
{
    if let Some(TypeText { parsed: Some(t), .. }) = &config.into_type {
        return t;
    }
    match &config.treat_as {
        Some(t) => t,
        None => ty,
    }
}

/// The protobuf type of a field that stands alone (a tuple variant's payload): bytes, an array's
/// element type, an opaque generic parameter, a map, an enum or message named by its type, or
/// the element type.
pub open spec fn field_proto_type_spec(
    ty: RustType,
    config: FieldConfig,
    params: Seq<Seq<char>>,
) -> Seq<char> {
    let t = effective_type_spec(ty, config);
    if is_bytes_spec(t) {
        "bytes"@
    } else if t is Array {
        parsed_proto_type_spec(*(t->Array_0))
    } else if is_generic_param_spec(t, params) {
        "bytes"@
    } else if is_map_spec(wrapper_info_spec(t).2) {
        parsed_proto_type_spec(t)
    } else if config.is_rust_enum || config.is_proto_enum || config.is_message {
        path_ident_spec(t)
    } else {
        parsed_proto_type_spec(t)
    }
}

pub fn get_field_proto_type(ty: &RustType, config: &FieldConfig, params: &Vec<String>) -> (r:
    String)
    ensures
        r@ == field_proto_type_spec(*ty, *config, views(params@)),
{
    let t = effective_type(ty, config);
    if is_bytes(t) {
        return string_of("bytes");
    }
    if let RustType::Array(e) = t {
        return parse_field_type(e).proto_type;
    }
    if is_generic_param(t, params) {
        return string_of("bytes");
    }
    let parsed = parse_field_type(t);
    if parsed.is_map {
        return parsed.proto_type;
    }
    if config.is_rust_enum || config.is_proto_enum || config.is_message {
        return rust_type_path_ident(t);
    }
    parsed.proto_type
}

/// The modifiers and type a field is declared with in a message: a `rename` option replaces
/// the type and may force the modifiers; otherwise the unwrapped element type decides.
pub open spec fn resolved_field_spec(
    ty: RustType,
    config: FieldConfig,
    params: Seq<Seq<char>>,
) -> (bool, bool, Seq<char>) {
    let w = wrapper_info_spec(effective_type_spec(ty, config));
    match config.rename {
        Some(rn) => (
            match rn.is_optional {
                Some(f) => f,
                None => w.0,
            },
            match rn.is_repeated {
                Some(f) => f,
                None => w.1,
            },
            rn.proto_type@,
        ),
        None => (w.0, w.1, determine_proto_type_spec(w.2, config, params)),
    }
}

pub fn resolve_field(ty: &RustType, config: &FieldConfig, params: &Vec<String>) -> (r: (
    bool,
    bool,
    String,
))
    ensures
        r.0 == resolved_field_spec(*ty, *config, views(params@)).0,
        r.1 == resolved_field_spec(*ty, *config, views(params@)).1,
        r.2@ == resolved_field_spec(*ty, *config, views(params@)).2,
{
    let t = effective_type(ty, config);
    let (is_option, is_repeated, inner) = extract_field_wrapper_info(t);
    match &config.rename {
        Some(rn) => {
            let o = match rn.is_optional {
                Some(f) => f,
                None => is_option,
            };
            let r = match rn.is_repeated {
                Some(f) => f,
                None => is_repeated,
            };
            (o, r, rn.proto_type.clone())
        },
        None => (is_option, is_repeated, determine_proto_type(inner, config, params)),
    }
}

/// The override a `rename = Type` option describes: the type's element protobuf type, forcing
/// `optional` or `repeated` when the type has them and keeping the field's own otherwise.
pub open spec fn rename_from_type_spec(t: RustType) -> (Seq<char>, Option<bool>, Option<bool>) {
    let w = wrapper_info_spec(t);
    (
        parsed_proto_type_spec(t),
        if w.0 {
            Some(true)
        } else {
            None
        },
        if w.1 {
            Some(true)
        } else {
            None
        },
    )
}

pub fn rename_from_type(t: &RustType) -> (r: ProtoRename)
    ensures
        r.proto_type@ == rename_from_type_spec(*t).0,
        r.is_optional == rename_from_type_spec(*t).1,
        r.is_repeated == rename_from_type_spec(*t).2,
{
    let parsed = parse_field_type(t);
    ProtoRename {
        proto_type: parsed.proto_type,
        is_optional: if parsed.is_option {
            Some(true)
        } else {
            None
        },
        is_repeated: if parsed.is_repeated {
            Some(true)
        } else {
            None
        },
    }
}

/// The override a `rename = "text"` option describes: a leading `optional ` or `repeated `
/// forces that modifier, and the rest is the protobuf type.
pub open spec fn rename_from_text_spec(s: Seq<char>) -> (Seq<char>, Option<bool>, Option<bool>) {
    if s.len() >= 9 && s.subrange(0, 9) == "optional "@ {
        (s.subrange(9, s.len() as int), Some(true), None)
    } else if s.len() >= 9 && s.subrange(0, 9) == "repeated "@ {
        (s.subrange(9, s.len() as int), None, Some(true))
    } else {
        (s, None, None)
    }
}

pub fn rename_from_text(s: &str) -> (r: ProtoRename)
    ensures
        r.proto_type@ == rename_from_text_spec(s@).0,
        r.is_optional == rename_from_text_spec(s@).1,
        r.is_repeated == rename_from_text_spec(s@).2,
{
    let n = s.unicode_len();
    if n >= 9 {
        let head = s.substring_char(0, 9);
        let rest = s.substring_char(9, n);
        if str_eq(head, "optional ") {
            return ProtoRename {
                proto_type: string_of(rest),
                is_optional: Some(true),
                is_repeated: None,
            };
        }
        if str_eq(head, "repeated ") {
            return ProtoRename {
                proto_type: string_of(rest),
                is_optional: None,
                is_repeated: Some(true),
            };
        }
    }
    ProtoRename { proto_type: string_of(s), is_optional: None, is_repeated: None }
}

/// The kind of a Rust number type (a primitive, or its atomic or non-zero form), independent of any
/// protobuf naming: whether it is floating-point, whether it is signed, and its width in bits
/// (`usize` and `isize` as 64).
pub open spec fn rust_number(id: Seq<char>) -> Option<(bool, bool, nat)> {
    if id == "u8"@ {
        Some((false, false, 8))
    } else if id == "u16"@ {
        Some((false, false, 16))
    } else if id == "u32"@ {
        Some((false, false, 32))
    } else if id == "u64"@ {
        Some((false, false, 64))
    } else if id == "usize"@ {
        Some((false, false, 64))
    } else if id == "i8"@ {
        Some((false, true, 8))
    } else if id == "i16"@ {
        Some((false, true, 16))
    } else if id == "i32"@ {
        Some((false, true, 32))
    } else if id == "i64"@ {
        Some((false, true, 64))
    } else if id == "isize"@ {
        Some((false, true, 64))
    } else if id == "f32"@ {
        Some((true, true, 32))
    } else if id == "f64"@ {
        Some((true, true, 64))
    } else if id == "AtomicU8"@ {
        Some((false, false, 8))
    } else if id == "AtomicU16"@ {
        Some((false, false, 16))
    } else if id == "AtomicU32"@ {
        Some((false, false, 32))
    } else if id == "AtomicU64"@ {
        Some((false, false, 64))
    } else if id == "AtomicUsize"@ {
        Some((false, false, 64))
    } else if id == "AtomicI8"@ {
        Some((false, true, 8))
    } else if id == "AtomicI16"@ {
        Some((false, true, 16))
    } else if id == "AtomicI32"@ {
        Some((false, true, 32))
    } else if id == "AtomicI64"@ {
        Some((false, true, 64))
    } else if id == "AtomicIsize"@ {
        Some((false, true, 64))
    } else if id == "NonZeroU8"@ {
        Some((false, false, 8))
    } else if id == "NonZeroU16"@ {
        Some((false, false, 16))
    } else if id == "NonZeroU32"@ {
        Some((false, false, 32))
    } else if id == "NonZeroU64"@ {
        Some((false, false, 64))
    } else if id == "NonZeroUsize"@ {
        Some((false, false, 64))
    } else if id == "NonZeroI8"@ {
        Some((false, true, 8))
    } else if id == "NonZeroI16"@ {
        Some((false, true, 16))
    } else if id == "NonZeroI32"@ {
        Some((false, true, 32))
    } else if id == "NonZeroI64"@ {
        Some((false, true, 64))
    } else if id == "NonZeroIsize"@ {
        Some((false, true, 64))
    } else {
        None
    }
}

/// The kind of a protobuf numeric scalar: whether it is floating-point, whether it is signed, and
/// its width in bits.
pub open spec fn proto_number(id: Seq<char>) -> Option<(bool, bool, nat)> {
    if id == "uint32"@ {
        Some((false, false, 32))
    } else if id == "uint64"@ {
        Some((false, false, 64))
    } else if id == "int32"@ {
        Some((false, true, 32))
    } else if id == "int64"@ {
        Some((false, true, 64))
    } else if id == "float"@ {
        Some((true, true, 32))
    } else if id == "double"@ {
        Some((true, true, 64))
    } else {
        None
    }
}

/// The lengths of the type names `scalar_proto_spec` tells apart, and the names of equal length
/// that differ.
proof fn lemma_number_literals()
    ensures
        "AtomicBool"@.len() == 10,
        "AtomicI16"@.len() == 9,
        "AtomicI32"@.len() == 9,
        "AtomicI64"@.len() == 9,
        "AtomicI8"@.len() == 8,
        "AtomicIsize"@.len() == 11,
        "AtomicU16"@.len() == 9,
        "AtomicU32"@.len() == 9,
        "AtomicU64"@.len() == 9,
        "AtomicU8"@.len() == 8,
        "AtomicUsize"@.len() == 11,
        "Bytes"@.len() == 5,
        "NonZeroI16"@.len() == 10,
        "NonZeroI32"@.len() == 10,
        "NonZeroI64"@.len() == 10,
        "NonZeroI8"@.len() == 9,
        "NonZeroIsize"@.len() == 12,
        "NonZeroU16"@.len() == 10,
        "NonZeroU32"@.len() == 10,
        "NonZeroU64"@.len() == 10,
        "NonZeroU8"@.len() == 9,
        "NonZeroUsize"@.len() == 12,
        "String"@.len() == 6,
        "bool"@.len() == 4,
        "bytes"@.len() == 5,
        "double"@.len() == 6,
        "f32"@.len() == 3,
        "f64"@.len() == 3,
        "float"@.len() == 5,
        "i16"@.len() == 3,
        "i32"@.len() == 3,
        "i64"@.len() == 3,
        "i8"@.len() == 2,
        "int32"@.len() == 5,
        "int64"@.len() == 5,
        "isize"@.len() == 5,
        "string"@.len() == 6,
        "u16"@.len() == 3,
        "u32"@.len() == 3,
        "u64"@.len() == 3,
        "u8"@.len() == 2,
        "uint32"@.len() == 6,
        "uint64"@.len() == 6,
        "usize"@.len() == 5,
        "AtomicBool"@ != "NonZeroI16"@,
        "AtomicBool"@ != "NonZeroI32"@,
        "AtomicBool"@ != "NonZeroI64"@,
        "AtomicBool"@ != "NonZeroU16"@,
        "AtomicBool"@ != "NonZeroU32"@,
        "AtomicBool"@ != "NonZeroU64"@,
        "AtomicI16"@ != "AtomicI32"@,
        "AtomicI16"@ != "AtomicI64"@,
        "AtomicI16"@ != "AtomicU16"@,
        "AtomicI16"@ != "AtomicU32"@,
        "AtomicI16"@ != "AtomicU64"@,
        "AtomicI16"@ != "NonZeroI8"@,
        "AtomicI16"@ != "NonZeroU8"@,
        "AtomicI32"@ != "AtomicI64"@,
        "AtomicI32"@ != "AtomicU16"@,
        "AtomicI32"@ != "AtomicU32"@,
        "AtomicI32"@ != "AtomicU64"@,
        "AtomicI32"@ != "NonZeroI8"@,
        "AtomicI32"@ != "NonZeroU8"@,
        "AtomicI64"@ != "AtomicU16"@,
        "AtomicI64"@ != "AtomicU32"@,
        "AtomicI64"@ != "AtomicU64"@,
        "AtomicI64"@ != "NonZeroI8"@,
        "AtomicI64"@ != "NonZeroU8"@,
        "AtomicI8"@ != "AtomicU8"@,
        "AtomicIsize"@ != "AtomicUsize"@,
        "AtomicU16"@ != "AtomicU32"@,
        "AtomicU16"@ != "AtomicU64"@,
        "AtomicU16"@ != "NonZeroI8"@,
        "AtomicU16"@ != "NonZeroU8"@,
        "AtomicU32"@ != "AtomicU64"@,
        "AtomicU32"@ != "NonZeroI8"@,
        "AtomicU32"@ != "NonZeroU8"@,
        "AtomicU64"@ != "NonZeroI8"@,
        "AtomicU64"@ != "NonZeroU8"@,
        "Bytes"@ != "float"@,
        "Bytes"@ != "int32"@,
        "Bytes"@ != "int64"@,
        "Bytes"@ != "isize"@,
        "Bytes"@ != "usize"@,
        "NonZeroI16"@ != "NonZeroI32"@,
        "NonZeroI16"@ != "NonZeroI64"@,
        "NonZeroI16"@ != "NonZeroU16"@,
        "NonZeroI16"@ != "NonZeroU32"@,
        "NonZeroI16"@ != "NonZeroU64"@,
        "NonZeroI32"@ != "NonZeroI64"@,
        "NonZeroI32"@ != "NonZeroU16"@,
        "NonZeroI32"@ != "NonZeroU32"@,
        "NonZeroI32"@ != "NonZeroU64"@,
        "NonZeroI64"@ != "NonZeroU16"@,
        "NonZeroI64"@ != "NonZeroU32"@,
        "NonZeroI64"@ != "NonZeroU64"@,
        "NonZeroI8"@ != "NonZeroU8"@,
        "NonZeroIsize"@ != "NonZeroUsize"@,
        "NonZeroU16"@ != "NonZeroU32"@,
        "NonZeroU16"@ != "NonZeroU64"@,
        "NonZeroU32"@ != "NonZeroU64"@,
        "String"@ != "double"@,
        "String"@ != "uint32"@,
        "String"@ != "uint64"@,
        "bytes"@ != "float"@,
        "bytes"@ != "int32"@,
        "bytes"@ != "int64"@,
        "bytes"@ != "isize"@,
        "bytes"@ != "usize"@,
        "double"@ != "string"@,
        "double"@ != "uint32"@,
        "double"@ != "uint64"@,
        "f32"@ != "f64"@,
        "f32"@ != "i16"@,
        "f32"@ != "i32"@,
        "f32"@ != "i64"@,
        "f32"@ != "u16"@,
        "f32"@ != "u32"@,
        "f32"@ != "u64"@,
        "f64"@ != "i16"@,
        "f64"@ != "i32"@,
        "f64"@ != "i64"@,
        "f64"@ != "u16"@,
        "f64"@ != "u32"@,
        "f64"@ != "u64"@,
        "float"@ != "int32"@,
        "float"@ != "int64"@,
        "float"@ != "isize"@,
        "float"@ != "usize"@,
        "i16"@ != "i32"@,
        "i16"@ != "i64"@,
        "i16"@ != "u16"@,
        "i16"@ != "u32"@,
        "i16"@ != "u64"@,
        "i32"@ != "i64"@,
        "i32"@ != "u16"@,
        "i32"@ != "u32"@,
        "i32"@ != "u64"@,
        "i64"@ != "u16"@,
        "i64"@ != "u32"@,
        "i64"@ != "u64"@,
        "i8"@ != "u8"@,
        "int32"@ != "int64"@,
        "int32"@ != "isize"@,
        "int32"@ != "usize"@,
        "int64"@ != "isize"@,
        "int64"@ != "usize"@,
        "isize"@ != "usize"@,
        "string"@ != "uint32"@,
        "string"@ != "uint64"@,
        "u16"@ != "u32"@,
        "u16"@ != "u64"@,
        "u32"@ != "u64"@,
        "uint32"@ != "uint64"@,
{
    reveal_strlit("AtomicBool");
    reveal_strlit("AtomicI16");
    reveal_strlit("AtomicI32");
    reveal_strlit("AtomicI64");
    reveal_strlit("AtomicI8");
    reveal_strlit("AtomicIsize");
    reveal_strlit("AtomicU16");
    reveal_strlit("AtomicU32");
    reveal_strlit("AtomicU64");
    reveal_strlit("AtomicU8");
    reveal_strlit("AtomicUsize");
    reveal_strlit("Bytes");
    reveal_strlit("NonZeroI16");
    reveal_strlit("NonZeroI32");
    reveal_strlit("NonZeroI64");
    reveal_strlit("NonZeroI8");
    reveal_strlit("NonZeroIsize");
    reveal_strlit("NonZeroU16");
    reveal_strlit("NonZeroU32");
    reveal_strlit("NonZeroU64");
    reveal_strlit("NonZeroU8");
    reveal_strlit("NonZeroUsize");
    reveal_strlit("String");
    reveal_strlit("bool");
    reveal_strlit("bytes");
    reveal_strlit("double");
    reveal_strlit("f32");
    reveal_strlit("f64");
    reveal_strlit("float");
    reveal_strlit("i16");
    reveal_strlit("i32");
    reveal_strlit("i64");
    reveal_strlit("i8");
    reveal_strlit("int32");
    reveal_strlit("int64");
    reveal_strlit("isize");
    reveal_strlit("string");
    reveal_strlit("u16");
    reveal_strlit("u32");
    reveal_strlit("u64");
    reveal_strlit("u8");
    reveal_strlit("uint32");
    reveal_strlit("uint64");
    reveal_strlit("usize");
    assert("AtomicBool"@[0] != "NonZeroI16"@[0]);
    assert("AtomicBool"@[0] != "NonZeroI32"@[0]);
    assert("AtomicBool"@[0] != "NonZeroI64"@[0]);
    assert("AtomicBool"@[0] != "NonZeroU16"@[0]);
    assert("AtomicBool"@[0] != "NonZeroU32"@[0]);
    assert("AtomicBool"@[0] != "NonZeroU64"@[0]);
    assert("AtomicI16"@[7] != "AtomicI32"@[7]);
    assert("AtomicI16"@[7] != "AtomicI64"@[7]);
    assert("AtomicI16"@[6] != "AtomicU16"@[6]);
    assert("AtomicI16"@[6] != "AtomicU32"@[6]);
    assert("AtomicI16"@[6] != "AtomicU64"@[6]);
    assert("AtomicI16"@[0] != "NonZeroI8"@[0]);
    assert("AtomicI16"@[0] != "NonZeroU8"@[0]);
    assert("AtomicI32"@[7] != "AtomicI64"@[7]);
    assert("AtomicI32"@[6] != "AtomicU16"@[6]);
    assert("AtomicI32"@[6] != "AtomicU32"@[6]);
    assert("AtomicI32"@[6] != "AtomicU64"@[6]);
    assert("AtomicI32"@[0] != "NonZeroI8"@[0]);
    assert("AtomicI32"@[0] != "NonZeroU8"@[0]);
    assert("AtomicI64"@[6] != "AtomicU16"@[6]);
    assert("AtomicI64"@[6] != "AtomicU32"@[6]);
    assert("AtomicI64"@[6] != "AtomicU64"@[6]);
    assert("AtomicI64"@[0] != "NonZeroI8"@[0]);
    assert("AtomicI64"@[0] != "NonZeroU8"@[0]);
    assert("AtomicI8"@[6] != "AtomicU8"@[6]);
    assert("AtomicIsize"@[6] != "AtomicUsize"@[6]);
    assert("AtomicU16"@[7] != "AtomicU32"@[7]);
    assert("AtomicU16"@[7] != "AtomicU64"@[7]);
    assert("AtomicU16"@[0] != "NonZeroI8"@[0]);
    assert("AtomicU16"@[0] != "NonZeroU8"@[0]);
    assert("AtomicU32"@[7] != "AtomicU64"@[7]);
    assert("AtomicU32"@[0] != "NonZeroI8"@[0]);
    assert("AtomicU32"@[0] != "NonZeroU8"@[0]);
    assert("AtomicU64"@[0] != "NonZeroI8"@[0]);
    assert("AtomicU64"@[0] != "NonZeroU8"@[0]);
    assert("Bytes"@[0] != "float"@[0]);
    assert("Bytes"@[0] != "int32"@[0]);
    assert("Bytes"@[0] != "int64"@[0]);
    assert("Bytes"@[0] != "isize"@[0]);
    assert("Bytes"@[0] != "usize"@[0]);
    assert("NonZeroI16"@[8] != "NonZeroI32"@[8]);
    assert("NonZeroI16"@[8] != "NonZeroI64"@[8]);
    assert("NonZeroI16"@[7] != "NonZeroU16"@[7]);
    assert("NonZeroI16"@[7] != "NonZeroU32"@[7]);
    assert("NonZeroI16"@[7] != "NonZeroU64"@[7]);
    assert("NonZeroI32"@[8] != "NonZeroI64"@[8]);
    assert("NonZeroI32"@[7] != "NonZeroU16"@[7]);
    assert("NonZeroI32"@[7] != "NonZeroU32"@[7]);
    assert("NonZeroI32"@[7] != "NonZeroU64"@[7]);
    assert("NonZeroI64"@[7] != "NonZeroU16"@[7]);
    assert("NonZeroI64"@[7] != "NonZeroU32"@[7]);
    assert("NonZeroI64"@[7] != "NonZeroU64"@[7]);
    assert("NonZeroI8"@[7] != "NonZeroU8"@[7]);
    assert("NonZeroIsize"@[7] != "NonZeroUsize"@[7]);
    assert("NonZeroU16"@[8] != "NonZeroU32"@[8]);
    assert("NonZeroU16"@[8] != "NonZeroU64"@[8]);
    assert("NonZeroU32"@[8] != "NonZeroU64"@[8]);
    assert("String"@[0] != "double"@[0]);
    assert("String"@[0] != "uint32"@[0]);
    assert("String"@[0] != "uint64"@[0]);
    assert("bytes"@[0] != "float"@[0]);
    assert("bytes"@[0] != "int32"@[0]);
    assert("bytes"@[0] != "int64"@[0]);
    assert("bytes"@[0] != "isize"@[0]);
    assert("bytes"@[0] != "usize"@[0]);
    assert("double"@[0] != "string"@[0]);
    assert("double"@[0] != "uint32"@[0]);
    assert("double"@[0] != "uint64"@[0]);
    assert("f32"@[1] != "f64"@[1]);
    assert("f32"@[0] != "i16"@[0]);
    assert("f32"@[0] != "i32"@[0]);
    assert("f32"@[0] != "i64"@[0]);
    assert("f32"@[0] != "u16"@[0]);
    assert("f32"@[0] != "u32"@[0]);
    assert("f32"@[0] != "u64"@[0]);
    assert("f64"@[0] != "i16"@[0]);
    assert("f64"@[0] != "i32"@[0]);
    assert("f64"@[0] != "i64"@[0]);
    assert("f64"@[0] != "u16"@[0]);
    assert("f64"@[0] != "u32"@[0]);
    assert("f64"@[0] != "u64"@[0]);
    assert("float"@[0] != "int32"@[0]);
    assert("float"@[0] != "int64"@[0]);
    assert("float"@[0] != "isize"@[0]);
    assert("float"@[0] != "usize"@[0]);
    assert("i16"@[1] != "i32"@[1]);
    assert("i16"@[1] != "i64"@[1]);
    assert("i16"@[0] != "u16"@[0]);
    assert("i16"@[0] != "u32"@[0]);
    assert("i16"@[0] != "u64"@[0]);
    assert("i32"@[1] != "i64"@[1]);
    assert("i32"@[0] != "u16"@[0]);
    assert("i32"@[0] != "u32"@[0]);
    assert("i32"@[0] != "u64"@[0]);
    assert("i64"@[0] != "u16"@[0]);
    assert("i64"@[0] != "u32"@[0]);
    assert("i64"@[0] != "u64"@[0]);
    assert("i8"@[0] != "u8"@[0]);
    assert("int32"@[3] != "int64"@[3]);
    assert("int32"@[1] != "isize"@[1]);
    assert("int32"@[0] != "usize"@[0]);
    assert("int64"@[1] != "isize"@[1]);
    assert("int64"@[0] != "usize"@[0]);
    assert("isize"@[0] != "usize"@[0]);
    assert("string"@[0] != "uint32"@[0]);
    assert("string"@[0] != "uint64"@[0]);
    assert("u16"@[1] != "u32"@[1]);
    assert("u16"@[1] != "u64"@[1]);
    assert("u32"@[1] != "u64"@[1]);
    assert("uint32"@[4] != "uint64"@[4]);
}

proof fn lemma_number_u8()
    ensures
        scalar_proto_spec("u8"@) == Some("uint32"@),
        rust_number("u8"@) == Some((false, false, 8nat)),
        proto_number("uint32"@) == Some((false, false, 32nat)),
{
    lemma_number_literals();
}

proof fn lemma_number_u16()
    ensures
        scalar_proto_spec("u16"@) == Some("uint32"@),
        rust_number("u16"@) == Some((false, false, 16nat)),
        proto_number("uint32"@) == Some((false, false, 32nat)),
{
    lemma_number_literals();
}

proof fn lemma_number_u32()
    ensures
        scalar_proto_spec("u32"@) == Some("uint32"@),
        rust_number("u32"@) == Some((false, false, 32nat)),
        proto_number("uint32"@) == Some((false, false, 32nat)),
{
    lemma_number_literals();
}

proof fn lemma_number_u64()
    ensures
        scalar_proto_spec("u64"@) == Some("uint64"@),
        rust_number("u64"@) == Some((false, false, 64nat)),
        proto_number("uint64"@) == Some((false, false, 64nat)),
{
    lemma_number_literals();
}

proof fn lemma_number_usize()
    ensures
        scalar_proto_spec("usize"@) == Some("uint64"@),
        rust_number("usize"@) == Some((false, false, 64nat)),
        proto_number("uint64"@) == Some((false, false, 64nat)),
{
    lemma_number_literals();
}

proof fn lemma_number_i8()
    ensures
        scalar_proto_spec("i8"@) == Some("int32"@),
        rust_number("i8"@) == Some((false, true, 8nat)),
        proto_number("int32"@) == Some((false, true, 32nat)),
{
    lemma_number_literals();
}

proof fn lemma_number_i16()
    ensures
        scalar_proto_spec("i16"@) == Some("int32"@),
        rust_number("i16"@) == Some((false, true, 16nat)),
        proto_number("int32"@) == Some((false, true, 32nat)),
{
    lemma_number_literals();
}

proof fn lemma_number_i32()
    ensures
        scalar_proto_spec("i32"@) == Some("int32"@),
        rust_number("i32"@) == Some((false, true, 32nat)),
        proto_number("int32"@) == Some((false, true, 32nat)),
{
    lemma_number_literals();
}

proof fn lemma_number_i64()
    ensures
        scalar_proto_spec("i64"@) == Some("int64"@),
        rust_number("i64"@) == Some((false, true, 64nat)),
        proto_number("int64"@) == Some((false, true, 64nat)),
{
    lemma_number_literals();
}

proof fn lemma_number_isize()
    ensures
        scalar_proto_spec("isize"@) == Some("int64"@),
        rust_number("isize"@) == Some((false, true, 64nat)),
        proto_number("int64"@) == Some((false, true, 64nat)),
{
    lemma_number_literals();
}

proof fn lemma_number_f32()
    ensures
        scalar_proto_spec("f32"@) == Some("float"@),
        rust_number("f32"@) == Some((true, true, 32nat)),
        proto_number("float"@) == Some((true, true, 32nat)),
{
    lemma_number_literals();
}

proof fn lemma_number_f64()
    ensures
        scalar_proto_spec("f64"@) == Some("double"@),
        rust_number("f64"@) == Some((true, true, 64nat)),
        proto_number("double"@) == Some((true, true, 64nat)),
{
    lemma_number_literals();
}

proof fn lemma_number_AtomicU8()
    ensures
        scalar_proto_spec("AtomicU8"@) == Some("uint32"@),
        rust_number("AtomicU8"@) == Some((false, false, 8nat)),
        proto_number("uint32"@) == Some((false, false, 32nat)),
{
    lemma_number_literals();
}

proof fn lemma_number_AtomicU16()
    ensures
        scalar_proto_spec("AtomicU16"@) == Some("uint32"@),
        rust_number("AtomicU16"@) == Some((false, false, 16nat)),
        proto_number("uint32"@) == Some((false, false, 32nat)),
{
    lemma_number_literals();
}

proof fn lemma_number_AtomicU32()
    ensures
        scalar_proto_spec("AtomicU32"@) == Some("uint32"@),
        rust_number("AtomicU32"@) == Some((false, false, 32nat)),
        proto_number("uint32"@) == Some((false, false, 32nat)),
{
    lemma_number_literals();
}

proof fn lemma_number_AtomicU64()
    ensures
        scalar_proto_spec("AtomicU64"@) == Some("uint64"@),
        rust_number("AtomicU64"@) == Some((false, false, 64nat)),
        proto_number("uint64"@) == Some((false, false, 64nat)),
{
    lemma_number_literals();
}

proof fn lemma_number_AtomicUsize()
    ensures
        scalar_proto_spec("AtomicUsize"@) == Some("uint64"@),
        rust_number("AtomicUsize"@) == Some((false, false, 64nat)),
        proto_number("uint64"@) == Some((false, false, 64nat)),
{
    lemma_number_literals();
}

proof fn lemma_number_AtomicI8()
    ensures
        scalar_proto_spec("AtomicI8"@) == Some("int32"@),
        rust_number("AtomicI8"@) == Some((false, true, 8nat)),
        proto_number("int32"@) == Some((false, true, 32nat)),
{
    lemma_number_literals();
}

proof fn lemma_number_AtomicI16()
    ensures
        scalar_proto_spec("AtomicI16"@) == Some("int32"@),
        rust_number("AtomicI16"@) == Some((false, true, 16nat)),
        proto_number("int32"@) == Some((false, true, 32nat)),
{
    lemma_number_literals();
}

proof fn lemma_number_AtomicI32()
    ensures
        scalar_proto_spec("AtomicI32"@) == Some("int32"@),
        rust_number("AtomicI32"@) == Some((false, true, 32nat)),
        proto_number("int32"@) == Some((false, true, 32nat)),
{
    lemma_number_literals();
}

proof fn lemma_number_AtomicI64()
    ensures
        scalar_proto_spec("AtomicI64"@) == Some("int64"@),
        rust_number("AtomicI64"@) == Some((false, true, 64nat)),
        proto_number("int64"@) == Some((false, true, 64nat)),
{
    lemma_number_literals();
}

proof fn lemma_number_AtomicIsize()
    ensures
        scalar_proto_spec("AtomicIsize"@) == Some("int64"@),
        rust_number("AtomicIsize"@) == Some((false, true, 64nat)),
        proto_number("int64"@) == Some((false, true, 64nat)),
{
    lemma_number_literals();
}

proof fn lemma_number_NonZeroU8()
    ensures
        scalar_proto_spec("NonZeroU8"@) == Some("uint32"@),
        rust_number("NonZeroU8"@) == Some((false, false, 8nat)),
        proto_number("uint32"@) == Some((false, false, 32nat)),
{
    lemma_number_literals();
}

proof fn lemma_number_NonZeroU16()
    ensures
        scalar_proto_spec("NonZeroU16"@) == Some("uint32"@),
        rust_number("NonZeroU16"@) == Some((false, false, 16nat)),
        proto_number("uint32"@) == Some((false, false, 32nat)),
{
    lemma_number_literals();
}

proof fn lemma_number_NonZeroU32()
    ensures
        scalar_proto_spec("NonZeroU32"@) == Some("uint32"@),
        rust_number("NonZeroU32"@) == Some((false, false, 32nat)),
        proto_number("uint32"@) == Some((false, false, 32nat)),
{
    lemma_number_literals();
}

proof fn lemma_number_NonZeroU64()
    ensures
        scalar_proto_spec("NonZeroU64"@) == Some("uint64"@),
        rust_number("NonZeroU64"@) == Some((false, false, 64nat)),
        proto_number("uint64"@) == Some((false, false, 64nat)),
{
    lemma_number_literals();
}

proof fn lemma_number_NonZeroUsize()
    ensures
        scalar_proto_spec("NonZeroUsize"@) == Some("uint64"@),
        rust_number("NonZeroUsize"@) == Some((false, false, 64nat)),
        proto_number("uint64"@) == Some((false, false, 64nat)),
{
    lemma_number_literals();
}

proof fn lemma_number_NonZeroI8()
    ensures
        scalar_proto_spec("NonZeroI8"@) == Some("int32"@),
        rust_number("NonZeroI8"@) == Some((false, true, 8nat)),
        proto_number("int32"@) == Some((false, true, 32nat)),
{
    lemma_number_literals();
}

proof fn lemma_number_NonZeroI16()
    ensures
        scalar_proto_spec("NonZeroI16"@) == Some("int32"@),
        rust_number("NonZeroI16"@) == Some((false, true, 16nat)),
        proto_number("int32"@) == Some((false, true, 32nat)),
{
    lemma_number_literals();
}

proof fn lemma_number_NonZeroI32()
    ensures
        scalar_proto_spec("NonZeroI32"@) == Some("int32"@),
        rust_number("NonZeroI32"@) == Some((false, true, 32nat)),
        proto_number("int32"@) == Some((false, true, 32nat)),
{
    lemma_number_literals();
}

proof fn lemma_number_NonZeroI64()
    ensures
        scalar_proto_spec("NonZeroI64"@) == Some("int64"@),
        rust_number("NonZeroI64"@) == Some((false, true, 64nat)),
        proto_number("int64"@) == Some((false, true, 64nat)),
{
    lemma_number_literals();
}

proof fn lemma_number_NonZeroIsize()
    ensures
        scalar_proto_spec("NonZeroIsize"@) == Some("int64"@),
        rust_number("NonZeroIsize"@) == Some((false, true, 64nat)),
        proto_number("int64"@) == Some((false, true, 64nat)),
{
    lemma_number_literals();
}

/// A number type keeps its kind in protobuf: floating-point types map to floating-point
/// scalars of the same width (`f32` to `float`, `f64` to `double`), signed integers to signed
/// scalars and unsigned to unsigned, integers narrower than 32 bits widened to 32.
pub proof fn lemma_scalar_keeps_number_kind(id: Seq<char>)
    ensures
        rust_number(id) matches Some((float, signed, bits)) ==> scalar_proto_spec(id) matches Some(p)
            && proto_number(p) == Some((float, signed, if bits <= 32 { 32nat } else { 64nat })),
{
    if id == "u8"@ {
        lemma_number_u8();
    } else if id == "u16"@ {
        lemma_number_u16();
    } else if id == "u32"@ {
        lemma_number_u32();
    } else if id == "u64"@ {
        lemma_number_u64();
    } else if id == "usize"@ {
        lemma_number_usize();
    } else if id == "i8"@ {
        lemma_number_i8();
    } else if id == "i16"@ {
        lemma_number_i16();
    } else if id == "i32"@ {
        lemma_number_i32();
    } else if id == "i64"@ {
        lemma_number_i64();
    } else if id == "isize"@ {
        lemma_number_isize();
    } else if id == "f32"@ {
        lemma_number_f32();
    } else if id == "f64"@ {
        lemma_number_f64();
    } else if id == "AtomicU8"@ {
        lemma_number_AtomicU8();
    } else if id == "AtomicU16"@ {
        lemma_number_AtomicU16();
    } else if id == "AtomicU32"@ {
        lemma_number_AtomicU32();
    } else if id == "AtomicU64"@ {
        lemma_number_AtomicU64();
    } else if id == "AtomicUsize"@ {
        lemma_number_AtomicUsize();
    } else if id == "AtomicI8"@ {
        lemma_number_AtomicI8();
    } else if id == "AtomicI16"@ {
        lemma_number_AtomicI16();
    } else if id == "AtomicI32"@ {
        lemma_number_AtomicI32();
    } else if id == "AtomicI64"@ {
        lemma_number_AtomicI64();
    } else if id == "AtomicIsize"@ {
        lemma_number_AtomicIsize();
    } else if id == "NonZeroU8"@ {
        lemma_number_NonZeroU8();
    } else if id == "NonZeroU16"@ {
        lemma_number_NonZeroU16();
    } else if id == "NonZeroU32"@ {
        lemma_number_NonZeroU32();
    } else if id == "NonZeroU64"@ {
        lemma_number_NonZeroU64();
    } else if id == "NonZeroUsize"@ {
        lemma_number_NonZeroUsize();
    } else if id == "NonZeroI8"@ {
        lemma_number_NonZeroI8();
    } else if id == "NonZeroI16"@ {
        lemma_number_NonZeroI16();
    } else if id == "NonZeroI32"@ {
        lemma_number_NonZeroI32();
    } else if id == "NonZeroI64"@ {
        lemma_number_NonZeroI64();
    } else if id == "NonZeroIsize"@ {
        lemma_number_NonZeroIsize();
    }
}

} // verus!
