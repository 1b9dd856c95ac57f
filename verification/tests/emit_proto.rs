use prosto_derive::emit::{
    generate_named_struct_proto, generate_service_content, generate_tuple_struct_proto,
};
use prosto_derive::field::FieldConfig;
use prosto_derive::model::{FieldModel, ImportGroup, MethodModel};
use prosto_derive::proto_type::{
    determine_proto_type, extract_field_wrapper_info, get_field_proto_type, rename_from_text,
    rename_from_type,
};
use prosto_derive::types::{GenericArg, PathSegment, RustType, TypePath};

fn seg(ident: &str, args: Vec<RustType>) -> PathSegment {
    PathSegment { ident: ident.to_string(), args: args.into_iter().map(GenericArg::Type).collect() }
}

/// A path type `a::b::C` without generic arguments.
fn path(p: &str) -> RustType {
    RustType::Path(TypePath {
        qself: false,
        segments: p.split("::").map(|s| seg(s, vec![])).collect(),
    })
}

/// A path type whose last segment has the given type arguments.
fn generic(p: &str, args: Vec<RustType>) -> RustType {
    let names: Vec<&str> = p.split("::").collect();
    let mut segments: Vec<PathSegment> = names[..names.len() - 1].iter().map(|s| seg(s, vec![])).collect();
    segments.push(seg(names[names.len() - 1], args));
    RustType::Path(TypePath { qself: false, segments })
}

fn render(t: &RustType) -> String {
    match t {
        RustType::Path(p) => p
            .segments
            .iter()
            .map(|s| {
                if s.args.is_empty() {
                    s.ident.clone()
                } else {
                    let args: Vec<String> = s
                        .args
                        .iter()
                        .map(|a| match a {
                            GenericArg::Type(t) => render(t),
                            _ => "_".to_string(),
                        })
                        .collect();
                    format!("{}<{}>", s.ident, args.join(", "))
                }
            })
            .collect::<Vec<_>>()
            .join("::"),
        RustType::Reference(e) => format!("&{}", render(e)),
        RustType::Paren(e) => format!("({})", render(e)),
        RustType::Array(e) => format!("[{}; N]", render(e)),
        RustType::Slice(e) => format!("[{}]", render(e)),
        RustType::Tuple(v) => format!("({})", v.iter().map(render).collect::<Vec<_>>().join(", ")),
        _ => "_".to_string(),
    }
}

fn field(name: &str, ty: RustType, config: FieldConfig) -> FieldModel {
    FieldModel { name: name.to_string(), ty, config }
}

fn method(name: &str, request: RustType, response: RustType) -> MethodModel {
    MethodModel {
        name: name.to_string(),
        request_type: request,
        response_type: response,
        is_streaming: false,
        inner_response_type: None,
    }
}

#[test]
fn qualify_type_name_falls_back_to_import_all_from() {
    let proto_imports =
        vec![ImportGroup { package: "custom".to_string(), types: vec!["Special".to_string()] }];
    let methods = vec![
        method("foo", path("Foo"), path("Bar")),
        method("special", path("Special"), path("Bar")),
    ];

    let service = generate_service_content("Example", &methods, &proto_imports, Some("shared"));

    assert!(service.contains("rpc Foo(shared.Foo) returns (shared.Bar)"));
    assert!(service.contains("rpc Special(custom.Special) returns (shared.Bar)"));
}

#[test]
fn test_get_field_proto_type() {
    let no_params: Vec<String> = vec![];
    let ty = RustType::Array(Box::new(path("u8")));
    assert_eq!(get_field_proto_type(&ty, &FieldConfig::plain(), &no_params), "bytes");
    let ty = RustType::Array(Box::new(path("u8")));
    assert_eq!(get_field_proto_type(&ty, &FieldConfig::plain(), &no_params), "bytes");
    let ty = generic("Vec", vec![path("u8")]);
    assert_eq!(get_field_proto_type(&ty, &FieldConfig::plain(), &no_params), "bytes");

    let ty = path("u32");
    assert_eq!(get_field_proto_type(&ty, &FieldConfig::plain(), &no_params), "uint32");

    let ty = path("String");
    assert_eq!(get_field_proto_type(&ty, &FieldConfig::plain(), &no_params), "string");

    let mut config = FieldConfig::plain();
    config.treat_as = Some(generic("std::collections::HashSet", vec![path("u32")]));
    let ty = path("MySet");
    assert_eq!(get_field_proto_type(&ty, &config, &no_params), "uint32");
}

#[test]
fn cache_padded_vec_is_repeated() {
    let ty = generic("crossbeam_utils::CachePadded", vec![generic("Vec", vec![path("u32")])]);
    let (is_option, is_repeated, inner) = extract_field_wrapper_info(&ty);

    assert!(!is_option);
    assert!(is_repeated);
    assert_eq!(render(inner), "u32");
}

#[test]
fn cache_padded_option_is_optional() {
    let ty = generic("crossbeam_utils::CachePadded", vec![generic("Option", vec![path("String")])]);
    let (is_option, is_repeated, inner) = extract_field_wrapper_info(&ty);

    assert!(is_option);
    assert!(!is_repeated);
    assert_eq!(render(inner), "String");
}

#[test]
fn service_content_handles_generic_types() {
    let methods = vec![method(
        "with_generic",
        generic("IdGeneric", vec![path("u64")]),
        generic("IdGeneric", vec![path("u32")]),
    )];

    let proto_imports: Vec<ImportGroup> = vec![];
    let service = generate_service_content("SigmaRpc", &methods, &proto_imports, None);

    assert!(service.contains("rpc WithGeneric(IdGenericU64) returns (IdGenericU32) {}"));
}

#[test]
fn arc_swap_vec_is_repeated() {
    let ty = generic("arc_swap::ArcSwap", vec![generic("Vec", vec![path("u32")])]);
    let (is_option, is_repeated, inner) = extract_field_wrapper_info(&ty);

    assert!(!is_option);
    assert!(is_repeated);
    assert_eq!(render(inner), "u32");
}

#[test]
fn arc_swap_vec_u8_is_bytes() {
    let ty = generic("arc_swap::ArcSwap", vec![generic("Vec", vec![path("u8")])]);
    let (is_option, is_repeated, inner) = extract_field_wrapper_info(&ty);

    assert!(!is_option);
    assert!(!is_repeated);
    assert_eq!(render(inner), "Vec<u8>");
    let no_params: Vec<String> = vec![];
    assert_eq!(determine_proto_type(inner, &FieldConfig::plain(), &no_params), "bytes");
}

#[test]
fn arc_swap_option_is_optional() {
    let ty = generic("arc_swap::ArcSwapOption", vec![path("String")]);
    let (is_option, is_repeated, inner) = extract_field_wrapper_info(&ty);

    assert!(is_option);
    assert!(!is_repeated);
    assert_eq!(render(inner), "String");
}

#[test]
fn vec_deque_is_repeated() {
    let ty = generic("std::collections::VecDeque", vec![path("u32")]);
    let (is_option, is_repeated, inner) = extract_field_wrapper_info(&ty);

    assert!(!is_option);
    assert!(is_repeated);
    assert_eq!(render(inner), "u32");
}

#[test]
fn option_vec_deque_is_optional_repeated() {
    let ty = generic("Option", vec![generic("std::collections::VecDeque", vec![path("String")])]);
    let (is_option, is_repeated, inner) = extract_field_wrapper_info(&ty);

    assert!(is_option);
    assert!(is_repeated);
    assert_eq!(render(inner), "String");
}

#[test]
fn option_map_is_optional_not_repeated() {
    let ty = generic(
        "Option",
        vec![generic("std::collections::HashMap", vec![path("String"), path("u32")])],
    );
    let (is_option, is_repeated, inner) = extract_field_wrapper_info(&ty);

    assert!(is_option);
    assert!(!is_repeated);
    assert_eq!(render(inner), "std::collections::HashMap<String, u32>");
}

#[test]
fn rename_rust_type_to_scalar_proto() {
    let mut config = FieldConfig::plain();
    config.rename = Some(rename_from_type(&path("u64")));
    let fields = vec![field("id", generic("Option", vec![path("MyId")]), config)];

    let proto = generate_named_struct_proto("User", &fields, &vec![]);
    assert!(proto.contains("optional uint64 id = 1;"));
}

#[test]
fn rename_vec_bytes_to_bytes_scalar() {
    let mut config = FieldConfig::plain();
    config.rename = Some(rename_from_type(&generic("Vec", vec![path("u8")])));
    let fields = vec![field("payload", path("Blob"), config)];

    let proto = generate_named_struct_proto("Packet", &fields, &vec![]);
    assert!(proto.contains("bytes payload = 1;"));
}

#[test]
fn rename_vec_to_repeated_scalar() {
    let mut config = FieldConfig::plain();
    config.rename = Some(rename_from_type(&generic("Vec", vec![path("u64")])));
    let fields = vec![field("values", path("Numbers"), config)];

    let proto = generate_named_struct_proto("Counter", &fields, &vec![]);
    assert!(proto.contains("repeated uint64 values = 1;"));
}

#[test]
fn rename_proto_string_overrides_modifier() {
    let mut config = FieldConfig::plain();
    config.rename = Some(rename_from_text("optional uint64"));
    let fields = vec![field("id", path("MyId"), config)];

    let proto = generate_named_struct_proto("Record", &fields, &vec![]);
    assert!(proto.contains("optional uint64 id = 1;"));
}

#[test]
fn tuple_struct_field_honors_rename() {
    let mut config = FieldConfig::plain();
    config.rename = Some(rename_from_type(&generic("Vec", vec![path("u64")])));
    let fields = vec![field("", path("Numbers"), config)];

    let proto = generate_tuple_struct_proto("Wrapper", &fields, &vec![]);
    assert!(proto.contains("repeated uint64 field_0 = 1;"));
}

#[test]
fn atomic_types_render_as_scalars() {
    let atomics = [
        "AtomicBool", "AtomicU8", "AtomicU16", "AtomicU32", "AtomicU64", "AtomicI8", "AtomicI16",
        "AtomicI32", "AtomicI64",
    ];
    let fields: Vec<FieldModel> = atomics
        .iter()
        .enumerate()
        .map(|(i, a)| {
            field(&format!("f{}", i + 1), path(&format!("core::sync::atomic::{a}")), FieldConfig::plain())
        })
        .collect();

    let proto = generate_named_struct_proto("AtomicWrapper", &fields, &vec![]);

    assert!(proto.contains("bool f1 = 1;"));
    assert!(proto.contains("uint32 f2 = 2;"));
    assert!(proto.contains("uint32 f3 = 3;"));
    assert!(proto.contains("uint32 f4 = 4;"));
    assert!(proto.contains("uint64 f5 = 5;"));
    assert!(proto.contains("int32 f6 = 6;"));
    assert!(proto.contains("int32 f7 = 7;"));
    assert!(proto.contains("int32 f8 = 8;"));
    assert!(proto.contains("int64 f9 = 9;"));
}

fn field_with(name: &str, ty: RustType, config: FieldConfig) -> FieldModel {
    FieldModel { name: name.to_string(), ty, config }
}

#[test]
fn proto_numbers_follow_the_wire_tags_after_a_custom_tag() {
    let mut tagged = FieldConfig::plain();
    tagged.custom_tag = Some(2);
    let fields = vec![
        field_with("a", path("u32"), tagged),
        field_with("b", path("u32"), FieldConfig::plain()),
        field_with("c", path("u32"), FieldConfig::plain()),
    ];
    assert_eq!(
        prosto_derive::emit::generate_named_fields(&fields, &vec![]),
        "  uint32 a = 2;\n  uint32 b = 1;\n  uint32 c = 3;"
    );
}

#[test]
fn tuple_proto_numbers_skip_skipped_elements() {
    let mut skipped = FieldConfig::plain();
    skipped.skip = true;
    let fields = vec![field_with("", path("u32"), skipped), field_with("", path("u64"), FieldConfig::plain())];
    assert_eq!(generate_tuple_struct_proto("Pair", &fields, &vec![]), "message Pair {\n  uint64 field_1 = 1;\n}\n\n");
}
