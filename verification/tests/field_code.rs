use prosto_derive::field::{FieldConfig, ParsedFieldType, TypeText};
use prosto_derive::field_code::{
    FieldAccess, FieldInfo, TypeCode, build_clear_stmts, build_decode_match_arms, build_post_decode_hooks,
    build_proto_default_expr, decode_conversion_assign, encode_conversion_expr, encode_input_binding,
    field_proto_default_expr, fields_code, parse_path_string, replace_dollar,
};
use prosto_derive::field_types::{compute_decode_ty, compute_proto_ty};
use prosto_derive::model::FieldsModel;
use prosto_derive::proto_type::{effective_type, parse_field_type};
use prosto_derive::types::{GenericArg, PathSegment, RustType, TypePath};

fn path(p: &str) -> RustType {
    RustType::Path(TypePath {
        qself: false,
        segments: p.split("::").map(|s| PathSegment { ident: s.to_string(), args: Vec::<GenericArg>::new() }).collect(),
    })
}

fn generic(outer: &str, inner: RustType) -> RustType {
    RustType::Path(TypePath {
        qself: false,
        segments: vec![PathSegment { ident: outer.to_string(), args: vec![GenericArg::Type(inner)] }],
    })
}

fn code(ty: RustType, text: &str) -> TypeCode {
    TypeCode { ty, code: text.to_string() }
}

/// A field as the derive macros describe it: its types follow from its options.
fn info(index: usize, access: FieldAccess, ty: RustType, ty_code: &str, config: FieldConfig, tag: Option<u32>) -> FieldInfo {
    let effective = effective_type(&ty, &config);
    let parsed = parse_field_type(effective);
    let proto_ty = compute_proto_ty(&config, &parsed, effective);
    let decode_ty = compute_decode_ty(&config, &parsed, &proto_ty);
    let proto_code = match &config.into_type {
        Some(t) => t.text.clone(),
        None if config.is_rust_enum || config.is_proto_enum => "i32".to_string(),
        None => ty_code.to_string(),
    };
    let decode_code = match &config.from_type {
        Some(t) => t.text.clone(),
        None => proto_code.clone(),
    };
    let ident = match &access {
        FieldAccess::Named(name) => Some(name.clone()),
        _ => None,
    };
    FieldInfo {
        index,
        ident,
        field_ty: code(ty, ty_code),
        access,
        config,
        tag,
        parsed,
        proto_ty: code(proto_ty, &proto_code),
        decode_ty: code(decode_ty, &decode_code),
    }
}

fn tagged(config: FieldConfig) -> FieldConfig {
    let mut c = config;
    c.custom_tag = Some(1);
    c
}

#[test]
fn direct_scalar_field_derefs_binding() {
    let field = info(0, FieldAccess::Direct("value".to_string()), path("u32"), "u32", tagged(FieldConfig::plain()), Some(1));
    let binding = encode_input_binding(&field, "");
    assert!(binding.prelude.is_none());
    let rendered = binding.value;
    assert!(rendered.contains("Borrow :: borrow"), "binding should borrow before copying: {rendered}");
}

#[test]
fn field_access_reaches_named_tuple_and_bound_fields() {
    assert_eq!(FieldAccess::Named("id".to_string()).access_tokens("self"), "self . id");
    assert_eq!(FieldAccess::Tuple(12).access_tokens("value"), "value . 12");
    assert_eq!(FieldAccess::Direct("inner".to_string()).access_tokens("self"), "inner");
    assert_eq!(FieldAccess::Named("id".to_string()).ident().map(|s| s.as_str()), Some("id"));
    assert!(FieldAccess::Tuple(0).ident().is_none());
    assert!(FieldAccess::Direct("x".to_string()).ident().is_none());
}

#[test]
fn named_field_binding_is_its_access() {
    let field = info(0, FieldAccess::Named("count".to_string()), path("u32"), "u32", FieldConfig::plain(), Some(1));
    let binding = encode_input_binding(&field, "self");
    assert!(binding.prelude.is_none());
    assert_eq!(binding.value, "self . count");
}

#[test]
fn optional_field_binding_borrows_its_content() {
    let field = info(1, FieldAccess::Named("note".to_string()), generic("Option", path("String")), "Option < String >", FieldConfig::plain(), Some(2));
    let binding = encode_input_binding(&field, "self");
    assert!(binding.prelude.is_none());
    assert_eq!(binding.value, "(self . note) . as_ref ()");
}

#[test]
fn enum_field_binding_converts_to_i32_by_value() {
    let mut config = FieldConfig::plain();
    config.is_rust_enum = true;
    let field = info(3, FieldAccess::Named("status".to_string()), path("Status"), "Status", config, Some(4));
    let binding = encode_input_binding(&field, "self");
    assert_eq!(binding.prelude.as_deref(), Some("let __proto_rs_field_3_converted : i32 = (* (self . status)) as i32 ;"));
    assert_eq!(binding.value, "__proto_rs_field_3_converted");
}

#[test]
fn into_type_binding_converts_through_from_by_reference() {
    let mut config = FieldConfig::plain();
    config.into_type = Some(TypeText { text: "Wire".to_string(), parsed: Some(path("Wire")) });
    let field = info(0, FieldAccess::Tuple(0), path("Local"), "Local", config, Some(1));
    let binding = encode_input_binding(&field, "self");
    assert_eq!(
        binding.prelude.as_deref(),
        Some("let __proto_rs_field_0_converted : Wire = < Wire as :: core :: convert :: From < _ > > :: from ((* (self . 0)) . clone ()) ;")
    );
    assert_eq!(binding.value, "& __proto_rs_field_0_converted");
}

#[test]
fn getter_replaces_the_base_marker() {
    let mut config = FieldConfig::plain();
    config.getter = Some("$.total()".to_string());
    let field = info(0, FieldAccess::Named("total".to_string()), path("u64"), "u64", config, Some(1));
    let binding = encode_input_binding(&field, "self");
    assert_eq!(binding.value, "self.total()");
    assert_eq!(replace_dollar("$.a + $.b", "x"), "x.a + x.b");
    assert_eq!(replace_dollar("plain", "x"), "plain");
}

#[test]
fn conversion_expressions_follow_the_options() {
    let mut into_fn = FieldConfig::plain();
    into_fn.into_fn = Some("crate::to_wire".to_string());
    let field = info(0, FieldAccess::Named("a".to_string()), path("Local"), "Local", into_fn, Some(1));
    assert_eq!(encode_conversion_expr(&field, "self . a"), "crate::to_wire (self . a)");

    let plain = info(0, FieldAccess::Named("a".to_string()), path("u32"), "u32", FieldConfig::plain(), Some(1));
    assert_eq!(encode_conversion_expr(&plain, "self . a"), "self . a");
}

#[test]
fn decode_assignments_follow_the_options() {
    let mut config = FieldConfig::plain();
    config.is_proto_enum = true;
    let field = info(0, FieldAccess::Named("kind".to_string()), path("Kind"), "Kind", config, Some(1));
    assert_eq!(
        decode_conversion_assign(&field, "value . kind", "tmp"),
        "value . kind = < Kind as :: core :: convert :: TryFrom < i32 > > :: try_from (tmp) . map_err (:: core :: convert :: Into :: into) ? ;"
    );

    let mut config = FieldConfig::plain();
    config.from_fn = Some("from_wire".to_string());
    let field = info(0, FieldAccess::Named("a".to_string()), path("Local"), "Local", config, Some(1));
    assert_eq!(decode_conversion_assign(&field, "v . a", "t"), "v . a = from_wire (t) ;");

    let mut config = FieldConfig::plain();
    config.try_from_fn = Some("try_wire".to_string());
    let field = info(0, FieldAccess::Named("a".to_string()), path("Local"), "Local", config, Some(1));
    assert_eq!(
        decode_conversion_assign(&field, "v . a", "t"),
        "v . a = try_wire (t) . map_err (:: core :: convert :: Into :: into) ? ;"
    );

    let mut config = FieldConfig::plain();
    config.from_type = Some(TypeText { text: "Wire".to_string(), parsed: Some(path("Wire")) });
    let field = info(0, FieldAccess::Named("a".to_string()), path("Local"), "Local", config, Some(1));
    assert_eq!(decode_conversion_assign(&field, "v . a", "t"), "v . a = < Local as :: core :: convert :: From < _ > > :: from (t) ;");
}

#[test]
fn decode_arms_cover_tagged_fields_only() {
    let mut skipped = FieldConfig::plain();
    skipped.skip = true;
    let mut validated = FieldConfig::plain();
    validated.validator = Some("ensure_valid".to_string());
    let mut enum_config = FieldConfig::plain();
    enum_config.is_rust_enum = true;
    let fields = vec![
        info(0, FieldAccess::Named("a".to_string()), path("u32"), "u32", validated, Some(1)),
        info(1, FieldAccess::Named("cache".to_string()), path("u32"), "u32", skipped, None),
        info(2, FieldAccess::Named("kind".to_string()), path("Kind"), "Kind", enum_config, Some(3)),
    ];
    let arms = build_decode_match_arms(&fields, "value");
    assert_eq!(arms.len(), 2);
    assert_eq!(
        arms[0],
        "1u32 => { < u32 as :: proto_rs :: ProtoDecoder > :: merge (& mut value . a , wire_type , buf , ctx) ? ; ensure_valid (& mut value . a) ? ; Ok (()) }"
    );
    assert_eq!(
        arms[1],
        "3u32 => { let mut __proto_rs_field_2_tmp : i32 = < i32 as :: proto_rs :: ProtoDecoder > :: proto_default () ; \
         < i32 as :: proto_rs :: ProtoDecoder > :: merge (& mut __proto_rs_field_2_tmp , wire_type , buf , ctx) ? ; \
         value . kind = < Kind as :: core :: convert :: TryFrom < i32 > > :: try_from (__proto_rs_field_2_tmp) . map_err (:: core :: convert :: Into :: into) ? ;  Ok (()) }"
    );
}

#[test]
fn clear_and_default_use_the_wire_type_when_direct() {
    let mut enum_config = FieldConfig::plain();
    enum_config.is_rust_enum = true;
    let fields = vec![
        info(0, FieldAccess::Named("a".to_string()), path("u32"), "u32", FieldConfig::plain(), Some(1)),
        info(1, FieldAccess::Named("kind".to_string()), path("Kind"), "Kind", enum_config, Some(2)),
    ];
    let clears = build_clear_stmts(&fields, "self");
    assert_eq!(clears, vec![
        "< u32 as :: proto_rs :: ProtoDecoder > :: clear (& mut self . a)".to_string(),
        "self . kind = :: core :: default :: Default :: default ()".to_string(),
    ]);
    assert_eq!(field_proto_default_expr(&fields[0]), "< u32 as :: proto_rs :: ProtoDecoder > :: proto_default ()");
    assert_eq!(field_proto_default_expr(&fields[1]), ":: core :: default :: Default :: default ()");
    assert_eq!(
        build_proto_default_expr(&fields, &FieldsModel::Named(vec![])),
        "Self { a : < u32 as :: proto_rs :: ProtoDecoder > :: proto_default () , kind : :: core :: default :: Default :: default () }"
    );
}

#[test]
fn default_expression_of_each_kind_of_item() {
    assert_eq!(build_proto_default_expr(&vec![], &FieldsModel::Unit), "Self");
    assert_eq!(build_proto_default_expr(&vec![], &FieldsModel::Unnamed(vec![])), "Self");
    assert_eq!(build_proto_default_expr(&vec![], &FieldsModel::Named(vec![])), "Self { }");
    let fields = vec![info(0, FieldAccess::Tuple(0), path("String"), "String", FieldConfig::plain(), Some(1))];
    assert_eq!(
        build_proto_default_expr(&fields, &FieldsModel::Unnamed(vec![])),
        "Self (< String as :: proto_rs :: ProtoDecoder > :: proto_default ())"
    );
}

#[test]
fn post_decode_hooks_fill_skipped_fields() {
    let mut hooked = FieldConfig::plain();
    hooked.skip = true;
    hooked.skip_deser_fn = Some("rebuild".to_string());
    let mut unskipped = FieldConfig::plain();
    unskipped.skip_deser_fn = Some("ignored".to_string());
    let fields = vec![
        info(0, FieldAccess::Named("cache".to_string()), path("u32"), "u32", hooked, None),
        info(1, FieldAccess::Named("b".to_string()), path("u32"), "u32", unskipped, Some(1)),
    ];
    assert_eq!(
        build_post_decode_hooks(&fields),
        vec!["{ let __proto_rs_tmp = rebuild (& mut shadow) ; shadow . cache = __proto_rs_tmp ; }".to_string()]
    );
}

#[test]
fn function_paths_must_read_as_paths() {
    assert_eq!(parse_path_string("crate::convert::to_wire").as_deref(), Some("crate::convert::to_wire"));
    assert_eq!(parse_path_string("from_wire").as_deref(), Some("from_wire"));
    assert!(parse_path_string("not a path").is_none());
    assert!(parse_path_string("").is_none());
}

#[test]
fn fields_code_refuses_options_that_are_not_code() {
    let mut bad = FieldConfig::plain();
    bad.from_fn = Some("1 + ".to_string());
    let fields = vec![info(0, FieldAccess::Named("a".to_string()), path("Local"), "Local", bad, Some(1))];
    assert!(fields_code(&fields, &FieldsModel::Named(vec![]), "self", "value", "self").is_none());

    let mut bad_getter = FieldConfig::plain();
    bad_getter.getter = Some("$.a(".to_string());
    let fields = vec![info(0, FieldAccess::Named("a".to_string()), path("u32"), "u32", bad_getter, Some(1))];
    assert!(fields_code(&fields, &FieldsModel::Named(vec![]), "self", "value", "self").is_none());
}

#[test]
fn fields_code_gathers_every_piece() {
    let fields = vec![
        info(0, FieldAccess::Named("a".to_string()), path("u32"), "u32", FieldConfig::plain(), Some(1)),
        info(1, FieldAccess::Named("b".to_string()), path("String"), "String", FieldConfig::plain(), Some(2)),
    ];
    let code = fields_code(&fields, &FieldsModel::Named(vec![]), "self", "value", "self").unwrap();
    assert_eq!(code.bindings.len(), 2);
    assert_eq!(code.bindings[1].value, "self . b");
    assert_eq!(code.decode_arms.len(), 2);
    assert!(code.post_decode_hooks.is_empty());
    assert_eq!(code.clear_stmts[1], "< String as :: proto_rs :: ProtoDecoder > :: clear (& mut self . b)");
    assert!(code.default_expr.starts_with("Self { a : "));
}
