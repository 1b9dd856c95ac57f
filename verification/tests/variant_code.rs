use prosto_derive::field::FieldConfig;
use prosto_derive::field_code::{FieldAccess, FieldInfo, TypeCode};
use prosto_derive::field_types::{compute_decode_ty, compute_proto_ty};
use prosto_derive::proto_type::{effective_type, parse_field_type};
use prosto_derive::types::{GenericArg, PathSegment, RustType, TypePath};
use prosto_derive::variant_code::{
    VariantInfo, VariantKind, build_empty_variant_encode_body, build_struct_field_bindings, build_variant_default_expr,
    build_variant_encode_arm, build_variant_is_default_arm, build_variant_merge_arm, tuple_binding_ident, variant_arms,
};

fn path(p: &str) -> RustType {
    RustType::Path(TypePath {
        qself: false,
        segments: p.split("::").map(|s| PathSegment { ident: s.to_string(), args: Vec::<GenericArg>::new() }).collect(),
    })
}

/// A variant field bound under `binding`, with types that follow from its options.
fn field(index: usize, name: Option<&str>, binding: &str, ty: &str, config: FieldConfig, tag: Option<u32>) -> FieldInfo {
    let rust_ty = path(ty);
    let effective = effective_type(&rust_ty, &config);
    let parsed = parse_field_type(effective);
    let proto_ty = compute_proto_ty(&config, &parsed, effective);
    let decode_ty = compute_decode_ty(&config, &parsed, &proto_ty);
    let proto_code = if config.is_rust_enum { "i32".to_string() } else { ty.to_string() };
    FieldInfo {
        index,
        ident: name.map(str::to_string),
        field_ty: TypeCode { ty: rust_ty, code: ty.to_string() },
        access: FieldAccess::Direct(binding.to_string()),
        config,
        tag,
        parsed,
        proto_ty: TypeCode { ty: proto_ty, code: proto_code.clone() },
        decode_ty: TypeCode { ty: decode_ty, code: proto_code },
    }
}

fn tuple_variant(ident: &str, tag: u32, config: FieldConfig, is_default: bool) -> VariantInfo {
    let binding = tuple_binding_ident(ident);
    VariantInfo {
        ident: ident.to_string(),
        tag,
        kind: VariantKind::Tuple { field: field(0, None, &binding, "u64", config, Some(1)), binding_ident: binding },
        is_default,
    }
}

fn unit_variant(ident: &str, tag: u32, is_default: bool) -> VariantInfo {
    VariantInfo { ident: ident.to_string(), tag, kind: VariantKind::Unit, is_default }
}

fn struct_variant(ident: &str, tag: u32, fields: Vec<FieldInfo>, is_default: bool) -> VariantInfo {
    VariantInfo { ident: ident.to_string(), tag, kind: VariantKind::Struct { fields }, is_default }
}

fn skipped(hook: Option<&str>) -> FieldConfig {
    let mut c = FieldConfig::plain();
    c.skip = true;
    c.skip_deser_fn = hook.map(str::to_string);
    c
}

#[test]
fn tuple_binding_is_named_after_the_lowercased_variant() {
    assert_eq!(tuple_binding_ident("Created"), "__proto_rs_variant_created_value");
    assert_eq!(tuple_binding_ident("HTTPError"), "__proto_rs_variant_httperror_value");
}

#[test]
fn empty_variant_encodes_a_zero_length_payload() {
    assert_eq!(build_empty_variant_encode_body(3), "w . put_varint (0) ; :: proto_rs :: ArchivedProtoField :: < 3u32 , () > :: put_key (w) ;");
}

#[test]
fn struct_bindings_ignore_skipped_fields() {
    let fields = vec![
        field(0, Some("id"), "id", "u64", FieldConfig::plain(), Some(1)),
        field(1, Some("cache"), "cache", "u64", skipped(None), None),
    ];
    assert_eq!(build_struct_field_bindings(&fields), vec!["id".to_string(), "cache : _".to_string()]);
}

#[test]
fn variant_defaults_of_each_shape() {
    assert_eq!(build_variant_default_expr(&unit_variant("Idle", 1, true), "Event"), "Event :: Idle");
    assert_eq!(
        build_variant_default_expr(&tuple_variant("Count", 2, FieldConfig::plain(), false), "Event"),
        "Event :: Count (< u64 as :: proto_rs :: ProtoDecoder > :: proto_default ())"
    );
    assert_eq!(build_variant_default_expr(&struct_variant("Empty", 3, vec![], false), "Event"), "Event :: Empty");
    let fields = vec![field(0, Some("id"), "id", "u64", FieldConfig::plain(), Some(1))];
    assert_eq!(
        build_variant_default_expr(&struct_variant("Moved", 4, fields, false), "Event"),
        "Event :: Moved { id : < u64 as :: proto_rs :: ProtoDecoder > :: proto_default () }"
    );
}

#[test]
fn only_the_default_variant_can_hold_the_default() {
    assert_eq!(build_variant_is_default_arm(&unit_variant("Idle", 1, true), "Event"), "Event :: Idle => true");
    assert_eq!(build_variant_is_default_arm(&unit_variant("Busy", 2, false), "Event"), "Event :: Busy => false");
    assert_eq!(
        build_variant_is_default_arm(&tuple_variant("Count", 3, FieldConfig::plain(), false), "Event"),
        "Event :: Count (..) => false"
    );
    assert_eq!(build_variant_is_default_arm(&tuple_variant("Count", 3, skipped(None), true), "Event"), "Event :: Count (..) => true");
    assert_eq!(
        build_variant_is_default_arm(&tuple_variant("Count", 3, FieldConfig::plain(), true), "Event"),
        "Event :: Count (__proto_rs_variant_count_value) => { { let shadow = < < u64 as :: proto_rs :: ProtoEncode > :: Shadow < '_ > \
         as :: proto_rs :: ProtoShadowEncode < '_ , u64 > > :: from_sun (& __proto_rs_variant_count_value) ; \
         :: proto_rs :: ProtoArchive :: is_default (& shadow) } }"
    );
    assert_eq!(build_variant_is_default_arm(&struct_variant("Empty", 4, vec![], true), "Event"), "Event :: Empty { .. } => true");
    let mut status = FieldConfig::plain();
    status.is_rust_enum = true;
    let fields = vec![
        field(0, Some("kind"), "kind", "Kind", status, Some(1)),
        field(1, Some("cache"), "cache", "u64", skipped(None), None),
    ];
    assert_eq!(
        build_variant_is_default_arm(&struct_variant("Moved", 5, fields, true), "Event"),
        "Event :: Moved { kind , cache : _ } => { true && :: proto_rs :: ProtoArchive :: is_default (& (* (& kind)) as i32) }"
    );
}

#[test]
fn encode_arms_of_each_shape() {
    assert_eq!(
        build_variant_encode_arm(&unit_variant("Idle", 1, true), "Event"),
        "Event :: Idle => { w . put_varint (0) ; :: proto_rs :: ArchivedProtoField :: < 1u32 , () > :: put_key (w) ; }"
    );
    assert_eq!(build_variant_encode_arm(&tuple_variant("Count", 2, skipped(None), false), "Event"), "Event :: Count (..) => { }");
    assert_eq!(
        build_variant_encode_arm(&tuple_variant("Count", 2, FieldConfig::plain(), false), "Event"),
        "Event :: Count (__proto_rs_variant_count_value) => { let __proto_rs_shadow = \
         < < u64 as :: proto_rs :: ProtoEncode > :: Shadow < '_ > as :: proto_rs :: ProtoShadowEncode < '_ , u64 > > :: from_sun (& __proto_rs_variant_count_value) ; \
         :: proto_rs :: ArchivedProtoField :: < 2u32 , < u64 as :: proto_rs :: ProtoEncode > :: Shadow < '_ > > :: new_always (& __proto_rs_shadow , w) ; }"
    );
}

#[test]
fn struct_variant_fields_are_archived_last_first() {
    let mut status = FieldConfig::plain();
    status.is_rust_enum = true;
    let fields = vec![
        field(0, Some("id"), "id", "u64", FieldConfig::plain(), Some(1)),
        field(1, Some("cache"), "cache", "u64", skipped(None), None),
        field(2, Some("kind"), "kind", "Kind", status, Some(2)),
    ];
    let arm = build_variant_encode_arm(&struct_variant("Moved", 7, fields, false), "Event");
    assert_eq!(
        arm,
        "Event :: Moved { id , cache : _ , kind } => { let mark = w . mark () ; \
         let __proto_rs_variant_moved_shadow_2 = (* (& kind)) as i32 ; :: proto_rs :: ArchivedProtoField :: < 2u32 , i32 > :: archive (& __proto_rs_variant_moved_shadow_2 , w) ; \
         let __proto_rs_variant_moved_shadow_0 = < < u64 as :: proto_rs :: ProtoEncode > :: Shadow < '_ > as :: proto_rs :: ProtoShadowEncode < '_ , u64 > > :: from_sun (& id) ; \
         :: proto_rs :: ArchivedProtoField :: < 1u32 , < u64 as :: proto_rs :: ProtoEncode > :: Shadow < '_ > > :: archive (& __proto_rs_variant_moved_shadow_0 , w) ; \
         let payload_len = w . written_since (mark) ; w . put_varint (payload_len as u64) ; :: proto_rs :: ArchivedProtoField :: < 7u32 , Self > :: put_key (w) ; }"
    );
}

#[test]
fn unit_merge_arm_requires_an_empty_payload() {
    let arm = build_variant_merge_arm("Event", &unit_variant("Idle", 1, true));
    assert!(arm.starts_with("1u32 => { :: proto_rs :: encoding :: check_wire_type (:: proto_rs :: encoding :: WireType :: LengthDelimited , wire_type ,) ? ; "));
    assert!(arm.contains("\"buffer underflow\""));
    assert!(arm.contains("if len != 0 { return Err (:: proto_rs :: DecodeError :: new (\"expected empty variant payload\")) ; }"));
    assert!(arm.ends_with("* value = Event :: Idle ; Ok (()) }"));
}

#[test]
fn tuple_merge_arms_decode_skip_or_convert() {
    assert_eq!(
        build_variant_merge_arm("Event", &tuple_variant("Count", 2, FieldConfig::plain(), false)),
        "2u32 => { let mut __proto_rs_variant_count_value = < u64 as :: proto_rs :: ProtoDecoder > :: proto_default () ; \
         < u64 as :: proto_rs :: ProtoFieldMerge > :: merge_value (& mut __proto_rs_variant_count_value , wire_type , buf , ctx) ? ; \
         * value = Event :: Count (__proto_rs_variant_count_value) ; Ok (()) }"
    );
    assert_eq!(
        build_variant_merge_arm("Event", &tuple_variant("Count", 2, skipped(Some("recount")), false)),
        "2u32 => { let mut __proto_rs_variant_count_value = :: core :: default :: Default :: default () ; \
         :: proto_rs :: encoding :: skip_field (wire_type , 2u32 , buf , ctx) ? ; \
         * value = Event :: Count (__proto_rs_variant_count_value) ; \
         let __proto_rs_variant_count_computed = recount (value) ; if let Event :: Count (__proto_rs_variant_count_skip_binding) = value \
         { * __proto_rs_variant_count_skip_binding = __proto_rs_variant_count_computed ; } Ok (()) }"
    );
    let mut from_fn = FieldConfig::plain();
    from_fn.from_fn = Some("from_wire".to_string());
    let arm = build_variant_merge_arm("Event", &tuple_variant("Count", 2, from_fn, false));
    assert!(arm.contains(
        "let mut __proto_rs_variant_field_0_tmp : u64 = < u64 as :: proto_rs :: ProtoDefault > :: proto_default () ; \
         < u64 as :: proto_rs :: ProtoFieldMerge > :: merge_value (& mut __proto_rs_variant_field_0_tmp , wire_type , buf , ctx) ? ; \
         __proto_rs_variant_count_value = from_wire (__proto_rs_variant_field_0_tmp) ;"
    ));
}

#[test]
fn struct_merge_arm_decodes_a_nested_message() {
    let fields = vec![
        field(0, Some("id"), "id", "u64", FieldConfig::plain(), Some(1)),
        field(1, Some("cache"), "cache", "u64", skipped(Some("rebuild")), None),
    ];
    let arm = build_variant_merge_arm("Event", &struct_variant("Moved", 4, fields, false));
    assert!(arm.starts_with("4u32 => { :: proto_rs :: encoding :: check_wire_type"));
    assert!(arm.contains("ctx . limit_reached () ? ; let inner_ctx = ctx . enter_recursion () ; "));
    assert!(arm.contains(
        "let limit = buf . remaining () - len as usize ; let mut id = < u64 as :: proto_rs :: ProtoDecoder > :: proto_default () ; \
         let mut cache = :: core :: default :: Default :: default () ; "
    ));
    assert!(arm.contains(
        "match field_tag { 1u32 => { < u64 as :: proto_rs :: ProtoFieldMerge > :: merge_value (& mut id , field_wire_type , buf , inner_ctx) ? ; } , \
         _ => :: proto_rs :: encoding :: skip_field (field_wire_type , field_tag , buf , inner_ctx) ? , } }"
    ));
    assert!(arm.ends_with(
        "* value = Event :: Moved { id , cache } ; let __proto_rs_variant_moved_1_computed = rebuild (value) ; \
         if let Event :: Moved { cache : __proto_rs_variant_moved_1_skip_binding , .. } = value \
         { * __proto_rs_variant_moved_1_skip_binding = __proto_rs_variant_moved_1_computed ; } Ok (()) }"
    ));
}

#[test]
fn struct_merge_arm_without_tagged_fields_skips_everything() {
    let arm = build_variant_merge_arm("Event", &struct_variant("Empty", 5, vec![], false));
    assert!(arm.contains(
        "while buf . remaining () > limit { let (field_tag , field_wire_type) = :: proto_rs :: encoding :: decode_key (buf) ? ; \
         :: proto_rs :: encoding :: skip_field (field_wire_type , field_tag , buf , inner_ctx) ? ; } * value = Event :: Empty ; Ok (()) }"
    ));
}

#[test]
fn variant_arms_refuse_unreadable_paths() {
    let mut bad = FieldConfig::plain();
    bad.into_fn = Some("not a path".to_string());
    assert!(variant_arms(&tuple_variant("Count", 2, bad, false), "Event").is_none());
    let arms = variant_arms(&tuple_variant("Count", 2, FieldConfig::plain(), true), "Event").unwrap();
    assert_eq!(arms.default_expr, "Event :: Count (< u64 as :: proto_rs :: ProtoDecoder > :: proto_default ())");
    assert!(arms.is_default_arm.starts_with("Event :: Count (__proto_rs_variant_count_value) => { "));
    assert!(arms.encode_arm.contains("new_always"));
    assert!(arms.merge_arm.starts_with("2u32 => { let mut __proto_rs_variant_count_value"));
}
