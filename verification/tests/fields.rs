use prosto_derive::enums::{
    DiscriminantError, SimpleEnumError, check_simple_enum_proto, collect_discriminants,
    find_marked_default_variant, generate_simple_enum_proto, simple_enum_discriminants,
};
use prosto_derive::field::{
    FieldConfig, ParsedFieldType, TypeText, field_modifier, is_numeric_enum, is_value_encode_type,
    needs_decode_conversion, needs_encode_conversion, uses_proto_wire_directly,
};
use prosto_derive::model::{Discriminant, FieldModel, FieldsModel, TagLiteral, VariantModel};
use prosto_derive::tags::{
    ComplexEnumError, VariantError, VariantTagError, collect_variant_tags, complex_enum_layout, resolve_variant_tag,
};
use prosto_derive::text::{parse_usize, strip_proto_suffix, to_pascal_case, to_snake_case, to_upper_snake_case};
use prosto_derive::types::{GenericArg, PathSegment, RustType, TypePath};

fn path(p: &str) -> RustType {
    RustType::Path(TypePath {
        qself: false,
        segments: p.split("::").map(|s| PathSegment { ident: s.to_string(), args: Vec::<GenericArg>::new() }).collect(),
    })
}

fn parsed(is_rust_enum: bool) -> ParsedFieldType {
    ParsedFieldType {
        is_option: false,
        is_repeated: false,
        is_map: false,
        is_message_like: false,
        is_rust_enum,
        proto_type: "uint32".to_string(),
    }
}

fn unit(ident: &str, discriminant: Discriminant, is_default: bool) -> VariantModel {
    VariantModel { ident: ident.to_string(), fields: FieldsModel::Unit, discriminant, is_default, tag_attrs: vec![] }
}

fn with_tags(ident: &str, fields: FieldsModel, tags: Vec<TagLiteral>) -> VariantModel {
    VariantModel { ident: ident.to_string(), fields, discriminant: Discriminant::Implicit, is_default: false, tag_attrs: tags }
}

fn field(name: &str, ty: RustType) -> FieldModel {
    FieldModel { name: name.to_string(), ty, config: FieldConfig::plain() }
}

#[test]
fn conversions_follow_the_field_options() {
    let plain = FieldConfig::plain();
    assert!(!needs_encode_conversion(&plain, &parsed(false)));
    assert!(!needs_decode_conversion(&plain, &parsed(false)));
    assert!(uses_proto_wire_directly(&plain, &parsed(false)));
    assert!(is_numeric_enum(&plain, &parsed(true)));
    assert!(needs_encode_conversion(&plain, &parsed(true)));
    assert!(!uses_proto_wire_directly(&plain, &parsed(true)));

    let mut from_fn = FieldConfig::plain();
    from_fn.from_fn = Some("parse".to_string());
    assert!(!needs_encode_conversion(&from_fn, &parsed(false)));
    assert!(needs_decode_conversion(&from_fn, &parsed(false)));
    assert!(!uses_proto_wire_directly(&from_fn, &parsed(false)));

    let mut into = FieldConfig::plain();
    into.into_type = Some(TypeText { text: "i64".to_string(), parsed: Some(path("i64")) });
    assert!(needs_encode_conversion(&into, &parsed(false)));
    assert!(needs_decode_conversion(&into, &parsed(false)));

    let mut skip = FieldConfig::plain();
    skip.skip = true;
    assert!(!uses_proto_wire_directly(&skip, &parsed(false)));
}

#[test]
fn modifiers_and_value_types() {
    assert_eq!(field_modifier(false, false), "");
    assert_eq!(field_modifier(true, false), "optional ");
    assert_eq!(field_modifier(false, true), "repeated ");
    assert_eq!(field_modifier(true, true), "repeated ");
    assert!(is_value_encode_type(&path("u32")));
    assert!(is_value_encode_type(&path("bool")));
    assert!(!is_value_encode_type(&path("String")));
    assert!(!is_value_encode_type(&path("core::primitive::u32")));
}

#[test]
fn names_in_each_case() {
    assert_eq!(to_snake_case("WithGeneric"), "with_generic");
    assert_eq!(to_pascal_case("with_generic"), "WithGeneric");
    assert_eq!(to_upper_snake_case("PendingReview"), "PENDING_REVIEW");
    assert_eq!(strip_proto_suffix("UserProto"), "User");
    assert_eq!(strip_proto_suffix("Proto"), "");
    assert_eq!(strip_proto_suffix("User"), "User");
    assert_eq!(parse_usize("42"), Some(42));
    assert_eq!(parse_usize(""), None);
    assert_eq!(parse_usize("4x"), None);
}

#[test]
fn discriminants_count_up_from_the_last_literal() {
    let ds = vec![Discriminant::Implicit, Discriminant::Literal(5), Discriminant::Implicit, Discriminant::Literal(-2)];
    match collect_discriminants(&ds) {
        Ok(v) => assert_eq!(v, vec![0, 5, 6, -2]),
        Err(_) => panic!("discriminants"),
    }
    assert!(matches!(
        collect_discriminants(&vec![Discriminant::Implicit, Discriminant::Unsupported]),
        Err(DiscriminantError::Unsupported(1))
    ));
    assert!(matches!(
        collect_discriminants(&vec![Discriminant::Literal(1 << 40)]),
        Err(DiscriminantError::OutOfRange(0))
    ));
    assert!(matches!(
        collect_discriminants(&vec![Discriminant::Literal(i32::MAX as i64), Discriminant::Implicit]),
        Err(DiscriminantError::Overflow(1))
    ));
}

#[test]
fn default_variant_moves_first_with_discriminant_zero() {
    let vs = vec![
        unit("Active", Discriminant::Literal(1), false),
        unit("Unknown", Discriminant::Literal(0), true),
        unit("Closed", Discriminant::Literal(2), false),
    ];
    assert!(matches!(find_marked_default_variant(&vs), Ok(Some(1))));
    assert!(check_simple_enum_proto(&vs).is_ok());
    assert_eq!(generate_simple_enum_proto("State", &vs), "enum State {\n  UNKNOWN = 0;\n  ACTIVE = 1;\n  CLOSED = 2;\n}\n\n");
    match simple_enum_discriminants(&vs) {
        Ok((d, _)) => assert!(d.contains(&0)),
        Err(_) => panic!("discriminants"),
    }
}

#[test]
fn simple_enum_errors() {
    let two_defaults = vec![unit("A", Discriminant::Implicit, true), unit("B", Discriminant::Implicit, true)];
    assert!(matches!(check_simple_enum_proto(&two_defaults), Err(SimpleEnumError::MultipleDefaults)));
    let no_zero = vec![unit("A", Discriminant::Literal(1), false), unit("B", Discriminant::Implicit, false)];
    assert!(matches!(check_simple_enum_proto(&no_zero), Err(SimpleEnumError::NoZero)));
    let default_not_zero = vec![unit("A", Discriminant::Implicit, false), unit("B", Discriminant::Literal(3), true)];
    assert!(check_simple_enum_proto(&default_not_zero).is_err());
}

#[test]
fn variant_tags_default_to_position_and_reject_duplicates() {
    let v = with_tags("A", FieldsModel::Unit, vec![TagLiteral::Str("7".to_string())]);
    assert!(matches!(resolve_variant_tag(&v, 1), Ok(7)));
    let v = with_tags("A", FieldsModel::Unit, vec![]);
    assert!(matches!(resolve_variant_tag(&v, 3), Ok(3)));
    let v = with_tags("A", FieldsModel::Unit, vec![TagLiteral::Int(Some(0))]);
    assert!(matches!(resolve_variant_tag(&v, 1), Err(VariantTagError::Zero)));
    let v = with_tags("A", FieldsModel::Unit, vec![TagLiteral::Str("x".to_string())]);
    assert!(matches!(resolve_variant_tag(&v, 1), Err(VariantTagError::NotPositiveInteger)));
    let v = with_tags("A", FieldsModel::Unit, vec![TagLiteral::Int(Some(1)), TagLiteral::Int(Some(2))]);
    assert!(matches!(resolve_variant_tag(&v, 1), Err(VariantTagError::DuplicateTagAttribute)));

    let variants = vec![
        with_tags("A", FieldsModel::Unit, vec![]),
        with_tags("B", FieldsModel::Unnamed(vec![field("", path("u32"))]), vec![]),
        with_tags("C", FieldsModel::Named(vec![field("x", path("u32")), field("y", path("u64"))]), vec![]),
    ];
    match collect_variant_tags(&variants) {
        Ok(tags) => {
            assert_eq!(tags.iter().map(|t| t.tag).collect::<Vec<_>>(), vec![1, 2, 3]);
            assert_eq!(tags[1].field_tags, vec![Some(1)]);
            assert_eq!(tags[2].field_tags, vec![Some(1), Some(2)]);
        }
        Err(_) => panic!("tags"),
    }
    let clash = vec![with_tags("A", FieldsModel::Unit, vec![TagLiteral::Int(Some(2))]), with_tags("B", FieldsModel::Unit, vec![])];
    assert!(matches!(collect_variant_tags(&clash), Err(VariantError::DuplicateTag(2))));
    let pair = vec![with_tags("P", FieldsModel::Unnamed(vec![field("", path("u8")), field("", path("u8"))]), vec![])];
    assert!(matches!(collect_variant_tags(&pair), Err(VariantError::TupleArity)));
}

#[test]
fn oneof_layout_defaults_to_the_marked_or_first_variant() {
    let mut marked = with_tags("B", FieldsModel::Unit, vec![]);
    marked.is_default = true;
    let variants = vec![with_tags("A", FieldsModel::Unnamed(vec![field("", path("u32"))]), vec![]), marked];
    match complex_enum_layout(&variants) {
        Ok(layout) => {
            assert_eq!(layout.default_index, 1);
            assert_eq!(layout.tags.len(), 2);
        }
        Err(_) => panic!("layout"),
    }
    let plain = vec![with_tags("A", FieldsModel::Unit, vec![]), with_tags("B", FieldsModel::Unit, vec![])];
    assert!(matches!(complex_enum_layout(&plain), Ok(l) if l.default_index == 0));
    assert!(matches!(complex_enum_layout(&vec![]), Err(ComplexEnumError::Empty)));
    let mut two = vec![with_tags("A", FieldsModel::Unit, vec![]), with_tags("B", FieldsModel::Unit, vec![])];
    two[0].is_default = true;
    two[1].is_default = true;
    assert!(matches!(complex_enum_layout(&two), Err(ComplexEnumError::MultipleDefaults)));
}

#[test]
fn oneof_numbers_follow_the_variant_tags() {
    let variants = vec![
        with_tags("Ping", FieldsModel::Unit, vec![TagLiteral::Int(Some(5))]),
        with_tags("Pong", FieldsModel::Unit, vec![]),
        with_tags("Data", FieldsModel::Unnamed(vec![field("", path("u64"))]), vec![TagLiteral::Str("9".to_string())]),
    ];
    let proto = prosto_derive::emit::generate_complex_enum_proto("Msg", &variants, &vec![]);
    assert!(proto.contains("    MsgPing ping = 5;"), "{proto}");
    assert!(proto.contains("    MsgPong pong = 2;"), "{proto}");
    assert!(proto.contains("    uint64 data = 9;"), "{proto}");
}

#[test]
fn struct_variant_messages_number_fields_by_their_tags() {
    let mut tagged = FieldConfig::plain();
    tagged.custom_tag = Some(3);
    let fields = vec![
        FieldModel { name: "a".to_string(), ty: path("u32"), config: tagged },
        field("b", path("u32")),
    ];
    let variants = vec![with_tags("Moved", FieldsModel::Named(fields), vec![])];
    let proto = prosto_derive::emit::generate_complex_enum_proto("Ev", &variants, &vec![]);
    assert!(proto.starts_with("message EvMoved {\n  uint32 a = 3;\n  uint32 b = 1;\n}"), "{proto}");
}
