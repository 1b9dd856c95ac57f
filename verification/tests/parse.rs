use prosto_derive::config::{
    extract_item_generic_types, extract_item_validators, extract_string_array, generic_attrs_readable,
    validator_attrs_readable,
};
use prosto_derive::generics::GenericTypeEntry;
use prosto_derive::imports::extract_field_type_name;
use prosto_derive::meta::{ArrayElem, AttrModel, EqValue, MetaExpr, MetaItem, MetaValue};
use prosto_derive::types::{GenericArg, PathSegment, RustType, TypePath, extract_type_ident, normalize_sun_type};
use prosto_derive::unified::UnifiedProtoConfig;

fn seg(ident: &str, args: Vec<RustType>) -> PathSegment {
    PathSegment { ident: ident.to_string(), args: args.into_iter().map(GenericArg::Type).collect() }
}

fn path(p: &str) -> RustType {
    RustType::Path(TypePath { qself: false, segments: p.split("::").map(|s| seg(s, vec![])).collect() })
}

fn generic(p: &str, args: Vec<RustType>) -> RustType {
    let names: Vec<&str> = p.split("::").collect();
    let mut segments: Vec<PathSegment> = names[..names.len() - 1].iter().map(|s| seg(s, vec![])).collect();
    segments.push(seg(names[names.len() - 1], args));
    RustType::Path(TypePath { qself: false, segments })
}

fn str_elem(s: &str) -> ArrayElem {
    ArrayElem { expr: MetaExpr::Str(s.to_string()), as_type: None }
}

/// An array element that is a path, readable as the type of the same path.
fn type_elem(p: &str) -> ArrayElem {
    ArrayElem {
        expr: MetaExpr::Path(p.split("::").map(|s| s.to_string()).collect()),
        as_type: Some(path(p)),
    }
}

fn eq_value(expr: MetaExpr) -> MetaValue {
    MetaValue::Eq(EqValue { expr: Some(expr), ty: None, bracketed: false, types: None, str_type: None })
}

fn proto_attr(items: Vec<MetaItem>) -> AttrModel {
    AttrModel { path: vec!["proto".to_string()], items, args: MetaExpr::Other }
}

#[test]
fn test_extract_string_array() {
    let array = vec![str_elem("Type1"), str_elem("Type2"), str_elem("Type3")];
    let result = extract_string_array(&array);

    assert_eq!(result.len(), 3);
    assert!(result.contains("Type1"));
    assert!(result.contains("Type2"));
    assert!(result.contains("Type3"));
}

#[test]
fn test_extract_field_type_name() {
    let ty = path("MyType");
    assert_eq!(extract_field_type_name(&ty), "MyType");

    let ty = generic("Option", vec![path("MyType")]);
    assert_eq!(extract_field_type_name(&ty), "MyType");

    let ty = generic("Vec", vec![path("MyType")]);
    assert_eq!(extract_field_type_name(&ty), "MyType");

    let ty = generic("arc_swap::ArcSwap", vec![path("MyType")]);
    assert_eq!(extract_field_type_name(&ty), "MyType");

    let ty = generic("arc_swap::ArcSwapOption", vec![path("MyType")]);
    assert_eq!(extract_field_type_name(&ty), "MyType");
}

#[test]
fn test_unified_proto_config_defaults() {
    let config = UnifiedProtoConfig::default();
    assert_eq!(config.proto_path(), None);
    assert!(!config.rpc_server);
    assert!(!config.rpc_client);
    assert!(!config.transparent);
}

#[test]
fn parses_owned_sun_type() {
    let ty = path("OwnedType");
    let normalized = normalize_sun_type(&ty);

    assert_eq!(extract_type_ident(normalized), Some("OwnedType".to_string()));
    assert!(matches!(normalized, RustType::Path(_)));
}

#[test]
fn parses_borrowed_sun_type() {
    let ty = RustType::Reference(Box::new(path("BorrowedType")));
    let normalized = normalize_sun_type(&ty);

    assert_eq!(extract_type_ident(normalized), Some("BorrowedType".to_string()));
    assert!(matches!(normalized, RustType::Path(_)));
}

#[test]
fn panics_on_unknown_validator_attribute() {
    let attr = proto_attr(vec![MetaItem {
        path: vec!["foo".to_string()],
        value: eq_value(MetaExpr::Str("bar".to_string())),
    }]);

    // The attribute is refused: reading validators from it is not possible.
    assert!(!validator_attrs_readable(&vec![attr]));
}

#[test]
fn generic_type_variants_builds_combinations() {
    let mut config = UnifiedProtoConfig::default();
    config.generic_params = vec!["K".to_string(), "V".to_string(), "S".to_string()];
    config.generic_types = vec![
        GenericTypeEntry { param: "K".to_string(), types: vec![path("u64"), path("u32")] },
        GenericTypeEntry { param: "V".to_string(), types: vec![path("String"), path("u16")] },
        GenericTypeEntry { param: "S".to_string(), types: vec![path("std::hash::RandomState")] },
    ];

    let variants = match config.generic_type_variants() {
        Ok(v) => v,
        Err(_) => panic!("variants"),
    };
    let suffixes: Vec<_> = variants.into_iter().map(|variant| variant.suffix).collect();

    assert_eq!(
        suffixes,
        vec![
            "U64StringStdHashRandomState",
            "U64U16StdHashRandomState",
            "U32StringStdHashRandomState",
            "U32U16StdHashRandomState",
        ]
    );
}

#[test]
fn parses_generic_types_attribute_values() {
    let entry = |param: &str, types: Vec<ArrayElem>| ArrayElem {
        expr: MetaExpr::Assign(
            Box::new(MetaExpr::Path(vec![param.to_string()])),
            Box::new(MetaExpr::Array(types)),
        ),
        as_type: None,
    };
    let attrs = vec![proto_attr(vec![MetaItem {
        path: vec!["generic_types".to_string()],
        value: eq_value(MetaExpr::Array(vec![
            entry("T", vec![type_elem("u64"), type_elem("u32")]),
            entry("U", vec![type_elem("String")]),
        ])),
    }])];

    assert!(generic_attrs_readable(&attrs));
    let entries = extract_item_generic_types(&attrs);
    assert_eq!(entries.len(), 2);
    assert_eq!(entries[0].param.to_string(), "T");
    assert_eq!(entries[0].types.len(), 2);
    assert_eq!(entries[1].param.to_string(), "U");
    assert_eq!(entries[1].types.len(), 1);
}

#[test]
fn validators_take_literal_and_path_values() {
    let attrs = vec![proto_attr(vec![
        MetaItem { path: vec!["validator".to_string()], value: eq_value(MetaExpr::Str("ensure_valid".to_string())) },
        MetaItem {
            path: vec!["validator_with_ext".to_string()],
            value: eq_value(MetaExpr::Path(vec!["crate".to_string(), "checks".to_string(), "ext".to_string()])),
        },
    ])];
    assert!(validator_attrs_readable(&attrs));
    let v = extract_item_validators(&attrs);
    assert_eq!(v.validator.as_deref(), Some("ensure_valid"));
    assert_eq!(v.validator_with_ext.as_deref(), Some("crate::checks::ext"));
}
