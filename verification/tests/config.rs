use prosto_derive::config::{
    extract_import_all_from, extract_item_imports, extract_item_validators, generic_attrs_readable,
    path_to_proto_package, validator_attrs_readable,
};
use prosto_derive::field::FieldConfig;
use prosto_derive::field_options::field_options;
use prosto_derive::import_map::ImportMap;
use prosto_derive::imports::{ParseFieldAttr, extract_field_imports, extract_field_type_name, merge_field_imports};
use prosto_derive::meta::{ArrayElem, AttrModel, EqValue, MetaExpr, MetaItem, MetaValue};
use prosto_derive::model::{DataModel, Discriminant, FieldModel, FieldsModel, ImportGroup, TraitModel, VariantModel};
use prosto_derive::proto_config::ProtoConfig;
use prosto_derive::types::{GenericArg, PathSegment, RustType, TypePath};
use prosto_derive::unified::{UnifiedProtoConfig, attr_params_readable, parse_attr_params};

fn seg(ident: &str, args: Vec<RustType>) -> PathSegment {
    PathSegment { ident: ident.to_string(), args: args.into_iter().map(GenericArg::Type).collect() }
}

fn path(p: &str) -> RustType {
    RustType::Path(TypePath { qself: false, segments: p.split("::").map(|s| seg(s, vec![])).collect() })
}

fn generic(p: &str, args: Vec<RustType>) -> RustType {
    let names: Vec<&str> = p.split("::").collect();
    let mut segments: Vec<PathSegment> = names[..names.len() - 1].iter().map(|s| seg(s, vec![])).collect();
    segments.push(seg(names[names.len() - 1], args));
    RustType::Path(TypePath { qself: false, segments })
}

fn strings(v: &[&str]) -> Vec<String> {
    v.iter().map(|s| s.to_string()).collect()
}

fn eq_value(expr: MetaExpr) -> MetaValue {
    MetaValue::Eq(EqValue { expr: Some(expr), ty: None, bracketed: false, types: None, str_type: None })
}

fn item(name: &str, value: MetaValue) -> MetaItem {
    MetaItem { path: vec![name.to_string()], value }
}

fn attr(name: &str, items: Vec<MetaItem>) -> AttrModel {
    AttrModel { path: vec![name.to_string()], items, args: MetaExpr::Other }
}

fn str_array(v: &[&str]) -> MetaExpr {
    MetaExpr::Array(v.iter().map(|s| ArrayElem { expr: MetaExpr::Str(s.to_string()), as_type: None }).collect())
}

fn imported(name: &str, ty: RustType, package: &str) -> FieldModel {
    let mut config = FieldConfig::plain();
    config.import_path = Some(package.to_string());
    FieldModel { name: name.to_string(), ty, config }
}

fn plain(name: &str, ty: RustType) -> FieldModel {
    FieldModel { name: name.to_string(), ty, config: FieldConfig::plain() }
}

#[test]
fn field_type_names_of_maps_sets_and_other_types() {
    assert_eq!(extract_field_type_name(&generic("HashMap", vec![path("String"), path("Leaf")])), "Leaf");
    assert_eq!(extract_field_type_name(&generic("std::collections::BTreeSet", vec![path("Tag")])), "Tag");
    assert_eq!(extract_field_type_name(&path("HashMap")), "HashMap");
    assert_eq!(extract_field_type_name(&generic("Box", vec![path("Inner")])), "Box");
    assert_eq!(extract_field_type_name(&RustType::Reference(Box::new(path("X")))), "Unknown");
    assert_eq!(extract_field_type_name(&generic("Option", vec![generic("pkg::Deep", vec![])])), "Deep");
}

#[test]
fn field_imports_group_by_package_in_field_order() {
    let fields = FieldsModel::Named(vec![
        imported("a", path("Alpha"), "pkg_a"),
        plain("skip_me", path("u32")),
        imported("b", generic("Vec", vec![path("Beta")]), "pkg_b"),
        imported("c", generic("Option", vec![path("Gamma")]), "pkg_a"),
    ]);
    let groups = extract_field_imports(&fields);
    assert_eq!(groups.len(), 2);
    let a = groups.iter().find(|g| g.package == "pkg_a").unwrap();
    assert_eq!(a.types, vec!["Alpha", "Gamma"]);
    let b = groups.iter().find(|g| g.package == "pkg_b").unwrap();
    assert_eq!(b.types, vec!["Beta"]);
    assert!(extract_field_imports(&FieldsModel::Unit).is_empty());
}

#[test]
fn merging_field_imports_joins_type_sets() {
    let mut map = ImportMap::new();
    map.extend("pkg_a".to_string(), &strings(&["Zed"]));
    merge_field_imports(
        &mut map,
        vec![
            ImportGroup { package: "pkg_a".to_string(), types: strings(&["Alpha", "Zed"]) },
            ImportGroup { package: "pkg_c".to_string(), types: strings(&["Cee"]) },
        ],
    );
    assert_eq!(map.packages(), vec!["pkg_a", "pkg_c"]);
    assert_eq!(map.get("pkg_a").unwrap().to_vec(), vec!["Alpha", "Zed"]);
    assert_eq!(map.get("pkg_c").unwrap().to_vec(), vec!["Cee"]);
}

#[test]
fn enum_variants_declare_imports_of_their_fields() {
    let variant = |ident: &str, fields: FieldsModel| VariantModel {
        ident: ident.to_string(),
        fields,
        discriminant: Discriminant::Implicit,
        is_default: false,
        tag_attrs: vec![],
    };
    let data = DataModel::Enum(vec![
        variant("A", FieldsModel::Unnamed(vec![imported("", path("Apple"), "fruit")])),
        variant("B", FieldsModel::Unit),
        variant("C", FieldsModel::Named(vec![imported("x", path("Cherry"), "fruit")])),
    ]);
    let mut map = ImportMap::new();
    data.extract_field_imports(&mut map);
    assert_eq!(map.packages(), vec!["fruit"]);
    assert_eq!(map.get("fruit").unwrap().to_vec(), vec!["Apple", "Cherry"]);

    let mut untouched = ImportMap::new();
    TraitModel { ident: "Service".to_string() }.extract_field_imports(&mut untouched);
    ().extract_field_imports(&mut untouched);
    DataModel::Union.extract_field_imports(&mut untouched);
    assert!(untouched.packages().is_empty());
}

#[test]
fn item_imports_replace_per_package_and_stop_at_a_bad_option() {
    let attrs = vec![
        attr("proto_imports", vec![
            item("shared", eq_value(str_array(&["B", "A"]))),
            item("empty", eq_value(str_array(&[]))),
            item("shared", eq_value(str_array(&["C"]))),
        ]),
        attr("other", vec![item("ignored", eq_value(str_array(&["X"])))]),
        attr("proto_imports", vec![
            item("extra", eq_value(str_array(&["E"]))),
            item("flag", MetaValue::Flag),
            item("late", eq_value(str_array(&["L"]))),
        ]),
    ];
    let map = extract_item_imports(&attrs);
    assert_eq!(map.packages(), vec!["extra", "shared"]);
    assert_eq!(map.get("shared").unwrap().to_vec(), vec!["C"]);
    assert_eq!(map.get("extra").unwrap().to_vec(), vec!["E"]);
}

#[test]
fn import_all_from_takes_the_first_named_package() {
    let attrs = vec![
        AttrModel { path: strings(&["proto_import_all_from"]), items: vec![], args: MetaExpr::Other },
        AttrModel {
            path: strings(&["proto_import_all_from"]),
            items: vec![],
            args: MetaExpr::Path(strings(&["google", "protobuf"])),
        },
        AttrModel {
            path: strings(&["proto_import_all_from"]),
            items: vec![],
            args: MetaExpr::Str("later".to_string()),
        },
    ];
    assert_eq!(extract_import_all_from(&attrs), Some("google.protobuf".to_string()));
    assert_eq!(extract_import_all_from(&vec![]), None);
    assert_eq!(path_to_proto_package(&strings(&["a", "b", "c"])), "a.b.c");
}

#[test]
fn later_validator_options_win() {
    let attrs = vec![
        attr("proto", vec![item("validator", eq_value(MetaExpr::Str("first".to_string())))]),
        attr("serde", vec![item("validator", eq_value(MetaExpr::Str("ignored".to_string())))]),
        attr("proto", vec![
            item("validator", eq_value(MetaExpr::Path(strings(&["second"])))),
            item("validator_with_ext", eq_value(MetaExpr::Bool(true))),
            item("generic_types", eq_value(MetaExpr::Other)),
        ]),
    ];
    assert!(validator_attrs_readable(&attrs));
    let v = extract_item_validators(&attrs);
    assert_eq!(v.validator.as_deref(), Some("second"));
    assert_eq!(v.validator_with_ext, None);
}

#[test]
fn unreadable_item_options_are_refused() {
    let flag = vec![attr("proto", vec![item("validator", MetaValue::Flag)])];
    assert!(!validator_attrs_readable(&flag));
    let not_array = vec![attr("proto", vec![item("generic_types", eq_value(MetaExpr::Str("T".to_string())))])];
    assert!(!generic_attrs_readable(&not_array));
    let list = vec![attr("proto", vec![item("other", MetaValue::List(vec![]))])];
    assert!(!generic_attrs_readable(&list));
    let ok = vec![attr("proto", vec![item("validator", eq_value(MetaExpr::Other)), item("skip", MetaValue::Flag)])];
    assert!(generic_attrs_readable(&ok));
}

#[test]
fn macro_options_set_the_configuration() {
    let sun_types = EqValue {
        expr: None,
        ty: None,
        bracketed: true,
        types: Some(vec![path("a::First"), RustType::Reference(Box::new(path("Second")))]),
        str_type: None,
    };
    let items = vec![
        item("transparent", MetaValue::Flag),
        item("proto_path", eq_value(MetaExpr::Str("protos/out.proto".to_string()))),
        item("sun", MetaValue::Eq(sun_types)),
        item("rpc_server", eq_value(MetaExpr::Bool(true))),
        item("rpc_package", eq_value(MetaExpr::Str("svc".to_string()))),
        item(
            "proto_import_all_from",
            MetaValue::List(vec![MetaItem { path: strings(&["common", "types"]), value: MetaValue::Flag }]),
        ),
    ];
    assert!(attr_params_readable(&items));
    let mut config = UnifiedProtoConfig::default();
    parse_attr_params(&items, &mut config);
    assert!(config.transparent);
    assert_eq!(config.proto_path(), Some("protos/out.proto"));
    assert!(config.rpc_server);
    assert!(!config.rpc_client);
    assert_eq!(config.get_rpc_package(), "svc");
    assert_eq!(config.import_all_from.as_deref(), Some("common.types"));
    assert!(config.has_suns());
    assert_eq!(config.proto_message_names("Ignored"), vec!["First", "Second"]);
    assert!(!config.suns[0].by_ref);
    assert!(config.suns[1].by_ref);
}

#[test]
fn unknown_or_malformed_macro_options_are_refused() {
    assert!(!attr_params_readable(&vec![item("nonsense", MetaValue::Flag)]));
    assert!(!attr_params_readable(&vec![item("transparent", eq_value(MetaExpr::Bool(true)))]));
    assert!(!attr_params_readable(&vec![item("rpc_client", eq_value(MetaExpr::Str("yes".to_string())))]));
    let unnamed_sun = EqValue { expr: None, ty: Some(RustType::Tuple(vec![])), bracketed: false, types: None, str_type: None };
    assert!(!attr_params_readable(&vec![item("sun", MetaValue::Eq(unnamed_sun))]));
    assert!(attr_params_readable(&vec![]));
}

#[test]
fn message_names_default_to_the_item_name() {
    let config = UnifiedProtoConfig::default();
    assert!(!config.has_suns());
    assert_eq!(config.proto_message_names("Item"), vec!["Item"]);
}

#[test]
fn configuration_from_all_attributes() {
    let attr_items = vec![item("proto_path", eq_value(MetaExpr::Str("x.proto".to_string())))];
    let item_attrs = vec![
        attr("proto", vec![item("validator", eq_value(MetaExpr::Str("ensure_valid".to_string())))]),
        attr("proto_imports", vec![item("google", eq_value(str_array(&["Timestamp"])))]),
        AttrModel { path: strings(&["proto_import_all_from"]), items: vec![], args: MetaExpr::Str("base".to_string()) },
    ];
    let data = DataModel::Struct(FieldsModel::Named(vec![imported("leaf", path("Leaf"), "leaves")]));
    let config = UnifiedProtoConfig::from_attributes(&attr_items, &item_attrs, &data, strings(&["T"]));
    assert_eq!(config.proto_path(), Some("x.proto"));
    assert_eq!(config.validator.as_deref(), Some("ensure_valid"));
    assert_eq!(config.import_all_from.as_deref(), Some("base"));
    assert_eq!(config.generic_params, vec!["T"]);
    assert_eq!(config.type_imports.packages(), vec!["google", "leaves"]);
    assert_eq!(config.file_imports.packages(), vec!["x.proto"]);
    assert_eq!(config.file_imports.get("x.proto").unwrap().to_vec(), vec!["base", "google", "leaves"]);
}

#[test]
fn no_file_imports_without_a_proto_path() {
    let item_attrs = vec![attr("proto_imports", vec![item("google", eq_value(str_array(&["Timestamp"])))])];
    let config = UnifiedProtoConfig::from_attributes(&vec![], &item_attrs, &(), vec![]);
    assert_eq!(config.type_imports.packages(), vec!["google"]);
    assert!(config.file_imports.packages().is_empty());
    assert!(config.proto_path().is_none());
}

#[test]
fn proto_config_names_the_file() {
    assert_eq!(ProtoConfig::default().file_name, "generated.proto");
    let none: Vec<MetaItem> = vec![];
    assert_eq!(ProtoConfig::parse_proto_config(&none, &vec![]).file_name, "generated.proto");
    let file = vec![item("file", eq_value(MetaExpr::Str("test.proto".to_string())))];
    assert!(ProtoConfig::proto_config_readable(&file));
    assert_eq!(ProtoConfig::parse_proto_config(&file, &vec![]).file_name, "test.proto");
    let wrong = vec![item("name", eq_value(MetaExpr::Str("test.proto".to_string())))];
    assert!(!ProtoConfig::proto_config_readable(&wrong));
    let not_literal = vec![item("file", eq_value(MetaExpr::Path(strings(&["x"]))))];
    assert!(!ProtoConfig::proto_config_readable(&not_literal));
}

fn proto_attr(items: Vec<MetaItem>) -> AttrModel {
    AttrModel { path: vec!["proto".to_string()], items, args: MetaExpr::Other }
}

fn str_eq_value(text: &str, as_type: Option<RustType>) -> MetaValue {
    MetaValue::Eq(EqValue { expr: Some(MetaExpr::Str(text.to_string())), ty: None, bracketed: false, types: None, str_type: as_type })
}

#[test]
fn field_options_read_each_option_in_order() {
    let int_tag = MetaValue::Eq(EqValue { expr: Some(MetaExpr::Int(Some(7))), ty: None, bracketed: false, types: None, str_type: None });
    let attrs = vec![
        AttrModel { path: vec!["serde".to_string()], items: vec![MetaItem { path: vec!["skip".to_string()], value: MetaValue::Flag }], args: MetaExpr::Other },
        proto_attr(vec![
            MetaItem { path: vec!["tag".to_string()], value: str_eq_value("3", None) },
            MetaItem { path: vec!["into".to_string()], value: str_eq_value("i64", Some(path("i64"))) },
            MetaItem { path: vec!["into_fn".to_string()], value: str_eq_value("to_wire", None) },
            MetaItem { path: vec!["enum".to_string()], value: MetaValue::Flag },
            MetaItem { path: vec!["validator".to_string()], value: MetaValue::Eq(EqValue { expr: Some(MetaExpr::Path(vec!["crate".to_string(), "check".to_string()])), ty: None, bracketed: false, types: None, str_type: None }) },
            MetaItem { path: vec!["rename".to_string()], value: str_eq_value("optional uint64", None) },
        ]),
        proto_attr(vec![MetaItem { path: vec!["tag".to_string()], value: int_tag }]),
    ];
    let c = field_options(&attrs);
    assert!(!c.skip);
    assert_eq!(c.custom_tag, Some(7));
    assert_eq!(c.into_type.as_ref().map(|t| t.text.as_str()), Some("i64"));
    assert!(c.into_type.as_ref().unwrap().parsed.is_some());
    assert_eq!(c.into_fn.as_deref(), Some("to_wire"));
    assert!(c.is_rust_enum);
    assert_eq!(c.validator.as_deref(), Some("crate::check"));
    let rename = c.rename.unwrap();
    assert_eq!(rename.proto_type, "uint64");
    assert_eq!(rename.is_optional, Some(true));

    let skipped = field_options(&vec![proto_attr(vec![MetaItem { path: vec!["skip".to_string()], value: str_eq_value("rebuild", None) }])]);
    assert!(skipped.skip);
    assert_eq!(skipped.skip_deser_fn.as_deref(), Some("rebuild"));
}
