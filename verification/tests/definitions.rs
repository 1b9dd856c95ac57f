use prosto_derive::definitions::{
    DefinitionError, MessageDefinitions, message_definitions, dump_enum_definitions, dump_struct_definitions, message_enum_definitions,
    message_struct_definitions, service_definition,
};
use prosto_derive::enums::generate_simple_enum_proto;
use prosto_derive::field::FieldConfig;
use prosto_derive::generics::GenericTypeEntry;
use prosto_derive::model::{DataModel, Discriminant, FieldModel, FieldsModel, MethodModel, VariantModel};
use prosto_derive::tags::{assign_tags, try_assign_tags};
use prosto_derive::types::{GenericArg, PathSegment, RustType, TypePath};
use prosto_derive::unified::{SunConfig, UnifiedProtoConfig};

fn seg(ident: &str, args: Vec<RustType>) -> PathSegment {
    PathSegment { ident: ident.to_string(), args: args.into_iter().map(GenericArg::Type).collect() }
}

fn path(p: &str) -> RustType {
    RustType::Path(TypePath { qself: false, segments: p.split("::").map(|s| seg(s, vec![])).collect() })
}

fn generic(p: &str, args: Vec<RustType>) -> RustType {
    let names: Vec<&str> = p.split("::").collect();
    let mut segments: Vec<PathSegment> = names[..names.len() - 1].iter().map(|s| seg(s, vec![])).collect();
    segments.push(seg(names[names.len() - 1], args));
    RustType::Path(TypePath { qself: false, segments })
}

fn field(name: &str, ty: RustType) -> FieldModel {
    FieldModel { name: name.to_string(), ty, config: FieldConfig::plain() }
}

fn tagged(name: &str, ty: RustType, tag: usize) -> FieldModel {
    let mut config = FieldConfig::plain();
    config.custom_tag = Some(tag);
    FieldModel { name: name.to_string(), ty, config }
}

fn skipped(name: &str, ty: RustType) -> FieldModel {
    let mut config = FieldConfig::plain();
    config.skip = true;
    FieldModel { name: name.to_string(), ty, config }
}

fn variant(ident: &str, fields: FieldsModel) -> VariantModel {
    VariantModel { ident: ident.to_string(), fields, discriminant: Discriminant::Implicit, is_default: false, tag_attrs: vec![] }
}

fn order_fields() -> FieldsModel {
    FieldsModel::Named(vec![
        field("id", path("u64")),
        field("item", path("String")),
        field("quantity", path("u32")),
        field("notes", generic("Option", vec![path("String")])),
        field("tags", generic("Vec", vec![path("String")])),
        field("metadata", generic("HashMap", vec![path("String"), path("String")])),
    ])
}

#[test]
fn readme_order_message() {
    let mut config = UnifiedProtoConfig::default();
    config.proto_path = Some("protos/orders.proto".to_string());
    let defs = match message_struct_definitions("Order", &order_fields(), &config) {
        Ok(d) => d,
        Err(_) => panic!("definitions"),
    };
    assert_eq!(defs.per_name.len(), 1);
    assert_eq!(defs.per_name[0].len(), 1);
    let def = &defs.per_name[0][0];
    assert_eq!(def.message_name, "Order");
    assert!(def.emitted);
    assert_eq!(
        def.proto,
        "message Order {\n  uint64 id = 1;\n  string item = 2;\n  uint32 quantity = 3;\n  optional string notes = 4;\n  repeated string tags = 5;\n  map<string, string> metadata = 6;\n}\n\n"
    );
}

#[test]
fn readme_event_enum() {
    let variants = vec![
        variant("Ping", FieldsModel::Unit),
        variant("Message", FieldsModel::Unnamed(vec![field("", path("String"))])),
        variant(
            "Transfer",
            FieldsModel::Named(vec![field("from", path("u64")), field("to", path("u64")), field("amount", path("u64"))]),
        ),
        variant(
            "Batch",
            FieldsModel::Named(vec![
                field("ids", generic("Vec", vec![path("u64")])),
                field("labels", generic("Vec", vec![path("String")])),
            ]),
        ),
        variant(
            "Optional",
            FieldsModel::Named(vec![
                field("id", generic("Option", vec![path("u64")])),
                field("note", generic("Option", vec![path("String")])),
            ]),
        ),
    ];
    let config = UnifiedProtoConfig::default();
    let defs = match message_enum_definitions("Event", &variants, &config) {
        Ok(d) => d,
        Err(_) => panic!("definitions"),
    };
    let proto = &defs.per_name[0][0].proto;
    for line in [
        "message Event {\n  oneof value {",
        "    EventPing ping = 1;",
        "    string message = 2;",
        "    EventTransfer transfer = 3;",
        "    EventBatch batch = 4;",
        "    EventOptional optional = 5;",
        "message EventPing {}",
        "message EventTransfer {\n  uint64 from = 1;\n  uint64 to = 2;\n  uint64 amount = 3;\n}",
        "message EventBatch {\n  repeated uint64 ids = 1;\n  repeated string labels = 2;\n}",
        "message EventOptional {\n  optional uint64 id = 1;\n  optional string note = 2;\n}",
    ] {
        assert!(proto.contains(line), "missing {line:?} in {proto}");
    }
}

#[test]
fn readme_custom_tags_and_skipped_fields() {
    let config_fields = FieldsModel::Named(vec![tagged("name", path("String"), 5), tagged("value", path("u64"), 10)]);
    let defs = match message_struct_definitions("Config", &config_fields, &UnifiedProtoConfig::default()) {
        Ok(d) => d,
        Err(_) => panic!("definitions"),
    };
    assert!(defs.per_name[0][0].proto.contains("string name = 5;"));
    assert!(defs.per_name[0][0].proto.contains("uint64 value = 10;"));

    let doc = vec![field("content", path("String")), skipped("cached", generic("Vec", vec![path("u8")])), field("checksum", path("u32"))];
    let tags = assign_tags(&doc);
    assert_eq!(tags, vec![Some(1), None, Some(2)]);
    let defs = match message_struct_definitions("Document", &FieldsModel::Named(doc), &UnifiedProtoConfig::default()) {
        Ok(d) => d,
        Err(_) => panic!("definitions"),
    };
    assert_eq!(defs.per_name[0][0].proto, "message Document {\n  string content = 1;\n  uint32 checksum = 2;\n}\n\n");
}

#[test]
fn readme_generic_order_line() {
    let mut config = UnifiedProtoConfig::default();
    config.proto_path = Some("protos/order.proto".to_string());
    config.generic_params = vec!["T".to_string()];
    config.generic_types = vec![GenericTypeEntry { param: "T".to_string(), types: vec![path("u64"), path("i64")] }];
    let fields = FieldsModel::Named(vec![field("quantity", path("T")), field("label", path("String"))]);
    let defs = match message_struct_definitions("OrderLine", &fields, &config) {
        Ok(d) => d,
        Err(_) => panic!("definitions"),
    };
    let row = &defs.per_name[0];
    assert_eq!(row.len(), 2);
    assert_eq!(row[0].message_name, "OrderLineU64");
    assert_eq!(row[0].proto, "message OrderLineU64 {\n  uint64 quantity = 1;\n  string label = 2;\n}\n\n");
    assert_eq!(row[1].message_name, "OrderLineI64");
    assert!(row[1].proto.contains("int64 quantity = 1;"));
    assert!(row[0].emitted && row[1].emitted);
}

#[test]
fn generic_base_definition_is_not_written() {
    let mut config = UnifiedProtoConfig::default();
    config.generic_params = vec!["K".to_string(), "V".to_string()];
    let fields = FieldsModel::Named(vec![field("key", path("K")), field("value", path("V"))]);
    let defs = match message_struct_definitions("Pair", &fields, &config) {
        Ok(d) => d,
        Err(_) => panic!("definitions"),
    };
    assert_eq!(defs.per_name[0].len(), 1);
    assert_eq!(defs.per_name[0][0].message_name, "Pair");
    assert!(!defs.per_name[0][0].emitted);
    assert!(defs.per_name[0][0].proto.contains("bytes key = 1;"));
}

#[test]
fn transparent_types_are_not_written_to_proto_files() {
    let mut config = UnifiedProtoConfig::default();
    config.transparent = true;
    config.proto_path = Some("x.proto".to_string());
    let fields = FieldsModel::Unnamed(vec![field("", path("u64"))]);
    assert!(matches!(message_struct_definitions("UserId", &fields, &config), Err(DefinitionError::TransparentWithPath)));
    config.proto_path = None;
    assert!(message_struct_definitions("UserId", &fields, &config).is_ok());
}

#[test]
fn sun_names_give_one_definition_each() {
    let mut config = UnifiedProtoConfig::default();
    for name in ["InvoiceLine", "AccountingLine"] {
        config.suns.push(SunConfig { ty: path(name), message_ident: name.to_string(), by_ref: false });
    }
    let fields = FieldsModel::Named(vec![field("amount", path("u64"))]);
    let defs = match message_struct_definitions("LineProto", &fields, &config) {
        Ok(d) => d,
        Err(_) => panic!("definitions"),
    };
    assert_eq!(defs.per_name.len(), 2);
    assert_eq!(defs.per_name[0][0].message_name, "InvoiceLine");
    assert_eq!(defs.per_name[1][0].message_name, "AccountingLine");
}

#[test]
fn dump_definitions_drop_the_proto_suffix() {
    let mut config = UnifiedProtoConfig::default();
    config.generic_params = vec!["T".to_string()];
    let fields = FieldsModel::Named(vec![field("v", path("T"))]);
    let defs = match dump_struct_definitions("WrapperProto", &fields, &config) {
        Ok(d) => d,
        Err(_) => panic!("definitions"),
    };
    assert_eq!(defs.per_name[0][0].message_name, "Wrapper");
    assert!(defs.per_name[0][0].emitted);

    let status = vec![variant("Pending", FieldsModel::Unit), variant("Active", FieldsModel::Unit)];
    let defs = match dump_enum_definitions("StatusProto", &status, &UnifiedProtoConfig::default()) {
        Ok(d) => d,
        Err(_) => panic!("definitions"),
    };
    assert_eq!(defs.per_name[0][0].proto, "enum Status {\n  PENDING = 0;\n  ACTIVE = 1;\n}\n\n");
    assert_eq!(defs.per_name[0][0].proto, generate_simple_enum_proto("Status", &status));
}

#[test]
fn service_definition_qualifies_imported_types() {
    let mut config = UnifiedProtoConfig::default();
    config.rpc_package = Some("svc".to_string());
    config.import_all_from = Some("shared".to_string());
    config.type_imports.extend("custom".to_string(), &vec!["Special".to_string()]);
    let methods = vec![MethodModel {
        name: "get_special".to_string(),
        request_type: path("Special"),
        response_type: path("Reply"),
        is_streaming: false,
        inner_response_type: None,
    }];
    let service = service_definition("Lookup", &methods, &config);
    assert!(service.contains("service Lookup {"));
    assert!(service.contains("rpc GetSpecial(custom.Special) returns (shared.Reply)"));
}

#[test]
fn tag_assignment_refuses_zero_and_duplicate_tags() {
    let mixed = vec![tagged("a", path("u32"), 2), field("b", path("u32")), field("c", path("u32")), tagged("d", path("u32"), 7)];
    assert_eq!(try_assign_tags(&mixed), Some(vec![Some(2), Some(1), Some(3), Some(7)]));
    assert_eq!(assign_tags(&mixed), vec![Some(2), Some(1), Some(3), Some(7)]);

    let zero = vec![tagged("a", path("u32"), 0)];
    assert_eq!(try_assign_tags(&zero), None);

    let duplicate = vec![tagged("a", path("u32"), 3), tagged("b", path("u32"), 3)];
    assert_eq!(try_assign_tags(&duplicate), None);

    let clash_with_automatic = vec![field("a", path("u32")), tagged("b", path("u32"), 1)];
    assert_eq!(try_assign_tags(&clash_with_automatic), None);

    let too_large = vec![tagged("a", path("u32"), 1usize << 40)];
    assert_eq!(try_assign_tags(&too_large), None);
}

#[test]
fn unions_are_refused_after_transparency_and_generics() {
    let config = UnifiedProtoConfig::default();
    assert!(matches!(message_definitions("U", &DataModel::Union, &config), Err(DefinitionError::Union)));

    let mut transparent = UnifiedProtoConfig::default();
    transparent.transparent = true;
    transparent.proto_path = Some("x.proto".to_string());
    assert!(matches!(message_definitions("U", &DataModel::Union, &transparent), Err(DefinitionError::TransparentWithPath)));

    let fields = FieldsModel::Named(vec![field("id", path("u64"))]);
    match message_definitions("Item", &DataModel::Struct(fields), &config) {
        Ok(MessageDefinitions::Struct(d)) => assert_eq!(d.per_name[0][0].proto, "message Item {\n  uint64 id = 1;\n}\n\n"),
        _ => panic!("struct definitions"),
    }
}
