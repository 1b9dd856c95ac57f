//! Protobuf schema derivation logic: a model of Rust types and fields, the rules that map them to
//! protobuf field types, tag assignment, the rendering of `.proto` definitions, and the code
//! that encodes and decodes fields and `oneof` variants.

pub mod text;
pub mod types;
pub mod field;
pub mod proto_type;
pub mod model;
pub mod emit;
pub mod tags;
pub mod enums;
pub mod generics;
pub mod subst;
pub mod enum_fields;
pub mod order;
pub mod string_set;
pub mod import_map;
pub mod imports;
pub mod meta;
pub mod config;
pub mod unified;
pub mod proto_config;
pub mod type_params;
pub mod field_types;
pub mod definitions;
pub mod field_code;
pub mod variant_code;
pub mod impl_code;
pub mod struct_code;
pub mod field_options;
