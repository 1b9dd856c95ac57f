use prosto_derive::field::{FieldConfig, ParsedFieldType, TypeText};
use prosto_derive::field_types::{compute_decode_ty, compute_proto_ty};
use prosto_derive::generics::{GenericTypeEntry, GenericVariantsError, generic_type_variants};
use prosto_derive::model::{FieldModel, FieldsModel};
use prosto_derive::string_set::StringSet;
use prosto_derive::subst::{apply_generic_substitutions_fields, apply_generic_substitutions_type, copy_type};
use prosto_derive::type_params::{collect_type_params, impl_ident_params, used_type_params};
use prosto_derive::types::{GenericArg, PathSegment, RustType, TypePath, type_name_with_generics_for_path};

fn seg(ident: &str, args: Vec<RustType>) -> PathSegment {
    PathSegment { ident: ident.to_string(), args: args.into_iter().map(GenericArg::Type).collect() }
}

fn path(p: &str) -> RustType {
    RustType::Path(TypePath { qself: false, segments: p.split("::").map(|s| seg(s, vec![])).collect() })
}

fn generic(p: &str, args: Vec<RustType>) -> RustType {
    let names: Vec<&str> = p.split("::").collect();
    let mut segments: Vec<PathSegment> = names[..names.len() - 1].iter().map(|s| seg(s, vec![])).collect();
    segments.push(seg(names[names.len() - 1], args));
    RustType::Path(TypePath { qself: false, segments })
}

fn render(t: &RustType) -> String {
    let segs = |segments: &Vec<PathSegment>| {
        segments
            .iter()
            .map(|s| {
                if s.args.is_empty() {
                    s.ident.clone()
                } else {
                    let args: Vec<String> = s
                        .args
                        .iter()
                        .map(|a| match a {
                            GenericArg::Type(t) => render(t),
                            GenericArg::Binding(t) => format!("Item = {}", render(t)),
                            GenericArg::Paren(t) => format!("fn {}", render(t)),
                            _ => "_".to_string(),
                        })
                        .collect();
                    format!("{}<{}>", s.ident, args.join(", "))
                }
            })
            .collect::<Vec<_>>()
            .join("::")
    };
    match t {
        RustType::Path(p) => segs(&p.segments),
        RustType::Reference(e) => format!("&{}", render(e)),
        RustType::Paren(e) => format!("({})", render(e)),
        RustType::Array(e) => format!("[{}; N]", render(e)),
        RustType::Slice(e) => format!("[{}]", render(e)),
        RustType::Tuple(v) => format!("({})", v.iter().map(render).collect::<Vec<_>>().join(", ")),
        RustType::Ptr(e) => format!("*const {}", render(e)),
        RustType::BareFn(v) => format!("fn({})", v.iter().map(render).collect::<Vec<_>>().join(", ")),
        RustType::TraitObject(s) => format!("dyn {}", segs(s)),
        RustType::Other => "_".to_string(),
    }
}

fn strings(v: &[&str]) -> Vec<String> {
    v.iter().map(|s| s.to_string()).collect()
}

fn entries() -> Vec<GenericTypeEntry> {
    vec![
        GenericTypeEntry { param: "T".to_string(), types: vec![path("u64"), generic("Vec", vec![path("u8")])] },
        GenericTypeEntry { param: "U".to_string(), types: vec![path("String")] },
    ]
}

#[test]
fn variants_name_each_combination_and_record_choices() {
    let variants = match generic_type_variants(&entries(), &strings(&["T", "U"])) {
        Ok(v) => v,
        Err(_) => panic!("variants"),
    };
    let suffixes: Vec<&str> = variants.iter().map(|v| v.suffix.as_str()).collect();
    assert_eq!(suffixes, vec!["U64String", "VecU8String"]);
    let second = &variants[1].substitutions;
    assert_eq!(second.len(), 2);
    assert_eq!((second[0].param.as_str(), second[0].entry, second[0].choice), ("T", 0, 1));
    assert_eq!((second[1].param.as_str(), second[1].entry, second[1].choice), ("U", 1, 0));
}

#[test]
fn variants_without_generic_types_are_the_item_itself() {
    let variants = match generic_type_variants(&vec![], &strings(&["T"])) {
        Ok(v) => v,
        Err(_) => panic!("variants"),
    };
    assert_eq!(variants.len(), 1);
    assert_eq!(variants[0].suffix, "");
    assert!(variants[0].substitutions.is_empty());
}

#[test]
fn variants_report_each_error() {
    assert!(matches!(generic_type_variants(&entries(), &vec![]), Err(GenericVariantsError::NotGeneric)));
    assert!(matches!(
        generic_type_variants(&entries(), &strings(&["T", "V"])),
        Err(GenericVariantsError::MissingEntry(1))
    ));
    let with_empty = vec![GenericTypeEntry { param: "T".to_string(), types: vec![] }];
    assert!(matches!(
        generic_type_variants(&with_empty, &strings(&["T"])),
        Err(GenericVariantsError::EmptyEntry(0))
    ));
    let overridden = vec![
        GenericTypeEntry { param: "T".to_string(), types: vec![] },
        GenericTypeEntry { param: "T".to_string(), types: vec![path("u32")] },
    ];
    match generic_type_variants(&overridden, &strings(&["T"])) {
        Ok(v) => assert_eq!(v[0].suffix, "U32"),
        Err(_) => panic!("the last entry of a parameter applies"),
    }
}

#[test]
fn substitution_reaches_arguments_references_arrays_and_tuples() {
    let variants = match generic_type_variants(&entries(), &strings(&["T", "U"])) {
        Ok(v) => v,
        Err(_) => panic!("variants"),
    };
    let subs = &variants[1].substitutions;
    let e = entries();
    let apply = |t: RustType| render(&apply_generic_substitutions_type(&t, &e, subs));
    assert_eq!(apply(path("T")), "Vec<u8>");
    assert_eq!(apply(generic("Option", vec![path("U")])), "Option<String>");
    assert_eq!(apply(RustType::Reference(Box::new(path("T")))), "&Vec<u8>");
    assert_eq!(apply(RustType::Array(Box::new(path("U")))), "[String; N]");
    assert_eq!(apply(RustType::Tuple(vec![path("T"), path("Other")])), "(Vec<u8>, Other)");
    assert_eq!(apply(RustType::Slice(Box::new(path("T")))), "[T]");
    assert_eq!(apply(generic("a::T", vec![])), "a::T");
    assert_eq!(apply(RustType::Ptr(Box::new(path("T")))), "*const T");
}

#[test]
fn substitution_keeps_field_names_and_options() {
    let variants = match generic_type_variants(&entries(), &strings(&["T", "U"])) {
        Ok(v) => v,
        Err(_) => panic!("variants"),
    };
    let mut config = FieldConfig::plain();
    config.custom_tag = Some(7);
    let fields = FieldsModel::Named(vec![FieldModel { name: "value".to_string(), ty: path("T"), config }]);
    match apply_generic_substitutions_fields(&fields, &entries(), &variants[0].substitutions) {
        FieldsModel::Named(fs) => {
            assert_eq!(fs[0].name, "value");
            assert_eq!(fs[0].config.custom_tag, Some(7));
            assert_eq!(render(&fs[0].ty), "u64");
        },
        _ => panic!("named fields stay named"),
    }
}

#[test]
fn copies_are_written_the_same_way() {
    let t = generic("std::collections::HashMap", vec![path("String"), RustType::Tuple(vec![path("u8"), path("i8")])]);
    assert_eq!(render(&copy_type(&t)), render(&t));
    assert_eq!(type_name_with_generics_for_path(&copy_type(&t)), type_name_with_generics_for_path(&t));
}

#[test]
fn impl_ident_params_collects_generic_arguments_once() {
    let t = generic("Foo", vec![path("K"), generic("Bar", vec![path("V"), path("K")]), path("std::string::String")]);
    assert_eq!(impl_ident_params(&t), vec!["K", "V"]);
    assert_eq!(impl_ident_params(&generic("BuildHasherDefault", vec![path("T")])), vec!["T"]);
    assert!(impl_ident_params(&path("Plain")).is_empty());
    assert!(impl_ident_params(&RustType::Tuple(vec![path("T")])).is_empty());
}

#[test]
fn used_params_search_every_part_of_a_type() {
    let params = strings(&["A", "B", "C", "D", "E"]);
    let t = RustType::Tuple(vec![
        generic("Vec", vec![path("A")]),
        RustType::BareFn(vec![path("B")]),
        RustType::TraitObject(vec![seg("Into", vec![path("C")])]),
        RustType::Ptr(Box::new(path("Z"))),
        RustType::Path(TypePath {
            qself: false,
            segments: vec![PathSegment {
                ident: "Iterator".to_string(),
                args: vec![GenericArg::Binding(path("D"))],
            }],
        }),
    ]);
    assert_eq!(used_type_params(&params, &t).to_vec(), vec!["A", "B", "C", "D"]);
    assert!(used_type_params(&vec![], &t).to_vec().is_empty());

    let mut set = StringSet::new();
    set.insert("E".to_string());
    let mut used = StringSet::new();
    collect_type_params(&generic("a::E", vec![]), &set, &mut used);
    assert_eq!(used.len(), 0);
    collect_type_params(&path("E"), &set, &mut used);
    assert_eq!(used.to_vec(), vec!["E"]);
}

#[test]
fn proto_and_decode_types_follow_the_options() {
    let parsed = ParsedFieldType {
        is_option: false,
        is_repeated: false,
        is_map: false,
        is_message_like: false,
        is_rust_enum: false,
        proto_type: "uint32".to_string(),
    };
    let own = path("u32");
    assert_eq!(render(&compute_proto_ty(&FieldConfig::plain(), &parsed, &own)), "u32");

    let mut into = FieldConfig::plain();
    into.into_type = Some(TypeText { text: "i64".to_string(), parsed: Some(path("i64")) });
    assert_eq!(render(&compute_proto_ty(&into, &parsed, &own)), "i64");
    assert_eq!(render(&compute_decode_ty(&into, &parsed, &own)), "i64");

    let mut from = into;
    from.from_type = Some(TypeText { text: "u16".to_string(), parsed: Some(path("u16")) });
    assert_eq!(render(&compute_decode_ty(&from, &parsed, &own)), "u16");

    let mut enum_cfg = FieldConfig::plain();
    enum_cfg.is_rust_enum = true;
    assert_eq!(render(&compute_proto_ty(&enum_cfg, &parsed, &path("Status"))), "i32");
    assert_eq!(render(&compute_decode_ty(&enum_cfg, &parsed, &path("Status"))), "i32");
}
