use prosto_derive::field::FieldConfig;
use prosto_derive::field_code::{FieldAccess, FieldInfo, TypeCode};
use prosto_derive::field_types::{compute_decode_ty, compute_proto_ty};
use prosto_derive::impl_code::{
    ImplGenerics, SimpleEnumImplError, generate_complex_enum_impl, generate_simple_enum_impl, generate_struct_impl,
    generate_transparent_struct_impl,
};
use prosto_derive::model::{Discriminant, FieldsModel, VariantModel};
use prosto_derive::proto_type::{effective_type, parse_field_type};
use prosto_derive::types::{GenericArg, PathSegment, RustType, TypePath};
use prosto_derive::variant_code::{VariantInfo, VariantKind, tuple_binding_ident};

fn path(p: &str) -> RustType {
    RustType::Path(TypePath {
        qself: false,
        segments: p.split("::").map(|s| PathSegment { ident: s.to_string(), args: Vec::<GenericArg>::new() }).collect(),
    })
}

fn plain_generics() -> ImplGenerics {
    ImplGenerics {
        impl_generics: String::new(),
        ty_generics: String::new(),
        where_clause: String::new(),
        shadow_impl_generics: "< 'a >".to_string(),
        shadow_ty_generics: "< 'a >".to_string(),
        shadow_where_clause: String::new(),
    }
}

fn field(index: usize, name: Option<&str>, binding: &str, ty: &str, tag: Option<u32>) -> FieldInfo {
    let config = FieldConfig::plain();
    let rust_ty = path(ty);
    let effective = effective_type(&rust_ty, &config);
    let parsed = parse_field_type(effective);
    let proto_ty = compute_proto_ty(&config, &parsed, effective);
    let decode_ty = compute_decode_ty(&config, &parsed, &proto_ty);
    FieldInfo {
        index,
        ident: name.map(str::to_string),
        field_ty: TypeCode { ty: rust_ty, code: ty.to_string() },
        access: FieldAccess::Direct(binding.to_string()),
        config,
        tag,
        parsed,
        proto_ty: TypeCode { ty: proto_ty, code: ty.to_string() },
        decode_ty: TypeCode { ty: decode_ty, code: ty.to_string() },
    }
}

fn event_variants() -> Vec<VariantInfo> {
    let binding = tuple_binding_ident("Count");
    vec![
        VariantInfo { ident: "Idle".to_string(), tag: 1, kind: VariantKind::Unit, is_default: true },
        VariantInfo {
            ident: "Count".to_string(),
            tag: 2,
            kind: VariantKind::Tuple { field: field(0, None, &binding, "u64", Some(1)), binding_ident: binding },
            is_default: false,
        },
        VariantInfo {
            ident: "Moved".to_string(),
            tag: 3,
            kind: VariantKind::Struct { fields: vec![field(0, Some("x"), "x", "i32", Some(1)), field(1, Some("y"), "y", "i32", Some(2))] },
            is_default: false,
        },
    ]
}

#[test]
fn complex_enum_impl_is_rust_code() {
    let code = generate_complex_enum_impl("Event", &plain_generics(), &event_variants(), 0, &None, &vec![]).unwrap();
    let file = syn::parse_str::<syn::File>(&code).expect("generated impls parse");
    assert_eq!(file.items.len(), 9);
    assert!(code.contains("fn proto_default () -> Self { Event :: Idle } "));
    assert!(code.contains("match tag { 1u32 => { "));
    assert!(code.contains("Event :: Idle => true , Event :: Count (..) => false , Event :: Moved { .. } => false , "));
}

#[test]
fn complex_enum_impl_with_sun_and_ext_validator() {
    let ext = Some("crate::check_ext".to_string());
    let code = generate_complex_enum_impl("Event", &plain_generics(), &event_variants(), 0, &ext, &vec!["EventSun".to_string()]).unwrap();
    let file = syn::parse_str::<syn::File>(&code).expect("generated impls parse");
    assert_eq!(file.items.len(), 15);
    assert!(code.contains("type ShadowDecoded = Self ;  } "));
    assert!(code.contains("crate::check_ext (value , ext)"));
    let without_sun = generate_complex_enum_impl("Event", &plain_generics(), &event_variants(), 0, &ext, &vec![]).unwrap();
    assert!(without_sun.contains("type ShadowDecoded = Self ; const VALIDATE_WITH_EXT : bool = true ;"));
    assert!(generate_complex_enum_impl("Event", &plain_generics(), &event_variants(), 0, &Some("not a path".to_string()), &vec![]).is_none());
}

fn unit(ident: &str, discriminant: Discriminant, is_default: bool) -> VariantModel {
    VariantModel { ident: ident.to_string(), fields: FieldsModel::Unit, discriminant, is_default, tag_attrs: vec![] }
}

#[test]
fn simple_enum_impl_maps_variants_to_values() {
    let variants = vec![unit("Active", Discriminant::Literal(1), false), unit("Pending", Discriminant::Literal(0), false), unit("Gone", Discriminant::Literal(-2), false)];
    let code = match generate_simple_enum_impl("Status", &plain_generics(), &variants, &None, &vec![]) {
        Ok(c) => c,
        Err(_) => panic!("simple enum impls"),
    };
    syn::parse_str::<syn::File>(&code).expect("generated impls parse");
    assert!(code.contains("match value { 1i32 => Ok (Self :: Active) , 0i32 => Ok (Self :: Pending) , -2i32 => Ok (Self :: Gone) , _ => "));
    assert!(code.contains("match * value { Status :: Active => 1i32 , Status :: Pending => 0i32 , Status :: Gone => -2i32 , }"));
    assert!(code.contains("fn proto_default () -> Self { Self :: Pending } "));
}

#[test]
fn simple_enum_impl_moves_zero_to_the_default_variant() {
    let variants = vec![unit("Pending", Discriminant::Literal(0), false), unit("Active", Discriminant::Literal(1), true)];
    let code = match generate_simple_enum_impl("Status", &plain_generics(), &variants, &None, &vec!["StatusSun".to_string()]) {
        Ok(c) => c,
        Err(_) => panic!("simple enum impls"),
    };
    syn::parse_str::<syn::File>(&code).expect("generated impls parse");
    assert!(code.contains("Status :: Pending => 1i32 , Status :: Active => 0i32 , "));
    assert!(code.contains("Self :: Active } "));
    assert!(code.contains(":: proto_rs :: ProtoExt for StatusSun"));
}

#[test]
fn simple_enum_impl_errors() {
    let no_zero = vec![unit("A", Discriminant::Literal(1), false)];
    assert!(matches!(generate_simple_enum_impl("E", &plain_generics(), &no_zero, &None, &vec![]), Err(SimpleEnumImplError::Discriminants(_))));
    let ok = vec![unit("A", Discriminant::Implicit, false)];
    assert!(matches!(
        generate_simple_enum_impl("E", &plain_generics(), &ok, &Some("1 +".to_string()), &vec![]),
        Err(SimpleEnumImplError::ValidatorPath)
    ));
}

fn wrapped(access: FieldAccess, validator: Option<&str>) -> FieldInfo {
    let mut info = field(0, None, "", "u64", Some(1));
    info.access = access;
    info.config.validator = validator.map(str::to_string);
    info
}

#[test]
fn transparent_tuple_struct_impl() {
    let code = generate_transparent_struct_impl("Id", "pub", &plain_generics(), &wrapped(FieldAccess::Tuple(0), None), &FieldsModel::Unnamed(vec![]), &None).unwrap();
    let file = syn::parse_str::<syn::File>(&code).expect("generated impls parse");
    assert_eq!(file.items.len(), 10);
    assert!(code.starts_with("pub struct IdShadow < 'a > (< u64 as :: proto_rs :: ProtoEncode > :: Shadow < 'a >)"));
    assert!(code.contains("fn proto_default () -> Self { Self (< u64 as :: proto_rs :: ProtoDefault > :: proto_default ()) }"));
    assert!(code.contains("let mut value = Self (inner) ;"));
    assert!(code.contains("from_sun (& value . 0)"));
    assert!(!code.contains("state . defer ()"));
}

#[test]
fn transparent_named_struct_impl_runs_validators() {
    let info = wrapped(FieldAccess::Named("raw".to_string()), Some("check_raw"));
    let code = generate_transparent_struct_impl("Wrapper", "", &plain_generics(), &info, &FieldsModel::Named(vec![]), &Some("check_all".to_string())).unwrap();
    syn::parse_str::<syn::File>(&code).expect("generated impls parse");
    assert!(code.contains("let mut value = Self { raw : inner } ; check_raw (& mut value . raw) ? ; check_all (& mut value) ? ; Ok (value)"));
    assert!(code.contains("if state . pending () { check_raw (& mut self . raw) ? ; check_all (self) ? ; }"));
    assert!(code.contains("state . defer () ;"));
    assert!(generate_transparent_struct_impl("Wrapper", "", &plain_generics(), &info, &FieldsModel::Named(vec![]), &Some("a b".to_string())).is_none());
}

fn struct_field(index: usize, name: Option<&str>, ty: &str, tag: Option<u32>, config: FieldConfig) -> FieldInfo {
    let access = match name {
        Some(n) => FieldAccess::Named(n.to_string()),
        None => FieldAccess::Tuple(index),
    };
    let mut info = field(index, name, "", ty, tag);
    info.access = access;
    info.config = config;
    info
}

fn user_fields() -> Vec<FieldInfo> {
    let mut skipped = FieldConfig::plain();
    skipped.skip = true;
    skipped.skip_deser_fn = Some("rebuild_cache".to_string());
    let mut validated = FieldConfig::plain();
    validated.validator = Some("check_name".to_string());
    vec![
        struct_field(0, Some("id"), "u64", Some(1), FieldConfig::plain()),
        struct_field(1, Some("name"), "String", Some(2), validated),
        struct_field(2, Some("cache"), "u32", None, skipped),
    ]
}

#[test]
fn struct_impl_is_rust_code() {
    let code = generate_struct_impl("User", "pub", &plain_generics(), &vec![], &user_fields(), &FieldsModel::Named(vec![]), &None, &None, &vec![]).unwrap();
    let file = syn::parse_str::<syn::File>(&code).expect("generated impls parse");
    assert_eq!(file.items.len(), 11);
    assert!(code.starts_with("pub struct UserShadow < 'a >  { id : < u64 as :: proto_rs :: ProtoEncode > :: Shadow < 'a > , name : "));
    assert!(code.contains("__proto_phantom : :: core :: marker :: PhantomData < & 'a () > , }"));
    assert!(code.contains("Self { id : < < u64 as :: proto_rs :: ProtoEncode > :: Shadow < 'a > as :: proto_rs :: ProtoShadowEncode < 'a , u64 > > :: from_sun (& value . id) , "));
    assert!(code.contains("fn is_default (& self) -> bool { :: proto_rs :: ProtoArchive :: is_default (& self . id) && :: proto_rs :: ProtoArchive :: is_default (& self . name) }"));
    assert!(code.contains(
        "let mark = w . mark () ; :: proto_rs :: ArchivedProtoField :: < 2u32 , < String as :: proto_rs :: ProtoEncode > :: Shadow < 'a > > :: archive (& self . name , w) ; \
         :: proto_rs :: ArchivedProtoField :: < 1u32 , < u64 as :: proto_rs :: ProtoEncode > :: Shadow < 'a > > :: archive (& self . id , w) ; if TAG != 0"
    ));
    assert!(code.contains("match tag { 1u32 => { < u64 as :: proto_rs :: ProtoDecoder > :: merge (& mut value . id , wire_type , buf , ctx) ? ;  Ok (()) } , "));
    assert!(code.contains("{ let __proto_rs_tmp = rebuild_cache (& mut (* self)) ; (* self) . cache = __proto_rs_tmp ; } check_name (& mut (* self) . name) ? ; "));
    assert!(code.contains("state . defer () ;"));
    assert!(code.contains("fn post_decode (value : Self :: ShadowDecoded) -> Result < Self , :: proto_rs :: DecodeError > { let mut shadow = value ; "));
    assert!(code.contains("type Shadow < 'a > = UserShadow < 'a > ;"));
    assert!(code.contains("< UserShadow < '_ > as :: proto_rs :: ProtoExt > :: ENCODED_SIZE_HINT"));
}

#[test]
fn tuple_and_unit_struct_impls() {
    let fields = vec![struct_field(0, None, "u32", None, { let mut c = FieldConfig::plain(); c.skip = true; c }), struct_field(1, None, "u64", Some(1), FieldConfig::plain())];
    let code = generate_struct_impl("Pair", "", &plain_generics(), &vec![], &fields, &FieldsModel::Unnamed(vec![]), &None, &None, &vec![]).unwrap();
    syn::parse_str::<syn::File>(&code).expect("generated impls parse");
    assert!(code.starts_with(" struct PairShadow < 'a > (< u64 as :: proto_rs :: ProtoEncode > :: Shadow < 'a > , :: core :: marker :: PhantomData < & 'a () > ,)"));
    assert!(code.contains(":: proto_rs :: ProtoArchive :: is_default (& self . 0)"));
    assert!(code.contains("Self (< u32 as :: proto_rs :: ProtoDecoder > :: proto_default () , < u64 as :: proto_rs :: ProtoDecoder > :: proto_default ())") || code.contains("fn proto_default () -> Self { Self ("));

    let code = generate_struct_impl("Marker", "pub", &plain_generics(), &vec![], &vec![], &FieldsModel::Unit, &None, &None, &vec![]).unwrap();
    syn::parse_str::<syn::File>(&code).expect("generated impls parse");
    assert!(code.contains("fn is_default (& self) -> bool { true }"));
    assert!(code.contains("fn proto_default () -> Self { Self } "));
}

#[test]
fn struct_impl_with_sun_types_and_getters() {
    let mut getter = FieldConfig::plain();
    getter.getter = Some("$.id()".to_string());
    let fields = vec![struct_field(0, Some("id"), "u64", Some(1), getter)];
    let ext = Some("check_ext".to_string());
    let code = generate_struct_impl("Rec", "pub", &plain_generics(), &vec![], &fields, &FieldsModel::Named(vec![]), &Some("check".to_string()), &ext, &vec!["Domain".to_string()]).unwrap();
    syn::parse_str::<syn::File>(&code).expect("generated impls parse");
    assert!(code.contains("fn from_sun (value : & 'a Domain) -> Self { Self { id : value.id() , } }"));
    assert!(code.contains("< Rec  as :: proto_rs :: ProtoShadowDecode < Domain > > :: to_sun (shadow) }"));
    assert!(code.contains("check_ext (value , ext)"));
    assert!(code.contains("check (& mut value) ? ;"));

    let no_sun = generate_struct_impl("Rec", "pub", &plain_generics(), &vec![], &fields, &FieldsModel::Named(vec![]), &None, &None, &vec![]).unwrap();
    assert!(no_sun.contains("Self { id : < < u64 as :: proto_rs :: ProtoEncode > :: Shadow < 'a > as :: proto_rs :: ProtoShadowEncode < 'a , u64 > > :: from_sun (& value.id()) , "));
}

#[test]
fn struct_impl_refuses_what_is_not_code() {
    let mut bad_getter = FieldConfig::plain();
    bad_getter.getter = Some("$.".to_string());
    let fields = vec![struct_field(0, Some("id"), "u64", Some(1), bad_getter)];
    assert!(generate_struct_impl("R", "", &plain_generics(), &vec![], &fields, &FieldsModel::Named(vec![]), &None, &None, &vec![]).is_none());
    assert!(generate_struct_impl("R", "", &plain_generics(), &vec![], &user_fields(), &FieldsModel::Named(vec![]), &Some("not a path".to_string()), &None, &vec![]).is_none());
    let shadow_args = vec!["T".to_string()];
    let code = generate_struct_impl("G", "", &plain_generics(), &shadow_args, &user_fields(), &FieldsModel::Named(vec![]), &None, &None, &vec![]).unwrap();
    assert!(code.contains("type Shadow < 'a > = GShadow < 'a , T > ;"));
}

#[test]
fn transparent_bounds_cover_the_inner_type_and_its_parameters() {
    let inner = RustType::Path(TypePath {
        qself: false,
        segments: vec![PathSegment { ident: "Vec".to_string(), args: vec![GenericArg::Type(path("T"))] }],
    });
    let bounds = prosto_derive::impl_code::transparent_bounds("Vec < T >", &inner, &vec!["T".to_string(), "U".to_string()]);
    assert_eq!(bounds.len(), 6);
    assert_eq!(bounds[0], "Vec < T > : :: proto_rs :: ProtoEncode + :: proto_rs :: ProtoDecode + :: proto_rs :: ProtoDecoder + :: proto_rs :: ProtoExt");
    assert_eq!(bounds[4], "T : :: proto_rs :: ProtoEncode + :: proto_rs :: ProtoDecode + :: proto_rs :: ProtoDecoder + :: proto_rs :: ProtoExt");
    for bound in &bounds {
        syn::parse_str::<syn::WherePredicate>(bound).expect("bound parses");
    }
    assert_eq!(prosto_derive::impl_code::transparent_bounds("u64", &path("u64"), &vec![]).len(), 4);
}
