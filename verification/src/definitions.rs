//! The `.proto` definitions a derivation produces: one per message name and concrete
//! instantiation of the item.

use vstd::prelude::*;

use crate::config::opt_string;
use crate::emit::{
    complex_enum_proto_spec, generate_complex_enum_proto, generate_service_content,
    generate_struct_proto, service_spec, streams_named, struct_proto_spec, tuple_variants_single,
};
use crate::enums::{check_simple_enum_proto, generate_simple_enum_proto, simple_enum_proto_ok, simple_enum_proto_spec};
use crate::generics::{GenericTypeVariant, GenericVariantsError, generic_variants_spec, variants_view};
use crate::import_map::ImportMap;
use crate::model::{DataModel, FieldsModel, ImportGroup, MethodModel, VariantModel};
use crate::string_set::strictly_sorted;
use crate::subst::{
    apply_generic_substitutions_enum, apply_generic_substitutions_fields, fields_subst,
    variant_subst,
};
use crate::text::{push_str, strip_proto_suffix, strip_proto_suffix_spec, views};
use crate::unified::{UnifiedProtoConfig, message_names_spec};

verus! {

broadcast use vstd::std_specs::vec::group_vec_axioms;

/// The definition of one concrete message of a struct.
pub struct StructDefinition {
    pub message_name: String,
    /// The struct's fields with the instantiation's types.
    pub fields: FieldsModel,
    /// The `message` definition.
    pub proto: String,
    /// The definition is written to the `.proto` file.
    pub emitted: bool,
}

/// The definition of one concrete message of an enum.
pub struct EnumDefinition {
    pub message_name: String,
    /// The enum's variants with the instantiation's types.
    pub variants: Vec<VariantModel>,
    /// The `enum` or `message` definition.
    pub proto: String,
    /// The definition is written to the `.proto` file.
    pub emitted: bool,
}

/// The concrete instantiations of an item, and for each message name, one definition per
/// instantiation.
pub struct StructDefinitions {
    pub variants: Vec<GenericTypeVariant>,
    pub per_name: Vec<Vec<StructDefinition>>,
}

pub struct EnumDefinitions {
    pub variants: Vec<GenericTypeVariant>,
    pub per_name: Vec<Vec<EnumDefinition>>,
}

/// Why no definitions were produced.
pub enum DefinitionError {
    /// The instantiations could not be formed.
    Variants(GenericVariantsError),
    /// A transparent type cannot be written to a `.proto` file.
    TransparentWithPath,
    /// A union has no protobuf form.
    Union,
}

/// Whether a definition is written to the `.proto` file: when bases are filtered, the base
/// (uninstantiated) definition of a generic item is not.
pub open spec fn emitted_spec(filter_base: bool, params: Seq<Seq<char>>, v: GenericTypeVariant) -> bool {
    !filter_base || params.len() == 0 || v.substitutions@.len() > 0
}

pub open spec fn struct_definition_ok(
    d: StructDefinition,
    name: Seq<char>,
    v: GenericTypeVariant,
    fields: FieldsModel,
    config: UnifiedProtoConfig,
    filter_base: bool,
) -> bool {
    &&& d.message_name@ == name + v.suffix@
    &&& fields_subst(config.generic_types@, v.substitutions@, fields, d.fields)
    &&& d.proto@ == struct_proto_spec(d.message_name@, d.fields, views(config.generic_params@))
    &&& d.emitted == emitted_spec(filter_base, views(config.generic_params@), v)
}

/// One row of definitions per name, one definition per instantiation.
pub open spec fn struct_definitions_ok(
    d: StructDefinitions,
    names: Seq<Seq<char>>,
    fields: FieldsModel,
    config: UnifiedProtoConfig,
    filter_base: bool,
) -> bool {
    &&& generic_variants_spec(config.generic_types@, views(config.generic_params@)) == Ok::<
        _,
        GenericVariantsError,
    >(variants_view(d.variants@))
    &&& d.per_name@.len() == names.len()
    &&& forall|i: int| 0 <= i < names.len() ==> (#[trigger] d.per_name@[i])@.len() == d.variants@.len()
    &&& forall|i: int, k: int|
        0 <= i < names.len() && 0 <= k < d.variants@.len() ==> struct_definition_ok(
            #[trigger] d.per_name@[i]@[k],
            names[i],
            d.variants@[k],
            fields,
            config,
            filter_base,
        )
}

fn struct_definitions_for(
    names: &Vec<String>,
    fields: &FieldsModel,
    config: &UnifiedProtoConfig,
    filter_base: bool,
) -> (r: Result<StructDefinitions, GenericVariantsError>)
    ensures
        match r {
            Ok(d) => struct_definitions_ok(d, views(names@), *fields, *config, filter_base),
            Err(e) => generic_variants_spec(config.generic_types@, views(config.generic_params@))
                == Err::<Seq<(Seq<char>, Seq<(Seq<char>, int, nat)>)>, _>(e),
        },
{
    let variants = match config.generic_type_variants() {
        Ok(v) => v,
        Err(e) => {
            return Err(e);
        },
    };
    let has_params = config.generic_params.len() > 0;
    let mut per_name: Vec<Vec<StructDefinition>> = Vec::new();
    let n = names.len();
    let mut i: usize = 0;
    while i < n
        invariant
            n == names@.len(),
            i <= n,
            has_params == (config.generic_params@.len() > 0),
            forall|j: int|
                0 <= j < variants@.len() ==> crate::subst::subs_valid(
                    config.generic_types@,
                    #[trigger] variants@[j].substitutions@,
                ),
            per_name@.len() == i,
            forall|a: int| 0 <= a < i ==> (#[trigger] per_name@[a])@.len() == variants@.len(),
            forall|a: int, k: int|
                0 <= a < i && 0 <= k < variants@.len() ==> struct_definition_ok(
                    #[trigger] per_name@[a]@[k],
                    views(names@)[a],
                    variants@[k],
                    *fields,
                    *config,
                    filter_base,
                ),
        decreases n - i,
    {
        let mut row: Vec<StructDefinition> = Vec::new();
        let m = variants.len();
        let mut k: usize = 0;
        while k < m
            invariant
                n == names@.len(),
                i < n,
                m == variants@.len(),
                k <= m,
                has_params == (config.generic_params@.len() > 0),
                forall|j: int|
                    0 <= j < variants@.len() ==> crate::subst::subs_valid(
                        config.generic_types@,
                        #[trigger] variants@[j].substitutions@,
                    ),
                row@.len() == k,
                forall|b: int|
                    0 <= b < k ==> struct_definition_ok(
                        #[trigger] row@[b],
                        views(names@)[i as int],
                        variants@[b],
                        *fields,
                        *config,
                        filter_base,
                    ),
            decreases m - k,
        {
            let v = &variants[k];
            let mut message_name = names[i].clone();
            push_str(&mut message_name, v.suffix.as_str());
            assert(views(names@)[i as int] == names@[i as int]@);
            let substituted = apply_generic_substitutions_fields(
                fields,
                &config.generic_types,
                &v.substitutions,
            );
            let proto = generate_struct_proto(
                message_name.as_str(),
                &substituted,
                &config.generic_params,
            );
            let emitted = !filter_base || !has_params || v.substitutions.len() > 0;
            row.push(StructDefinition { message_name, fields: substituted, proto, emitted });
            k = k + 1;
        }
        per_name.push(row);
        proof {
            assert forall|a: int, b: int|
                0 <= a < i + 1 && 0 <= b < variants@.len() implies struct_definition_ok(
                #[trigger] per_name@[a]@[b],
                views(names@)[a],
                variants@[b],
                *fields,
                *config,
                filter_base,
            ) by {
                if a == i {
                    assert(per_name@[a] == row);
                }
            }
        }
        i = i + 1;
    }
    Ok(StructDefinitions { variants, per_name })
}

/// The variants are all unit variants: the enum is a plain protobuf `enum`.
pub open spec fn all_unit(vs: Seq<VariantModel>) -> bool {
    forall|i: int| 0 <= i < vs.len() ==> (#[trigger] vs[i]).fields is Unit
}

/// An enum can be written: a plain enum with valid discriminants, or a oneof message whose tuple
/// variants each hold one field.
pub open spec fn enum_writable(vs: Seq<VariantModel>) -> bool {
    if all_unit(vs) {
        simple_enum_proto_ok(vs)
    } else {
        tuple_variants_single(vs)
    }
}

pub open spec fn enum_definition_ok(
    d: EnumDefinition,
    name: Seq<char>,
    v: GenericTypeVariant,
    vs: Seq<VariantModel>,
    config: UnifiedProtoConfig,
    filter_base: bool,
) -> bool {
    &&& d.message_name@ == name + v.suffix@
    &&& d.variants@.len() == vs.len()
    &&& forall|j: int|
        0 <= j < vs.len() ==> variant_subst(
            config.generic_types@,
            v.substitutions@,
            vs[j],
            #[trigger] d.variants@[j],
        )
    &&& d.proto@ == if all_unit(vs) {
        simple_enum_proto_spec(d.message_name@, vs)
    } else {
        complex_enum_proto_spec(d.message_name@, d.variants@, views(config.generic_params@))
    }
    &&& d.emitted == emitted_spec(filter_base, views(config.generic_params@), v)
}

pub open spec fn enum_definitions_ok(
    d: EnumDefinitions,
    names: Seq<Seq<char>>,
    vs: Seq<VariantModel>,
    config: UnifiedProtoConfig,
    filter_base: bool,
) -> bool {
    &&& generic_variants_spec(config.generic_types@, views(config.generic_params@)) == Ok::<
        _,
        GenericVariantsError,
    >(variants_view(d.variants@))
    &&& d.per_name@.len() == names.len()
    &&& forall|i: int| 0 <= i < names.len() ==> (#[trigger] d.per_name@[i])@.len() == d.variants@.len()
    &&& forall|i: int, k: int|
        0 <= i < names.len() && 0 <= k < d.variants@.len() ==> enum_definition_ok(
            #[trigger] d.per_name@[i]@[k],
            names[i],
            d.variants@[k],
            vs,
            config,
            filter_base,
        )
}

fn is_all_unit(vs: &Vec<VariantModel>) -> (r: bool)
    ensures
        r == all_unit(vs@),
{
    let mut i: usize = 0;
    while i < vs.len()
        invariant
            i <= vs@.len(),
            forall|j: int| 0 <= j < i ==> (#[trigger] vs@[j]).fields is Unit,
        decreases vs.len() - i,
    {
        if !matches!(vs[i].fields, FieldsModel::Unit) {
            assert(!(vs@[i as int].fields is Unit));
            return false;
        }
        i = i + 1;
    }
    true
}

/// Whether an enum can be written (see `enum_writable`).
pub fn is_enum_writable(vs: &Vec<VariantModel>) -> (r: bool)
    ensures
        r == enum_writable(vs@),
{
    if is_all_unit(vs) {
        return check_simple_enum_proto(vs).is_ok();
    }
    let mut i: usize = 0;
    while i < vs.len()
        invariant
            i <= vs@.len(),
            forall|j: int|
                0 <= j < i ==> match #[trigger] vs@[j].fields {
                    FieldsModel::Unnamed(fs) => fs@.len() == 1,
                    _ => true,
                },
        decreases vs.len() - i,
    {
        if let FieldsModel::Unnamed(fs) = &vs[i].fields {
            if fs.len() != 1 {
                assert(!(match vs@[i as int].fields {
                    FieldsModel::Unnamed(fs) => fs@.len() == 1,
                    _ => true,
                }));
                return false;
            }
        }
        i = i + 1;
    }
    true
}

fn enum_definitions_for(
    names: &Vec<String>,
    vs: &Vec<VariantModel>,
    config: &UnifiedProtoConfig,
    filter_base: bool,
) -> (r: Result<EnumDefinitions, GenericVariantsError>)
    requires
        enum_writable(vs@),
    ensures
        match r {
            Ok(d) => enum_definitions_ok(d, views(names@), vs@, *config, filter_base),
            Err(e) => generic_variants_spec(config.generic_types@, views(config.generic_params@))
                == Err::<Seq<(Seq<char>, Seq<(Seq<char>, int, nat)>)>, _>(e),
        },
{
    let variants = match config.generic_type_variants() {
        Ok(v) => v,
        Err(e) => {
            return Err(e);
        },
    };
    let simple = is_all_unit(vs);
    let has_params = config.generic_params.len() > 0;
    let mut per_name: Vec<Vec<EnumDefinition>> = Vec::new();
    let n = names.len();
    let mut i: usize = 0;
    while i < n
        invariant
            n == names@.len(),
            i <= n,
            enum_writable(vs@),
            simple == all_unit(vs@),
            has_params == (config.generic_params@.len() > 0),
            forall|j: int|
                0 <= j < variants@.len() ==> crate::subst::subs_valid(
                    config.generic_types@,
                    #[trigger] variants@[j].substitutions@,
                ),
            per_name@.len() == i,
            forall|a: int| 0 <= a < i ==> (#[trigger] per_name@[a])@.len() == variants@.len(),
            forall|a: int, k: int|
                0 <= a < i && 0 <= k < variants@.len() ==> enum_definition_ok(
                    #[trigger] per_name@[a]@[k],
                    views(names@)[a],
                    variants@[k],
                    vs@,
                    *config,
                    filter_base,
                ),
        decreases n - i,
    {
        let mut row: Vec<EnumDefinition> = Vec::new();
        let m = variants.len();
        let mut k: usize = 0;
        while k < m
            invariant
                n == names@.len(),
                i < n,
                m == variants@.len(),
                k <= m,
                enum_writable(vs@),
                simple == all_unit(vs@),
                has_params == (config.generic_params@.len() > 0),
                forall|j: int|
                    0 <= j < variants@.len() ==> crate::subst::subs_valid(
                        config.generic_types@,
                        #[trigger] variants@[j].substitutions@,
                    ),
                row@.len() == k,
                forall|b: int|
                    0 <= b < k ==> enum_definition_ok(
                        #[trigger] row@[b],
                        views(names@)[i as int],
                        variants@[b],
                        vs@,
                        *config,
                        filter_base,
                    ),
            decreases m - k,
        {
            let v = &variants[k];
            let mut message_name = names[i].clone();
            push_str(&mut message_name, v.suffix.as_str());
            assert(views(names@)[i as int] == names@[i as int]@);
            let substituted = apply_generic_substitutions_enum(
                vs,
                &config.generic_types,
                &v.substitutions,
            );
            let proto = if simple {
                // Unit variants hold no types, so the instantiation leaves them as they are.
                generate_simple_enum_proto(message_name.as_str(), vs)
            } else {
                proof {
                    assert forall|j: int| 0 <= j < substituted@.len() implies match #[trigger] substituted@[j].fields {
                        FieldsModel::Unnamed(fs) => fs@.len() == 1,
                        _ => true,
                    } by {
                        assert(variant_subst(config.generic_types@, v.substitutions@, vs@[j], substituted@[j]));
                        match vs@[j].fields {
                            FieldsModel::Unnamed(fs) => {
                                assert(fs@.len() == 1);
                            },
                            _ => {},
                        }
                    }
                }
                generate_complex_enum_proto(message_name.as_str(), &substituted, &config.generic_params)
            };
            let emitted = !filter_base || !has_params || v.substitutions.len() > 0;
            row.push(EnumDefinition { message_name, variants: substituted, proto, emitted });
            k = k + 1;
        }
        per_name.push(row);
        proof {
            assert forall|a: int, b: int|
                0 <= a < i + 1 && 0 <= b < variants@.len() implies enum_definition_ok(
                #[trigger] per_name@[a]@[b],
                views(names@)[a],
                variants@[b],
                vs@,
                *config,
                filter_base,
            ) by {
                if a == i {
                    assert(per_name@[a] == row);
                }
            }
        }
        i = i + 1;
    }
    Ok(EnumDefinitions { variants, per_name })
}

/// The definitions `#[proto_message]` gives a struct: one per message name (the struct's own,
/// or its suns') and concrete instantiation; the base definition of a generic struct is not
/// written to the `.proto` file. A transparent struct with a `.proto` path is refused.
pub fn message_struct_definitions(
    type_ident: &str,
    fields: &FieldsModel,
    config: &UnifiedProtoConfig,
) -> (r: Result<StructDefinitions, DefinitionError>)
    ensures
        (r matches Err(DefinitionError::TransparentWithPath)) <==> (config.transparent
            && config.proto_path is Some),
        r matches Err(DefinitionError::Variants(e)) ==> generic_variants_spec(
            config.generic_types@,
            views(config.generic_params@),
        ) == Err::<Seq<(Seq<char>, Seq<(Seq<char>, int, nat)>)>, _>(e),
        !(r matches Err(DefinitionError::Union)),
        r matches Ok(d) ==> struct_definitions_ok(
            d,
            message_names_spec(config.suns@, type_ident@),
            *fields,
            *config,
            true,
        ),
{
    if config.transparent && config.proto_path.is_some() {
        return Err(DefinitionError::TransparentWithPath);
    }
    let names = config.proto_message_names(type_ident);
    match struct_definitions_for(&names, fields, config, true) {
        Ok(d) => Ok(d),
        Err(e) => Err(DefinitionError::Variants(e)),
    }
}

/// The definitions `#[proto_message]` gives an enum (see `message_struct_definitions`).
pub fn message_enum_definitions(
    type_ident: &str,
    variants: &Vec<VariantModel>,
    config: &UnifiedProtoConfig,
) -> (r: Result<EnumDefinitions, DefinitionError>)
    requires
        enum_writable(variants@),
    ensures
        (r matches Err(DefinitionError::TransparentWithPath)) <==> (config.transparent
            && config.proto_path is Some),
        r matches Err(DefinitionError::Variants(e)) ==> generic_variants_spec(
            config.generic_types@,
            views(config.generic_params@),
        ) == Err::<Seq<(Seq<char>, Seq<(Seq<char>, int, nat)>)>, _>(e),
        !(r matches Err(DefinitionError::Union)),
        r matches Ok(d) ==> enum_definitions_ok(
            d,
            message_names_spec(config.suns@, type_ident@),
            variants@,
            *config,
            true,
        ),
{
    if config.transparent && config.proto_path.is_some() {
        return Err(DefinitionError::TransparentWithPath);
    }
    let names = config.proto_message_names(type_ident);
    match enum_definitions_for(&names, variants, config, true) {
        Ok(d) => Ok(d),
        Err(e) => Err(DefinitionError::Variants(e)),
    }
}

fn dump_names(type_ident: &str) -> (r: Vec<String>)
    ensures
        views(r@) == seq![strip_proto_suffix_spec(type_ident@)],
{
    let mut names: Vec<String> = Vec::new();
    names.push(strip_proto_suffix(type_ident));
    assert(views(names@) =~= seq![strip_proto_suffix_spec(type_ident@)]);
    names
}

/// The definitions `#[proto_dump]` gives a struct: one per concrete instantiation, named after
/// the struct without a trailing `Proto`, all written to the `.proto` file.
pub fn dump_struct_definitions(type_ident: &str, fields: &FieldsModel, config: &UnifiedProtoConfig) -> (r:
    Result<StructDefinitions, GenericVariantsError>)
    ensures
        match r {
            Ok(d) => struct_definitions_ok(
                d,
                seq![strip_proto_suffix_spec(type_ident@)],
                *fields,
                *config,
                false,
            ),
            Err(e) => generic_variants_spec(config.generic_types@, views(config.generic_params@))
                == Err::<Seq<(Seq<char>, Seq<(Seq<char>, int, nat)>)>, _>(e),
        },
{
    let names = dump_names(type_ident);
    struct_definitions_for(&names, fields, config, false)
}

/// The definitions `#[proto_dump]` gives an enum (see `dump_struct_definitions`).
pub fn dump_enum_definitions(type_ident: &str, variants: &Vec<VariantModel>, config: &UnifiedProtoConfig) -> (r:
    Result<EnumDefinitions, GenericVariantsError>)
    requires
        enum_writable(variants@),
    ensures
        match r {
            Ok(d) => enum_definitions_ok(
                d,
                seq![strip_proto_suffix_spec(type_ident@)],
                variants@,
                *config,
                false,
            ),
            Err(e) => generic_variants_spec(config.generic_types@, views(config.generic_params@))
                == Err::<Seq<(Seq<char>, Seq<(Seq<char>, int, nat)>)>, _>(e),
        },
{
    let names = dump_names(type_ident);
    enum_definitions_for(&names, variants, config, false)
}

/// The groups list the packages of an import map in ascending order, each with its types in
/// ascending order.
pub open spec fn groups_listing(gs: Seq<ImportGroup>, m: ImportMap) -> bool {
    &&& gs.len() == m.keys().len()
    &&& forall|i: int|
        0 <= i < gs.len() ==> {
            &&& (#[trigger] gs[i]).package@ == m.keys()[i]
            &&& strictly_sorted(views(gs[i].types@))
            &&& views(gs[i].types@).to_set() == m@[m.keys()[i]]
        }
}

/// The `service` definition of an RPC trait, its types qualified by the configuration's imports.
pub fn service_definition(trait_name: &str, methods: &Vec<MethodModel>, config: &UnifiedProtoConfig) -> (r:
    String)
    requires
        streams_named(methods@),
        config.type_imports.wf(),
        config.rpc_package is Some,
    ensures
        exists|gs: Seq<ImportGroup>|
            groups_listing(gs, config.type_imports) && r@ == service_spec(
                trait_name@,
                methods@,
                gs,
                opt_string(config.import_all_from),
            ),
{
    let groups = config.type_imports.to_groups();
    let import_all_from = match &config.import_all_from {
        Some(p) => Some(p.as_str()),
        None => None,
    };
    let r = generate_service_content(trait_name, methods, &groups, import_all_from);
    assert(groups_listing(groups@, config.type_imports));
    r
}

/// The definitions `#[proto_message]` gives a struct or an enum.
pub enum MessageDefinitions {
    Struct(StructDefinitions),
    Enum(EnumDefinitions),
}

/// The definitions `#[proto_message]` gives an item: a transparent item with a file path is
/// refused first, then instantiations that cannot be formed, then a union; a struct or an enum
/// gets its definitions (see `message_struct_definitions` and `message_enum_definitions`).
pub fn message_definitions(
    type_ident: &str,
    data: &DataModel,
    config: &UnifiedProtoConfig,
) -> (r: Result<MessageDefinitions, DefinitionError>)
    requires
        data matches DataModel::Enum(vs) ==> enum_writable(vs@),
    ensures
        (r matches Err(DefinitionError::TransparentWithPath)) <==> (config.transparent
            && config.proto_path is Some),
        r matches Err(DefinitionError::Variants(e)) ==> generic_variants_spec(
            config.generic_types@,
            views(config.generic_params@),
        ) == Err::<Seq<(Seq<char>, Seq<(Seq<char>, int, nat)>)>, _>(e),
        (r matches Err(DefinitionError::Union)) <==> (data is Union && !(config.transparent
            && config.proto_path is Some) && generic_variants_spec(
            config.generic_types@,
            views(config.generic_params@),
        ) is Ok),
        r matches Ok(MessageDefinitions::Struct(d)) ==> *data matches DataModel::Struct(fs)
            && struct_definitions_ok(d, message_names_spec(config.suns@, type_ident@), fs, *config, true),
        r matches Ok(MessageDefinitions::Enum(d)) ==> *data matches DataModel::Enum(vs)
            && enum_definitions_ok(d, message_names_spec(config.suns@, type_ident@), vs@, *config, true),
        data is Struct ==> !(r matches Ok(MessageDefinitions::Enum(_))),
        data is Enum ==> !(r matches Ok(MessageDefinitions::Struct(_))),
        data is Union ==> r is Err,
{
    match data {
        DataModel::Struct(fields) => match message_struct_definitions(type_ident, fields, config) {
            Ok(d) => Ok(MessageDefinitions::Struct(d)),
            Err(e) => Err(e),
        },
        DataModel::Enum(variants) => match message_enum_definitions(type_ident, variants, config) {
            Ok(d) => Ok(MessageDefinitions::Enum(d)),
            Err(e) => Err(e),
        },
        DataModel::Union => {
            if config.transparent && config.proto_path.is_some() {
                return Err(DefinitionError::TransparentWithPath);
            }
            match config.generic_type_variants() {
                Ok(_) => Err(DefinitionError::Union),
                Err(e) => Err(DefinitionError::Variants(e)),
            }
        },
    }
}

} // verus!
