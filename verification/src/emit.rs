//! Rendering of `.proto` definitions for structs, enums with data, and services.

use vstd::prelude::*;

use crate::field::{field_modifier, field_modifier_spec};
use crate::tags::{resolve_variant_tag, variant_tag_spec, variant_tags_spec, assigned_tags, field_tags, lemma_assigned_some, lemma_assigned_tags_valid, tags_assignable};
use crate::model::{FieldModel, FieldsModel, ImportGroup, MethodModel, VariantModel};
use crate::proto_type::{
    field_proto_type_spec, get_field_proto_type, resolve_field, resolved_field_spec,
};
use crate::text::{
    join, join_spec, nat_text, opt_view, pascal_spec, push_str, push_u64, snake_spec, str_eq, string_of,
    to_pascal_case, to_snake_case, views,
};
use crate::types::{
    base_type_name_spec, extract_base_type_name, proto_type_name, proto_type_name_spec,
};

verus! {

/// One field line of a message: `  [modifier]type name = tag;`.
pub open spec fn field_line_spec(
    f: FieldModel,
    name: Seq<char>,
    tag: nat,
    params: Seq<Seq<char>>,
) -> Seq<char> {
    let r = resolved_field_spec(f.ty, f.config, params);
    "  "@ + field_modifier_spec(r.0, r.1) + r.2 + " "@ + name + " = "@ + nat_text(tag) + ";"@
}

fn field_line(f: &FieldModel, name: &str, tag: u64, params: &Vec<String>) -> (r: String)
    ensures
        r@ == field_line_spec(*f, name@, tag as nat, views(params@)),
{
    let (is_option, is_repeated, proto_type) = resolve_field(&f.ty, &f.config, params);
    let mut r = string_of("  ");
    push_str(&mut r, field_modifier(is_option, is_repeated));
    push_str(&mut r, proto_type.as_str());
    push_str(&mut r, " ");
    push_str(&mut r, name);
    push_str(&mut r, " = ");
    push_u64(&mut r, tag);
    push_str(&mut r, ";");
    r
}

/// The number of fields that are not skipped.
pub open spec fn kept_count(fs: Seq<FieldModel>) -> nat
    decreases fs.len(),
{
    if fs.len() == 0 {
        0
    } else {
        kept_count(fs.drop_last()) + if fs.last().config.skip {
            0nat
        } else {
            1nat
        }
    }
}

/// The name of a field's line: its own name, or `field_<index>` for a tuple field.
pub open spec fn line_name(f: FieldModel, idx: nat, tuple: bool) -> Seq<char> {
    if tuple {
        "field_"@ + nat_text(idx)
    } else {
        f.name@
    }
}

/// The lines of fields numbered by `tags`: skipped fields are left out, and every other field is
/// written under its name (see `line_name`) with its tag as its number.
pub open spec fn field_lines_spec(
    fs: Seq<FieldModel>,
    tags: Seq<Option<u32>>,
    params: Seq<Seq<char>>,
    tuple: bool,
) -> Seq<Seq<char>>
    decreases fs.len(),
{
    if fs.len() == 0 {
        Seq::empty()
    } else {
        let prev = field_lines_spec(fs.drop_last(), tags.drop_last(), params, tuple);
        let f = fs.last();
        if f.config.skip {
            prev
        } else {
            prev.push(
                field_line_spec(f, line_name(f, (fs.len() - 1) as nat, tuple), tags.last()->Some_0 as nat, params),
            )
        }
    }
}

proof fn lemma_kept_prefix(fs: Seq<FieldModel>, k: int)
    requires
        0 <= k < fs.len(),
    ensures
        kept_count(fs.take(k)) + (if fs[k].config.skip { 0int } else { 1int }) <= kept_count(fs),
    decreases fs.len(),
{
    let p = fs.drop_last();
    if k < p.len() {
        lemma_kept_prefix(p, k);
        assert(fs.take(k) =~= p.take(k));
    } else {
        assert(fs.take(k) =~= p);
    }
}

proof fn lemma_lines_at(fs: Seq<FieldModel>, tags: Seq<Option<u32>>, params: Seq<Seq<char>>, tuple: bool)
    requires
        tags.len() == fs.len(),
    ensures
        field_lines_spec(fs, tags, params, tuple).len() == kept_count(fs),
        forall|k: int|
            0 <= k < fs.len() && !fs[k].config.skip ==> #[trigger] field_lines_spec(fs, tags, params, tuple)[kept_count(
                fs.take(k),
            ) as int] == field_line_spec(fs[k], line_name(fs[k], k as nat, tuple), tags[k]->Some_0 as nat, params),
    decreases fs.len(),
{
    if fs.len() > 0 {
        let p = fs.drop_last();
        let pt = tags.drop_last();
        lemma_lines_at(p, pt, params, tuple);
        let n = p.len() as int;
        assert forall|k: int|
            0 <= k < fs.len() && !fs[k].config.skip implies #[trigger] field_lines_spec(fs, tags, params, tuple)[kept_count(
                fs.take(k),
            ) as int] == field_line_spec(fs[k], line_name(fs[k], k as nat, tuple), tags[k]->Some_0 as nat, params) by {
            if k < n {
                assert(fs.take(k) =~= p.take(k));
                assert(p[k] == fs[k]);
                assert(pt[k] == tags[k]);
                lemma_kept_prefix(p, k);
            } else {
                assert(fs.take(k) =~= p);
            }
        }
    }
}

/// The `.proto` field numbers are the tags the encoding uses: the line of every kept field (the
/// one after the lines of the kept fields before it) carries the tag `assigned_tags` gives it,
/// and when the fields' `tag = N` options are assignable, no two lines carry the same number.
pub proof fn lemma_proto_numbers_are_wire_tags(fs: Seq<FieldModel>, params: Seq<Seq<char>>, tuple: bool)
    ensures
        field_lines_spec(fs, assigned_tags(fs), params, tuple).len() == kept_count(fs),
        forall|k: int|
            0 <= k < fs.len() && !fs[k].config.skip ==> #[trigger] field_lines_spec(
                fs,
                assigned_tags(fs),
                params,
                tuple,
            )[kept_count(fs.take(k)) as int] == field_line_spec(
                fs[k],
                line_name(fs[k], k as nat, tuple),
                assigned_tags(fs)[k]->Some_0 as nat,
                params,
            ),
        fs.len() < u32::MAX && tags_assignable(fs) ==> forall|j: int, k: int|
            0 <= j < k < fs.len() && !fs[j].config.skip && !fs[k].config.skip ==> #[trigger] assigned_tags(fs)[j]->Some_0
                != #[trigger] assigned_tags(fs)[k]->Some_0,
{
    lemma_assigned_some(fs);
    lemma_lines_at(fs, assigned_tags(fs), params, tuple);
    if fs.len() < u32::MAX && tags_assignable(fs) {
        lemma_assigned_tags_valid(fs);
        assert forall|j: int, k: int|
            0 <= j < k < fs.len() && !fs[j].config.skip && !fs[k].config.skip implies #[trigger] assigned_tags(fs)[j]->Some_0
                != #[trigger] assigned_tags(fs)[k]->Some_0 by {
            assert(assigned_tags(fs)[j] is Some && assigned_tags(fs)[k] is Some);
            assert(assigned_tags(fs)[j] != assigned_tags(fs)[k]);
        }
    }
}

/// The lines of named fields, numbered by the tags the fields are encoded with.
pub open spec fn named_lines_spec(fs: Seq<FieldModel>, params: Seq<Seq<char>>) -> Seq<Seq<char>> {
    field_lines_spec(fs, assigned_tags(fs), params, false)
}

pub open spec fn named_fields_spec(fs: Seq<FieldModel>, params: Seq<Seq<char>>) -> Seq<char> {
    join_spec(named_lines_spec(fs, params), "\n"@)
}

/// The lines of the fields, numbered by `tags` (the fields' tags).
fn numbered_lines(fields: &Vec<FieldModel>, tags: &Vec<Option<u32>>, params: &Vec<String>, tuple: bool) -> (r: Vec<String>)
    requires
        tags@ == assigned_tags(fields@),
    ensures
        views(r@) == field_lines_spec(fields@, tags@, views(params@), tuple),
{
    proof {
        lemma_assigned_some(fields@);
    }
    let mut lines: Vec<String> = Vec::new();
    let n = fields.len();
    let mut i: usize = 0;
    while i < n
        invariant
            n == fields@.len(),
            n == tags@.len(),
            i <= n,
            forall|k: int| 0 <= k < n ==> (#[trigger] tags@[k] is None) == fields@[k].config.skip,
            views(lines@) == field_lines_spec(
                fields@.subrange(0, i as int),
                tags@.subrange(0, i as int),
                views(params@),
                tuple,
            ),
        decreases n - i,
    {
        let f = &fields[i];
        let ghost q = fields@.subrange(0, i + 1);
        let ghost qt = tags@.subrange(0, i + 1);
        assert(q.drop_last() =~= fields@.subrange(0, i as int));
        assert(qt.drop_last() =~= tags@.subrange(0, i as int));
        assert(q.last() == fields@[i as int]);
        assert(qt.last() == tags@[i as int]);
        if !f.config.skip {
            let tag: u64 = match tags[i] {
                Some(t) => t as u64,
                None => 0,
            };
            let name = if tuple {
                let mut name = string_of("field_");
                push_u64(&mut name, i as u64);
                name
            } else {
                string_of(f.name.as_str())
            };
            let line = field_line(f, name.as_str(), tag, params);
            lines.push(line);
            assert(views(lines@) =~= field_lines_spec(q, qt, views(params@), tuple));
        }
        i = i + 1;
    }
    assert(fields@.subrange(0, n as int) =~= fields@);
    assert(tags@.subrange(0, n as int) =~= tags@);
    lines
}

/// The field lines of named fields, one per line.
pub fn generate_named_fields(fields: &Vec<FieldModel>, params: &Vec<String>) -> (r: String)
    ensures
        r@ == named_fields_spec(fields@, views(params@)),
{
    let tags = field_tags(fields);
    let lines = numbered_lines(fields, &tags, params, false);
    join(&lines, "\n")
}

/// The lines of tuple fields, named `field_<index>` and numbered by the tags the fields are
/// encoded with.
pub open spec fn tuple_lines_spec(fs: Seq<FieldModel>, params: Seq<Seq<char>>) -> Seq<Seq<char>> {
    field_lines_spec(fs, assigned_tags(fs), params, true)
}

fn tuple_field_lines(fields: &Vec<FieldModel>, params: &Vec<String>) -> (r: Vec<String>)
    ensures
        views(r@) == tuple_lines_spec(fields@, views(params@)),
{
    let tags = field_tags(fields);
    numbered_lines(fields, &tags, params, true)
}

/// The `message` definition of a struct: named fields, tuple fields, or none.
pub open spec fn struct_proto_spec(
    name: Seq<char>,
    fields: FieldsModel,
    params: Seq<Seq<char>>,
) -> Seq<char> {
    match fields {
        FieldsModel::Named(fs) => "message "@ + name + " {\n"@ + named_fields_spec(fs@, params)
            + "\n}\n\n"@,
        FieldsModel::Unnamed(fs) => "message "@ + name + " {\n"@ + join_spec(
            tuple_lines_spec(fs@, params),
            "\n"@,
        ) + "\n}\n\n"@,
        FieldsModel::Unit => "message "@ + name + " {}\n\n"@,
    }
}

pub fn generate_struct_proto(name: &str, fields: &FieldsModel, params: &Vec<String>) -> (r:
    String)
    ensures
        r@ == struct_proto_spec(name@, *fields, views(params@)),
{
    match fields {
        FieldsModel::Named(fs) => generate_named_struct_proto(name, fs, params),
        FieldsModel::Unnamed(fs) => generate_tuple_struct_proto(name, fs, params),
        FieldsModel::Unit => {
            let mut r = string_of("message ");
            push_str(&mut r, name);
            push_str(&mut r, " {}\n\n");
            r
        },
    }
}

/// The `message` definition of a struct with named fields.
pub fn generate_named_struct_proto(name: &str, fields: &Vec<FieldModel>, params: &Vec<String>) -> (r:
    String)
    ensures
        r@ == "message "@ + name@ + " {\n"@ + named_fields_spec(fields@, views(params@)) + "\n}\n\n"@,
{
    let mut r = string_of("message ");
    push_str(&mut r, name);
    push_str(&mut r, " {\n");
    let defs = generate_named_fields(fields, params);
    push_str(&mut r, defs.as_str());
    push_str(&mut r, "\n}\n\n");
    r
}

/// The `message` definition of a tuple struct: its fields are named `field_<index>`.
pub fn generate_tuple_struct_proto(name: &str, fields: &Vec<FieldModel>, params: &Vec<String>) -> (r:
    String)
    ensures
        r@ == "message "@ + name@ + " {\n"@ + join_spec(tuple_lines_spec(fields@, views(params@)), "\n"@)
            + "\n}\n\n"@,
{
    let mut r = string_of("message ");
    push_str(&mut r, name);
    push_str(&mut r, " {\n");
    let lines = tuple_field_lines(fields, params);
    let defs = join(&lines, "\n");
    push_str(&mut r, defs.as_str());
    push_str(&mut r, "\n}\n\n");
    r
}

/// Every tuple variant has exactly one field.
pub open spec fn tuple_variants_single(vs: Seq<VariantModel>) -> bool {
    forall|i: int|
        0 <= i < vs.len() ==> match #[trigger] vs[i].fields {
            FieldsModel::Unnamed(fs) => fs@.len() == 1,
            _ => true,
        }
}

/// Whether a variant is written as a message of its own (rather than as a oneof field of its
/// payload's type): unit variants, skipped tuple payloads and struct variants.
pub open spec fn has_own_message(v: VariantModel) -> bool {
    match v.fields {
        FieldsModel::Unnamed(fs) => fs@[0].config.skip,
        _ => true,
    }
}

/// The message a variant gets of its own, if any: empty for unit variants and skipped tuple
/// payloads, with the variant's fields for struct variants.
pub open spec fn variant_message_spec(
    enum_name: Seq<char>,
    v: VariantModel,
    params: Seq<Seq<char>>,
) -> Seq<char> {
    match v.fields {
        FieldsModel::Named(fs) => "message "@ + enum_name + v.ident@ + " {\n"@ + named_fields_spec(
            fs@,
            params,
        ) + "\n}"@,
        _ => "message "@ + enum_name + v.ident@ + " {}"@,
    }
}

/// The oneof line of a variant with the given tag: its own message's type, or its payload's
/// protobuf type, named by the variant in snake case.
pub open spec fn oneof_line_spec(
    enum_name: Seq<char>,
    v: VariantModel,
    tag: nat,
    params: Seq<Seq<char>>,
) -> Seq<char> {
    let ty = if has_own_message(v) {
        enum_name + v.ident@
    } else {
        let fs = v.fields->Unnamed_0;
        field_proto_type_spec(fs@[0].ty, fs@[0].config, params)
    };
    "    "@ + ty + " "@ + snake_spec(v.ident@) + " = "@ + nat_text(tag) + ";"@
}

pub open spec fn variant_messages_spec(
    enum_name: Seq<char>,
    vs: Seq<VariantModel>,
    params: Seq<Seq<char>>,
) -> Seq<Seq<char>>
    decreases vs.len(),
{
    if vs.len() == 0 {
        Seq::empty()
    } else {
        let prev = variant_messages_spec(enum_name, vs.drop_last(), params);
        if has_own_message(vs.last()) {
            prev.push(variant_message_spec(enum_name, vs.last(), params))
        } else {
            prev
        }
    }
}

/// The number of the variant at 1-based position `pos` in the oneof: the tag it is encoded with,
/// that is its `tag = N` option or else `pos`; a variant whose `tag` option is refused (the enum
/// is then refused by the code generation) keeps `pos`.
pub open spec fn oneof_tag(v: VariantModel, pos: nat) -> nat {
    match variant_tag_spec(v.tag_attrs@, pos as usize) {
        Ok(t) => t as nat,
        Err(_) => pos,
    }
}

/// The oneof lines: each variant numbered by `oneof_tag`.
pub open spec fn oneof_lines_spec(
    enum_name: Seq<char>,
    vs: Seq<VariantModel>,
    params: Seq<Seq<char>>,
) -> Seq<Seq<char>>
    decreases vs.len(),
{
    if vs.len() == 0 {
        Seq::empty()
    } else {
        oneof_lines_spec(enum_name, vs.drop_last(), params).push(
            oneof_line_spec(enum_name, vs.last(), oneof_tag(vs.last(), vs.len() as nat), params),
        )
    }
}

/// The oneof numbers of the `.proto` are the tags the variants are encoded with: when the
/// variants' tags are accepted (`variant_tags_spec`), the line of variant `i` is numbered by the
/// tag that variant is given.
pub proof fn lemma_oneof_numbers_are_wire_tags(name: Seq<char>, vs: Seq<VariantModel>, params: Seq<Seq<char>>)
    requires
        vs.len() <= usize::MAX,
    ensures
        oneof_lines_spec(name, vs, params).len() == vs.len(),
        forall|i: int|
            0 <= i < vs.len() ==> #[trigger] oneof_lines_spec(name, vs, params)[i] == oneof_line_spec(
                name,
                vs[i],
                oneof_tag(vs[i], (i + 1) as nat),
                params,
            ),
        variant_tags_spec(vs) matches Ok(t) ==> t.len() == vs.len() && forall|i: int|
            0 <= i < vs.len() ==> oneof_tag(vs[i], (i + 1) as nat) == (#[trigger] t[i]).0 as nat,
    decreases vs.len(),
{
    if vs.len() > 0 {
        let p = vs.drop_last();
        lemma_oneof_numbers_are_wire_tags(name, p, params);
        assert forall|i: int| 0 <= i < p.len() implies #[trigger] vs[i] == p[i] by {}
        if let Ok(t) = variant_tags_spec(vs) {
            let prev = variant_tags_spec(p)->Ok_0;
            assert forall|i: int| 0 <= i < vs.len() implies oneof_tag(vs[i], (i + 1) as nat) == (#[trigger] t[i]).0 as nat by {
                if i < p.len() {
                    assert(t[i] == prev[i]);
                }
            }
        }
    }
}

/// An enum with data: the variants' own messages, then a message with a `oneof value`.
pub open spec fn complex_enum_proto_spec(
    name: Seq<char>,
    vs: Seq<VariantModel>,
    params: Seq<Seq<char>>,
) -> Seq<char> {
    join_spec(variant_messages_spec(name, vs, params), "\n\n"@) + "\nmessage "@ + name
        + " {\n  oneof value {\n"@ + join_spec(oneof_lines_spec(name, vs, params), "\n"@)
        + "\n  }\n}\n\n"@
}

pub fn generate_complex_enum_proto(
    name: &str,
    variants: &Vec<VariantModel>,
    params: &Vec<String>,
) -> (r: String)
    requires
        tuple_variants_single(variants@),
    ensures
        r@ == complex_enum_proto_spec(name@, variants@, views(params@)),
{
    let mut nested: Vec<String> = Vec::new();
    let mut oneof: Vec<String> = Vec::new();
    let n = variants.len();
    let mut i: usize = 0;
    while i < n
        invariant
            n == variants@.len(),
            i <= n,
            tuple_variants_single(variants@),
            views(nested@) == variant_messages_spec(
                name@,
                variants@.subrange(0, i as int),
                views(params@),
            ),
            views(oneof@) == oneof_lines_spec(
                name@,
                variants@.subrange(0, i as int),
                views(params@),
            ),
        decreases n - i,
    {
        let v = &variants[i];
        let ghost q = variants@.subrange(0, i + 1);
        assert(q.drop_last() =~= variants@.subrange(0, i as int));
        assert(q.last() == variants@[i as int]);
        let snake = to_snake_case(v.ident.as_str());
        let mut msg_name = string_of(name);
        push_str(&mut msg_name, v.ident.as_str());
        let own = match &v.fields {
            FieldsModel::Unnamed(fs) => {
                assert(fs@.len() == 1);
                fs[0].config.skip
            },
            _ => true,
        };
        assert(has_own_message(variants@[i as int]) == own);
        assert(msg_name@ =~= name@ + v.ident@);
        let mut line = string_of("    ");
        if own {
            let mut msg = string_of("message ");
            push_str(&mut msg, msg_name.as_str());
            match &v.fields {
                FieldsModel::Named(fs) => {
                    push_str(&mut msg, " {\n");
                    let defs = generate_named_fields(fs, params);
                    push_str(&mut msg, defs.as_str());
                    push_str(&mut msg, "\n}");
                },
                _ => {
                    push_str(&mut msg, " {}");
                },
            }
            assert(msg@ =~= variant_message_spec(name@, variants@[i as int], views(params@)));
            nested.push(msg);
            push_str(&mut line, msg_name.as_str());
        } else {
            match &v.fields {
                FieldsModel::Unnamed(fs) => {
                    let ty = get_field_proto_type(&fs[0].ty, &fs[0].config, params);
                    push_str(&mut line, ty.as_str());
                },
                _ => {},
            }
        }
        push_str(&mut line, " ");
        push_str(&mut line, snake.as_str());
        push_str(&mut line, " = ");
        let tag: u64 = match resolve_variant_tag(v, i + 1) {
            Ok(t) => t as u64,
            Err(_) => i as u64 + 1,
        };
        push_u64(&mut line, tag);
        push_str(&mut line, ";");
        assert(line@ =~= oneof_line_spec(name@, variants@[i as int], oneof_tag(variants@[i as int], (i + 1) as nat), views(params@)));
        oneof.push(line);
        assert(views(nested@) =~= variant_messages_spec(name@, q, views(params@)));
        assert(views(oneof@) =~= oneof_lines_spec(name@, q, views(params@)));
        i = i + 1;
    }
    assert(variants@.subrange(0, n as int) =~= variants@);
    let mut r = join(&nested, "\n\n");
    push_str(&mut r, "\nmessage ");
    push_str(&mut r, name);
    push_str(&mut r, " {\n  oneof value {\n");
    let lines = join(&oneof, "\n");
    push_str(&mut r, lines.as_str());
    push_str(&mut r, "\n  }\n}\n\n");
    r
}

/// The types of a group, as strings.
pub open spec fn group_types(g: ImportGroup) -> Seq<Seq<char>> {
    views(g.types@)
}

/// Whether a group imports a type name or (when given) its base name.
pub open spec fn group_matches(g: ImportGroup, tname: Seq<char>, base: Option<Seq<char>>) -> bool {
    group_types(g).contains(tname) || match base {
        Some(b) => group_types(g).contains(b),
        None => false,
    }
}

/// The index of the first group, from `i` on, that imports the type.
pub open spec fn find_group_from(
    groups: Seq<ImportGroup>,
    tname: Seq<char>,
    base: Option<Seq<char>>,
    i: int,
) -> Option<int>
    decreases groups.len() - i,
{
    if i < 0 || i >= groups.len() {
        None
    } else if group_matches(groups[i], tname, base) {
        Some(i)
    } else {
        find_group_from(groups, tname, base, i + 1)
    }
}

/// The index of the first group that imports the type, if any.
pub open spec fn first_match(
    groups: Seq<ImportGroup>,
    tname: Seq<char>,
    base: Option<Seq<char>>,
) -> Option<int> {
    find_group_from(groups, tname, base, 0)
}

/// The name a service uses for a message type: qualified by the first import group that lists
/// it (by name, or by name without a `Proto` suffix), else by the package everything is
/// imported from, else bare.
pub open spec fn qualify_spec(
    ty: crate::types::RustType,
    groups: Seq<ImportGroup>,
    import_all_from: Option<Seq<char>>,
) -> Seq<char> {
    let tname = proto_type_name_spec(ty);
    match first_match(groups, tname, base_type_name_spec(ty)) {
        Some(i) => groups[i].package@ + "."@ + tname,
        None => match import_all_from {
            Some(p) => p + "."@ + tname,
            None => tname,
        },
    }
}

fn group_contains(g: &ImportGroup, name: &str) -> (r: bool)
    ensures
        r == group_types(*g).contains(name@),
{
    let mut i: usize = 0;
    while i < g.types.len()
        invariant
            i <= g.types@.len(),
            forall|j: int| 0 <= j < i ==> g.types@[j]@ != name@,
        decreases g.types.len() - i,
    {
        if str_eq(g.types[i].as_str(), name) {
            assert(group_types(*g)[i as int] == name@);
            return true;
        }
        i = i + 1;
    }
    proof {
        if group_types(*g).contains(name@) {
            let k = choose|k: int|
                0 <= k < group_types(*g).len() && group_types(*g)[k] == name@;
            assert(g.types@[k]@ == name@);
        }
    }
    false
}

pub fn qualify_type_name(
    ty: &crate::types::RustType,
    groups: &Vec<ImportGroup>,
    import_all_from: Option<&str>,
) -> (r: String)
    ensures
        r@ == qualify_spec(*ty, groups@, opt_view(import_all_from)),
{
    let tname = proto_type_name(ty);
    let base = extract_base_type_name(ty);
    let ghost gbase = base_type_name_spec(*ty);
    let mut i: usize = 0;
    while i < groups.len()
        invariant
            i <= groups@.len(),
            tname@ == proto_type_name_spec(*ty),
            gbase == base_type_name_spec(*ty),
            match base {
                Some(b) => gbase == Some(b@),
                None => gbase is None,
            },
            first_match(groups@, tname@, gbase) == find_group_from(
                groups@,
                tname@,
                gbase,
                i as int,
            ),
        decreases groups.len() - i,
    {
        let g = &groups[i];
        let hit = group_contains(g, tname.as_str()) || match &base {
            Some(b) => group_contains(g, b.as_str()),
            None => false,
        };
        assert(hit == group_matches(groups@[i as int], tname@, gbase));
        if hit {
            let mut r = g.package.clone();
            push_str(&mut r, ".");
            push_str(&mut r, tname.as_str());
            assert(find_group_from(groups@, tname@, gbase, i as int) == Some(i as int));
            return r;
        }
        i = i + 1;
    }
    match import_all_from {
        Some(p) => {
            let mut r = string_of(p);
            push_str(&mut r, ".");
            push_str(&mut r, tname.as_str());
            r
        },
        None => tname,
    }
}

/// Streaming methods name the type of their streamed messages.
pub open spec fn streams_named(methods: Seq<MethodModel>) -> bool {
    forall|i: int|
        0 <= i < methods.len() && #[trigger] methods[i].is_streaming
            ==> methods[i].inner_response_type is Some
}

/// Whether every streaming method names its stream's item type (see `streams_named`).
pub fn streams_named_check(methods: &Vec<MethodModel>) -> (r: bool)
    ensures
        r == streams_named(methods@),
{
    let mut i: usize = 0;
    while i < methods.len()
        invariant
            i <= methods@.len(),
            forall|j: int|
                0 <= j < i && #[trigger] methods@[j].is_streaming ==> methods@[j].inner_response_type is Some,
        decreases methods.len() - i,
    {
        if methods[i].is_streaming && methods[i].inner_response_type.is_none() {
            assert(methods@[i as int].is_streaming);
            return false;
        }
        i = i + 1;
    }
    true
}

/// One `rpc` line of a service.
pub open spec fn rpc_line_spec(
    m: MethodModel,
    groups: Seq<ImportGroup>,
    import_all_from: Option<Seq<char>>,
) -> Seq<char> {
    let req = qualify_spec(m.request_type, groups, import_all_from);
    let resp = if m.is_streaming {
        "stream "@ + qualify_spec(m.inner_response_type->0, groups, import_all_from)
    } else {
        qualify_spec(m.response_type, groups, import_all_from)
    };
    "  rpc "@ + pascal_spec(m.name@) + "("@ + req + ") returns ("@ + resp + ") {}"@
}

pub open spec fn rpc_lines_spec(
    methods: Seq<MethodModel>,
    groups: Seq<ImportGroup>,
    import_all_from: Option<Seq<char>>,
) -> Seq<Seq<char>>
    decreases methods.len(),
{
    if methods.len() == 0 {
        Seq::empty()
    } else {
        rpc_lines_spec(methods.drop_last(), groups, import_all_from).push(
            rpc_line_spec(methods.last(), groups, import_all_from),
        )
    }
}

/// A `service` definition: a line per method between the header and the closing brace.
pub open spec fn service_spec(
    trait_name: Seq<char>,
    methods: Seq<MethodModel>,
    groups: Seq<ImportGroup>,
    import_all_from: Option<Seq<char>>,
) -> Seq<char> {
    join_spec(
        seq!["service "@ + trait_name + " {"@] + rpc_lines_spec(methods, groups, import_all_from)
            + seq!["}"@],
        "\n"@,
    )
}

/// A streaming method's `rpc` line returns a stream of its item type: the line ends with
/// `returns (stream T) {}`, `T` being the stream item type as the service writes types; a method
/// that does not stream returns its response type, with no `stream`.
pub proof fn lemma_streaming_rpc_returns_stream(
    m: MethodModel,
    groups: Seq<ImportGroup>,
    import_all_from: Option<Seq<char>>,
)
    ensures
        m.is_streaming ==> exists|head: Seq<char>|
            rpc_line_spec(m, groups, import_all_from) == head + "returns (stream "@ + qualify_spec(
                m.inner_response_type->0,
                groups,
                import_all_from,
            ) + ") {}"@,
        !m.is_streaming ==> exists|head: Seq<char>|
            rpc_line_spec(m, groups, import_all_from) == head + "returns ("@ + qualify_spec(
                m.response_type,
                groups,
                import_all_from,
            ) + ") {}"@,
{
    reveal_strlit(") returns (");
    reveal_strlit(") ");
    reveal_strlit("returns (stream ");
    reveal_strlit("returns (");
    reveal_strlit("stream ");
    let req = qualify_spec(m.request_type, groups, import_all_from);
    let head = "  rpc "@ + pascal_spec(m.name@) + "("@ + req + ") "@;
    assert(") returns ("@ =~= ") "@ + "returns ("@);
    assert("returns ("@ + "stream "@ =~= "returns (stream "@);
    if m.is_streaming {
        let q = qualify_spec(m.inner_response_type->0, groups, import_all_from);
        assert(rpc_line_spec(m, groups, import_all_from) =~= head + "returns (stream "@ + q + ") {}"@);
    } else {
        let q = qualify_spec(m.response_type, groups, import_all_from);
        assert(rpc_line_spec(m, groups, import_all_from) =~= head + "returns ("@ + q + ") {}"@);
    }
}

/// The `rpc` lines of a service are those of its methods, in order (see
/// `lemma_streaming_rpc_returns_stream`).
pub proof fn lemma_rpc_lines_in_order(
    methods: Seq<MethodModel>,
    groups: Seq<ImportGroup>,
    import_all_from: Option<Seq<char>>,
)
    ensures
        rpc_lines_spec(methods, groups, import_all_from).len() == methods.len(),
        forall|i: int|
            0 <= i < methods.len() ==> #[trigger] rpc_lines_spec(methods, groups, import_all_from)[i]
                == rpc_line_spec(methods[i], groups, import_all_from),
    decreases methods.len(),
{
    if methods.len() > 0 {
        lemma_rpc_lines_in_order(methods.drop_last(), groups, import_all_from);
    }
}

pub fn generate_service_content(
    trait_name: &str,
    methods: &Vec<MethodModel>,
    groups: &Vec<ImportGroup>,
    import_all_from: Option<&str>,
) -> (r: String)
    requires
        streams_named(methods@),
    ensures
        r@ == service_spec(trait_name@, methods@, groups@, opt_view(import_all_from)),
{
    let ghost all = opt_view(import_all_from);
    let mut lines: Vec<String> = Vec::new();
    let mut head = string_of("service ");
    push_str(&mut head, trait_name);
    push_str(&mut head, " {");
    lines.push(head);
    let n = methods.len();
    let mut i: usize = 0;
    while i < n
        invariant
            n == methods@.len(),
            i <= n,
            streams_named(methods@),
            all == opt_view(import_all_from),
            views(lines@) == seq!["service "@ + trait_name@ + " {"@] + rpc_lines_spec(
                methods@.subrange(0, i as int),
                groups@,
                all,
            ),
        decreases n - i,
    {
        let m = &methods[i];
        let ghost q = methods@.subrange(0, i + 1);
        assert(q.drop_last() =~= methods@.subrange(0, i as int));
        assert(q.last() == methods@[i as int]);
        assert(methods@[i as int].is_streaming ==> methods@[i as int].inner_response_type is Some);
        let method_name = to_pascal_case(m.name.as_str());
        let request_type = qualify_type_name(&m.request_type, groups, import_all_from);
        let mut line = string_of("  rpc ");
        push_str(&mut line, method_name.as_str());
        push_str(&mut line, "(");
        push_str(&mut line, request_type.as_str());
        push_str(&mut line, ") returns (");
        if m.is_streaming {
            let inner = match &m.inner_response_type {
                Some(t) => t,
                None => &m.response_type,
            };
            let response_type = qualify_type_name(inner, groups, import_all_from);
            push_str(&mut line, "stream ");
            push_str(&mut line, response_type.as_str());
        } else {
            let response_type = qualify_type_name(&m.response_type, groups, import_all_from);
            push_str(&mut line, response_type.as_str());
        }
        push_str(&mut line, ") {}");
        assert(line@ =~= rpc_line_spec(methods@[i as int], groups@, all));
        assert(rpc_lines_spec(q, groups@, all) == rpc_lines_spec(q.drop_last(), groups@, all).push(
            rpc_line_spec(q.last(), groups@, all),
        ));
        let ghost before = views(lines@);
        lines.push(line);
        assert(views(lines@) =~= before.push(line@));
        assert(views(lines@) =~= seq!["service "@ + trait_name@ + " {"@] + rpc_lines_spec(
            q,
            groups@,
            all,
        ));
        i = i + 1;
    }
    lines.push(string_of("}"));
    assert(methods@.subrange(0, n as int) =~= methods@);
    assert(views(lines@) =~= seq!["service "@ + trait_name@ + " {"@] + rpc_lines_spec(
        methods@,
        groups@,
        all,
    ) + seq!["}"@]);
    join(&lines, "\n")
}

} // verus!
