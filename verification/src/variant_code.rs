//! The Rust code of the match arms that default, test, encode and decode each variant of an enum
//! encoded as a `oneof`, in the spacing of a rendered token stream.

use vstd::prelude::*;

use crate::field::{is_numeric_enum, needs_decode_conversion, needs_decode_conversion_spec, needs_encode_conversion, needs_encode_conversion_spec};
use crate::field_code::{
    FieldInfo, decode_assign_spec, decode_assign_valid, decode_conversion_assign, encode_conversion_expr,
    encode_conversion_spec, encode_conversion_valid, field_default_spec, field_proto_default_expr, opt_path_ok,
    path_ok,
};
use crate::text::{join, join_spec, nat_text, push_str, push_u64, string_of, views};

verus! {

/// The shape of a variant, with what the code generation knows of its fields.
pub enum VariantKind {
    Unit,
    /// A tuple variant with its single field, bound under `binding_ident` in match patterns.
    Tuple { field: FieldInfo, binding_ident: String },
    Struct { fields: Vec<FieldInfo> },
}

/// A variant of a `oneof` enum.
pub struct VariantInfo {
    pub ident: String,
    /// The variant's tag in the `oneof`.
    pub tag: u32,
    pub kind: VariantKind,
    /// The variant is the enum's default.
    pub is_default: bool,
}

/// Every field has a name.
pub open spec fn named_fields(fs: Seq<FieldInfo>) -> bool {
    forall|i: int| 0 <= i < fs.len() ==> (#[trigger] fs[i]).ident is Some
}

/// The fields of a struct variant have names.
pub open spec fn variant_named(v: VariantInfo) -> bool {
    v.kind matches VariantKind::Struct { fields } ==> named_fields(fields@)
}

/// The name of a field (empty for a tuple field).
pub open spec fn name_of(f: FieldInfo) -> Seq<char> {
    match f.ident {
        Some(n) => n@,
        None => Seq::empty(),
    }
}

fn field_name(f: &FieldInfo) -> (r: String)
    ensures
        r@ == name_of(*f),
{
    match &f.ident {
        Some(n) => string_of(n.as_str()),
        None => String::new(),
    }
}

/// The path of the variant under the enum: `Enum :: Variant`.
pub open spec fn variant_path(e: Seq<char>, v: VariantInfo) -> Seq<char> {
    e + " :: "@ + v.ident@
}

fn variant_path_exec(e: &str, v: &VariantInfo) -> (r: String)
    ensures
        r@ == variant_path(e@, *v),
{
    let mut r = string_of(e);
    push_str(&mut r, " :: ");
    push_str(&mut r, v.ident.as_str());
    r
}

/// The encoding of a variant without payload: an empty length-delimited field under its tag.
pub open spec fn empty_variant_encode_spec(tag: u32) -> Seq<char> {
    "w . put_varint (0) ; :: proto_rs :: ArchivedProtoField :: < "@ + nat_text(tag as nat)
        + "u32 , () > :: put_key (w) ;"@
}

pub fn build_empty_variant_encode_body(tag: u32) -> (r: String)
    ensures
        r@ == empty_variant_encode_spec(tag),
{
    let mut r = string_of("w . put_varint (0) ; :: proto_rs :: ArchivedProtoField :: < ");
    push_u64(&mut r, tag as u64);
    push_str(&mut r, "u32 , () > :: put_key (w) ;");
    r
}

/// The pattern that binds a struct variant's field: its name, or `name : _` when it is skipped.
pub open spec fn field_binding_spec(f: FieldInfo) -> Seq<char> {
    if f.config.skip {
        name_of(f) + " : _"@
    } else {
        name_of(f)
    }
}

pub open spec fn bindings_spec(fs: Seq<FieldInfo>) -> Seq<Seq<char>> {
    Seq::new(fs.len(), |i: int| field_binding_spec(fs[i]))
}

pub fn build_struct_field_bindings(fields: &Vec<FieldInfo>) -> (r: Vec<String>)
    ensures
        views(r@) == bindings_spec(fields@),
{
    let mut r: Vec<String> = Vec::new();
    let n = fields.len();
    let mut i: usize = 0;
    while i < n
        invariant
            n == fields@.len(),
            i <= n,
            r@.len() == i,
            forall|j: int| 0 <= j < i ==> #[trigger] r@[j]@ == field_binding_spec(fields@[j]),
        decreases n - i,
    {
        let mut b = field_name(&fields[i]);
        if fields[i].config.skip {
            push_str(&mut b, " : _");
        }
        r.push(b);
        i = i + 1;
    }
    assert(views(r@) =~= bindings_spec(fields@));
    r
}

/// Each named field with its default, for a struct literal.
pub open spec fn default_inits_spec(fs: Seq<FieldInfo>) -> Seq<Seq<char>> {
    Seq::new(fs.len(), |i: int| name_of(fs[i]) + " : "@ + field_default_spec(fs[i]))
}

/// The variant with every field at its default.
pub open spec fn variant_default_spec(v: VariantInfo, e: Seq<char>) -> Seq<char> {
    let p = variant_path(e, v);
    match v.kind {
        VariantKind::Unit => p,
        VariantKind::Tuple { field, .. } => p + " ("@ + field_default_spec(field) + ")"@,
        VariantKind::Struct { fields } => if fields@.len() == 0 {
            p
        } else {
            p + " { "@ + join_spec(default_inits_spec(fields@), " , "@) + " }"@
        },
    }
}

pub fn build_variant_default_expr(variant: &VariantInfo, enum_ident: &str) -> (r: String)
    ensures
        r@ == variant_default_spec(*variant, enum_ident@),
{
    let mut r = variant_path_exec(enum_ident, variant);
    match &variant.kind {
        VariantKind::Unit => {},
        VariantKind::Tuple { field, .. } => {
            push_str(&mut r, " (");
            push_str(&mut r, field_proto_default_expr(field).as_str());
            push_str(&mut r, ")");
        },
        VariantKind::Struct { fields } => {
            if fields.len() > 0 {
                let mut inits: Vec<String> = Vec::new();
                let n = fields.len();
                let mut i: usize = 0;
                while i < n
                    invariant
                        n == fields@.len(),
                        i <= n,
                        inits@.len() == i,
                        forall|j: int| 0 <= j < i ==> #[trigger] inits@[j]@ == default_inits_spec(fields@)[j],
                    decreases n - i,
                {
                    let mut p = field_name(&fields[i]);
                    push_str(&mut p, " : ");
                    push_str(&mut p, field_proto_default_expr(&fields[i]).as_str());
                    inits.push(p);
                    i = i + 1;
                }
                assert(views(inits@) =~= default_inits_spec(fields@));
                push_str(&mut r, " { ");
                push_str(&mut r, join(&inits, " , ").as_str());
                push_str(&mut r, " }");
            }
        },
    }
    r
}

/// The type a field's encoding shadow has when it is not converted.
pub open spec fn shadow_of_spec(ty: Seq<char>) -> Seq<char> {
    "< "@ + ty + " as :: proto_rs :: ProtoEncode > :: Shadow < '_ >"@
}

/// The test that the field reached by the reference `r` holds its default, on its converted value
/// or on its shadow.
pub open spec fn default_check_spec(f: FieldInfo, r: Seq<char>) -> Seq<char> {
    if needs_encode_conversion_spec(f.config, f.parsed) {
        ":: proto_rs :: ProtoArchive :: is_default (& "@ + encode_conversion_spec(f, r) + ")"@
    } else {
        "{ let shadow = < "@ + shadow_of_spec(f.field_ty.code@)
            + " as :: proto_rs :: ProtoShadowEncode < '_ , "@ + f.field_ty.code@
            + " > > :: from_sun ("@ + r + ") ; :: proto_rs :: ProtoArchive :: is_default (& shadow) }"@
    }
}

fn default_check(f: &FieldInfo, r: &str) -> (s: String)
    requires
        encode_conversion_valid(*f),
    ensures
        s@ == default_check_spec(*f, r@),
{
    if needs_encode_conversion(&f.config, &f.parsed) {
        let mut s = string_of(":: proto_rs :: ProtoArchive :: is_default (& ");
        push_str(&mut s, encode_conversion_expr(f, r).as_str());
        push_str(&mut s, ")");
        s
    } else {
        let ty = f.field_ty.code.as_str();
        let mut s = string_of("{ let shadow = < ");
        push_str(&mut s, "< ");
        push_str(&mut s, ty);
        push_str(&mut s, " as :: proto_rs :: ProtoEncode > :: Shadow < '_ >");
        push_str(&mut s, " as :: proto_rs :: ProtoShadowEncode < '_ , ");
        push_str(&mut s, ty);
        push_str(&mut s, " > > :: from_sun (");
        push_str(&mut s, r);
        push_str(&mut s, ") ; :: proto_rs :: ProtoArchive :: is_default (& shadow) }");
        assert(s@ =~= default_check_spec(*f, r@));
        s
    }
}

/// The reference to a bound field: `& name`.
pub open spec fn ref_of(name: Seq<char>) -> Seq<char> {
    "& "@ + name
}

/// ` && check` for each kept field, in order.
pub open spec fn default_checks_spec(fs: Seq<FieldInfo>) -> Seq<char>
    decreases fs.len(),
{
    if fs.len() == 0 {
        Seq::empty()
    } else {
        default_checks_spec(fs.drop_last()) + if fs.last().config.skip {
            Seq::<char>::empty()
        } else {
            " && "@ + default_check_spec(fs.last(), ref_of(name_of(fs.last())))
        }
    }
}

/// Every kept field's encoding conversion reads as code.
pub open spec fn kept_conversions_valid(v: VariantInfo) -> bool {
    match v.kind {
        VariantKind::Unit => true,
        VariantKind::Tuple { field, .. } => !field.config.skip ==> encode_conversion_valid(field),
        VariantKind::Struct { fields } => forall|i: int|
            0 <= i < fields@.len() && !(#[trigger] fields@[i]).config.skip ==> encode_conversion_valid(
                fields@[i],
            ),
    }
}

/// The arm of `is_default` for the variant: only the default variant can hold the default, and it
/// does when each of its kept fields does.
pub open spec fn is_default_arm_spec(v: VariantInfo, e: Seq<char>) -> Seq<char> {
    let p = variant_path(e, v);
    match v.kind {
        VariantKind::Unit => p + if v.is_default {
            " => true"@
        } else {
            " => false"@
        },
        VariantKind::Tuple { field, binding_ident } => if !v.is_default {
            p + " (..) => false"@
        } else if field.config.skip {
            p + " (..) => true"@
        } else {
            p + " ("@ + binding_ident@ + ") => { "@ + default_check_spec(field, ref_of(binding_ident@))
                + " }"@
        },
        VariantKind::Struct { fields } => if !v.is_default {
            p + " { .. } => false"@
        } else if fields@.len() == 0 {
            p + " { .. } => true"@
        } else {
            p + " { "@ + join_spec(bindings_spec(fields@), " , "@) + " } => { true"@
                + default_checks_spec(fields@) + " }"@
        },
    }
}

pub fn build_variant_is_default_arm(variant: &VariantInfo, enum_ident: &str) -> (r: String)
    requires
        variant.is_default ==> kept_conversions_valid(*variant),
    ensures
        r@ == is_default_arm_spec(*variant, enum_ident@),
{
    let mut r = variant_path_exec(enum_ident, variant);
    match &variant.kind {
        VariantKind::Unit => {
            push_str(&mut r, if variant.is_default { " => true" } else { " => false" });
        },
        VariantKind::Tuple { field, binding_ident } => {
            if !variant.is_default {
                push_str(&mut r, " (..) => false");
            } else if field.config.skip {
                push_str(&mut r, " (..) => true");
            } else {
                let mut reference = string_of("& ");
                push_str(&mut reference, binding_ident.as_str());
                push_str(&mut r, " (");
                push_str(&mut r, binding_ident.as_str());
                push_str(&mut r, ") => { ");
                push_str(&mut r, default_check(field, reference.as_str()).as_str());
                push_str(&mut r, " }");
            }
        },
        VariantKind::Struct { fields } => {
            if !variant.is_default {
                push_str(&mut r, " { .. } => false");
            } else if fields.len() == 0 {
                push_str(&mut r, " { .. } => true");
            } else {
                let bindings = build_struct_field_bindings(fields);
                let mut checks = String::new();
                let n = fields.len();
                let mut i: usize = 0;
                while i < n
                    invariant
                        n == fields@.len(),
                        i <= n,
                        kept_conversions_valid(*variant),
                        variant.kind == (VariantKind::Struct { fields: *fields }),
                        checks@ == default_checks_spec(fields@.subrange(0, i as int)),
                    decreases n - i,
                {
                    let f = &fields[i];
                    if !f.config.skip {
                        let mut reference = string_of("& ");
                        push_str(&mut reference, field_name(f).as_str());
                        push_str(&mut checks, " && ");
                        push_str(&mut checks, default_check(f, reference.as_str()).as_str());
                    }
                    proof {
                        let q = fields@.subrange(0, i + 1);
                        assert(q.drop_last() =~= fields@.subrange(0, i as int));
                        assert(q.last() == fields@[i as int]);
                        assert(checks@ =~= default_checks_spec(q));
                    }
                    i = i + 1;
                }
                assert(fields@.subrange(0, n as int) =~= fields@);
                push_str(&mut r, " { ");
                push_str(&mut r, join(&bindings, " , ").as_str());
                push_str(&mut r, " } => { true");
                push_str(&mut r, checks.as_str());
                push_str(&mut r, " }");
            }
        },
    }
    r
}

/// Lower-cased text, as `str::to_lowercase` gives it.
pub uninterp spec fn lowercase_of(s: Seq<char>) -> Seq<char>;

/// Lower-cases a string with `str::to_lowercase`; the contract only names the result, which
/// depends on the text alone.
#[verifier::external_body]
fn lowercase(s: &str) -> (r: String)
    ensures
        r@ == lowercase_of(s@),
{
    s.to_lowercase()
}

/// The binding a tuple variant's field is matched under.
pub open spec fn tuple_binding_spec(variant_ident: Seq<char>) -> Seq<char> {
    "__proto_rs_variant_"@ + lowercase_of(variant_ident) + "_value"@
}

pub fn tuple_binding_ident(variant_ident: &str) -> (r: String)
    ensures
        r@ == tuple_binding_spec(variant_ident@),
{
    let mut r = string_of("__proto_rs_variant_");
    push_str(&mut r, lowercase(variant_ident).as_str());
    push_str(&mut r, "_value");
    r
}

/// The type a kept field is archived as: its encoded type when it is converted, else its shadow.
pub open spec fn shadow_ty_spec(f: FieldInfo) -> Seq<char> {
    if needs_encode_conversion_spec(f.config, f.parsed) {
        f.proto_ty.code@
    } else {
        shadow_of_spec(f.field_ty.code@)
    }
}

fn shadow_ty(f: &FieldInfo) -> (r: String)
    ensures
        r@ == shadow_ty_spec(*f),
{
    if needs_encode_conversion(&f.config, &f.parsed) {
        string_of(f.proto_ty.code.as_str())
    } else {
        let mut r = string_of("< ");
        push_str(&mut r, f.field_ty.code.as_str());
        push_str(&mut r, " as :: proto_rs :: ProtoEncode > :: Shadow < '_ >");
        r
    }
}

/// The value a kept field, reached by the reference `r`, is archived from.
pub open spec fn shadow_expr_spec(f: FieldInfo, r: Seq<char>) -> Seq<char> {
    if needs_encode_conversion_spec(f.config, f.parsed) {
        encode_conversion_spec(f, r)
    } else {
        "< "@ + shadow_ty_spec(f) + " as :: proto_rs :: ProtoShadowEncode < '_ , "@ + f.field_ty.code@
            + " > > :: from_sun ("@ + r + ")"@
    }
}

fn shadow_expr(f: &FieldInfo, r: &str) -> (s: String)
    requires
        encode_conversion_valid(*f),
    ensures
        s@ == shadow_expr_spec(*f, r@),
{
    if needs_encode_conversion(&f.config, &f.parsed) {
        encode_conversion_expr(f, r)
    } else {
        let mut s = string_of("< ");
        push_str(&mut s, shadow_ty(f).as_str());
        push_str(&mut s, " as :: proto_rs :: ProtoShadowEncode < '_ , ");
        push_str(&mut s, f.field_ty.code.as_str());
        push_str(&mut s, " > > :: from_sun (");
        push_str(&mut s, r);
        push_str(&mut s, ")");
        s
    }
}

/// The local that holds a struct variant field's shadow while it is archived.
pub open spec fn shadow_ident_spec(lower: Seq<char>, index: usize) -> Seq<char> {
    "__proto_rs_variant_"@ + lower + "_shadow_"@ + nat_text(index as nat)
}

/// The statements that archive one kept field of a struct variant under its own tag.
pub open spec fn field_encode_spec(f: FieldInfo, lower: Seq<char>) -> Seq<char> {
    let sid = shadow_ident_spec(lower, f.index);
    "let "@ + sid + " = "@ + shadow_expr_spec(f, ref_of(name_of(f)))
        + " ; :: proto_rs :: ArchivedProtoField :: < "@ + nat_text(f.tag->Some_0 as nat) + "u32 , "@
        + shadow_ty_spec(f) + " > :: archive (& "@ + sid + " , w) ; "@
}

/// The archiving statements of the kept fields, last field first: the writer fills the buffer
/// from its end.
pub open spec fn field_encodes_rev_spec(fs: Seq<FieldInfo>, lower: Seq<char>) -> Seq<char>
    decreases fs.len(),
{
    if fs.len() == 0 {
        Seq::empty()
    } else {
        field_encodes_rev_spec(fs.drop_first(), lower) + if fs[0].config.skip {
            Seq::<char>::empty()
        } else {
            field_encode_spec(fs[0], lower)
        }
    }
}

/// Every kept field of a struct variant has a tag.
pub open spec fn kept_fields_tagged(v: VariantInfo) -> bool {
    v.kind matches VariantKind::Struct { fields } ==> forall|i: int|
        0 <= i < fields@.len() && !(#[trigger] fields@[i]).config.skip ==> fields@[i].tag is Some
}

/// The arm that archives the variant: a unit variant as an empty payload, a tuple variant's field
/// under the variant's tag even when it holds its default, a struct variant as a nested message.
pub open spec fn encode_arm_spec(v: VariantInfo, e: Seq<char>) -> Seq<char> {
    let p = variant_path(e, v);
    match v.kind {
        VariantKind::Unit => p + " => { "@ + empty_variant_encode_spec(v.tag) + " }"@,
        VariantKind::Tuple { field, binding_ident } => if field.config.skip {
            p + " (..) => { }"@
        } else {
            p + " ("@ + binding_ident@ + ") => { let __proto_rs_shadow = "@ + shadow_expr_spec(
                field,
                ref_of(binding_ident@),
            ) + " ; :: proto_rs :: ArchivedProtoField :: < "@ + nat_text(v.tag as nat) + "u32 , "@
                + shadow_ty_spec(field) + " > :: new_always (& __proto_rs_shadow , w) ; }"@
        },
        VariantKind::Struct { fields } => p + " { "@ + join_spec(bindings_spec(fields@), " , "@)
            + " } => { let mark = w . mark () ; "@ + field_encodes_rev_spec(
            fields@,
            lowercase_of(v.ident@),
        ) + "let payload_len = w . written_since (mark) ; w . put_varint (payload_len as u64) ; "@
            + ":: proto_rs :: ArchivedProtoField :: < "@ + nat_text(v.tag as nat)
            + "u32 , Self > :: put_key (w) ; }"@,
    }
}

fn field_encode(f: &FieldInfo, lower: &str) -> (r: String)
    requires
        encode_conversion_valid(*f),
        f.tag is Some,
    ensures
        r@ == field_encode_spec(*f, lower@),
{
    let mut sid = string_of("__proto_rs_variant_");
    push_str(&mut sid, lower);
    push_str(&mut sid, "_shadow_");
    push_u64(&mut sid, f.index as u64);
    let mut reference = string_of("& ");
    push_str(&mut reference, field_name(f).as_str());
    let mut r = string_of("let ");
    push_str(&mut r, sid.as_str());
    push_str(&mut r, " = ");
    push_str(&mut r, shadow_expr(f, reference.as_str()).as_str());
    push_str(&mut r, " ; :: proto_rs :: ArchivedProtoField :: < ");
    push_u64(&mut r, f.tag.unwrap() as u64);
    push_str(&mut r, "u32 , ");
    push_str(&mut r, shadow_ty(f).as_str());
    push_str(&mut r, " > :: archive (& ");
    push_str(&mut r, sid.as_str());
    push_str(&mut r, " , w) ; ");
    r
}

pub fn build_variant_encode_arm(variant: &VariantInfo, enum_ident: &str) -> (r: String)
    requires
        kept_conversions_valid(*variant),
        kept_fields_tagged(*variant),
    ensures
        r@ == encode_arm_spec(*variant, enum_ident@),
{
    let mut r = variant_path_exec(enum_ident, variant);
    match &variant.kind {
        VariantKind::Unit => {
            push_str(&mut r, " => { ");
            push_str(&mut r, build_empty_variant_encode_body(variant.tag).as_str());
            push_str(&mut r, " }");
        },
        VariantKind::Tuple { field, binding_ident } => {
            if field.config.skip {
                push_str(&mut r, " (..) => { }");
            } else {
                let mut reference = string_of("& ");
                push_str(&mut reference, binding_ident.as_str());
                push_str(&mut r, " (");
                push_str(&mut r, binding_ident.as_str());
                push_str(&mut r, ") => { let __proto_rs_shadow = ");
                push_str(&mut r, shadow_expr(field, reference.as_str()).as_str());
                push_str(&mut r, " ; :: proto_rs :: ArchivedProtoField :: < ");
                push_u64(&mut r, variant.tag as u64);
                push_str(&mut r, "u32 , ");
                push_str(&mut r, shadow_ty(field).as_str());
                push_str(&mut r, " > :: new_always (& __proto_rs_shadow , w) ; }");
            }
        },
        VariantKind::Struct { fields } => {
            let lower = lowercase(variant.ident.as_str());
            let bindings = build_struct_field_bindings(fields);
            let mut encodes = String::new();
            let n = fields.len();
            let mut i: usize = n;
            while i > 0
                invariant
                    n == fields@.len(),
                    i <= n,
                    kept_conversions_valid(*variant),
                    kept_fields_tagged(*variant),
                    variant.kind == (VariantKind::Struct { fields: *fields }),
                    encodes@ == field_encodes_rev_spec(fields@.subrange(i as int, n as int), lower@),
                decreases i,
            {
                let f = &fields[i - 1];
                if !f.config.skip {
                    push_str(&mut encodes, field_encode(f, lower.as_str()).as_str());
                }
                proof {
                    let q = fields@.subrange(i - 1, n as int);
                    assert(q.drop_first() =~= fields@.subrange(i as int, n as int));
                    assert(q[0] == fields@[i - 1]);
                }
                i = i - 1;
            }
            assert(fields@.subrange(0, n as int) =~= fields@);
            push_str(&mut r, " { ");
            push_str(&mut r, join(&bindings, " , ").as_str());
            push_str(&mut r, " } => { let mark = w . mark () ; ");
            push_str(&mut r, encodes.as_str());
            push_str(
                &mut r,
                "let payload_len = w . written_since (mark) ; w . put_varint (payload_len as u64) ; ",
            );
            push_str(&mut r, ":: proto_rs :: ArchivedProtoField :: < ");
            push_u64(&mut r, variant.tag as u64);
            push_str(&mut r, "u32 , Self > :: put_key (w) ; }");
        },
    }
    r
}

/// The check that the payload length fits in the buffer, after reading it into `len`.
pub open spec fn read_len_spec() -> Seq<char> {
    "let len = :: proto_rs :: encoding :: decode_varint (buf) ? ; if len > buf . remaining () as u64 { "@
        + "return Err (:: proto_rs :: DecodeError :: new (\"buffer underflow\")) ; } "@
}

fn push_read_len(r: &mut String)
    ensures
        final(r)@ == old(r)@ + read_len_spec(),
{
    push_str(r, "let len = :: proto_rs :: encoding :: decode_varint (buf) ? ; if len > buf . remaining () as u64 { ");
    push_str(r, "return Err (:: proto_rs :: DecodeError :: new (\"buffer underflow\")) ; } ");
}

/// The check that a variant's payload is length-delimited.
pub open spec fn check_wire_spec() -> Seq<char> {
    ":: proto_rs :: encoding :: check_wire_type (:: proto_rs :: encoding :: WireType :: LengthDelimited , wire_type ,) ? ; "@
}

/// The temporary a variant field is decoded into before conversion.
pub open spec fn variant_tmp_ident(index: usize) -> Seq<char> {
    "__proto_rs_variant_field_"@ + nat_text(index as nat) + "_tmp"@
}

fn variant_tmp(index: usize) -> (r: String)
    ensures
        r@ == variant_tmp_ident(index),
{
    let mut r = string_of("__proto_rs_variant_field_");
    push_u64(&mut r, index as u64);
    push_str(&mut r, "_tmp");
    r
}

/// Decoding into a temporary of the field's decode type, then converting into `access`.
pub open spec fn converted_merge_spec(f: FieldInfo, access: Seq<char>, wire: Seq<char>) -> Seq<char> {
    let tmp = variant_tmp_ident(f.index);
    let d = f.decode_ty.code@;
    "let mut "@ + tmp + " : "@ + d + " = < "@ + d + " as :: proto_rs :: ProtoDefault > :: proto_default () ; < "@
        + d + " as :: proto_rs :: ProtoFieldMerge > :: merge_value (& mut "@ + tmp + " , "@ + wire
        + ") ? ; "@ + decode_assign_spec(f, access, tmp)
}

fn converted_merge(f: &FieldInfo, access: &str, wire: &str) -> (r: String)
    requires
        decode_assign_valid(*f),
    ensures
        r@ == converted_merge_spec(*f, access@, wire@),
{
    let tmp = variant_tmp(f.index);
    let d = f.decode_ty.code.as_str();
    let mut r = string_of("let mut ");
    push_str(&mut r, tmp.as_str());
    push_str(&mut r, " : ");
    push_str(&mut r, d);
    push_str(&mut r, " = < ");
    push_str(&mut r, d);
    push_str(&mut r, " as :: proto_rs :: ProtoDefault > :: proto_default () ; < ");
    push_str(&mut r, d);
    push_str(&mut r, " as :: proto_rs :: ProtoFieldMerge > :: merge_value (& mut ");
    push_str(&mut r, tmp.as_str());
    push_str(&mut r, " , ");
    push_str(&mut r, wire);
    push_str(&mut r, ") ? ; ");
    push_str(&mut r, decode_conversion_assign(f, access, tmp.as_str()).as_str());
    r
}

/// Decoding straight into `access` through the field type's own merge.
pub open spec fn direct_merge_spec(f: FieldInfo, access: Seq<char>, wire: Seq<char>) -> Seq<char> {
    "< "@ + f.field_ty.code@ + " as :: proto_rs :: ProtoFieldMerge > :: merge_value (& mut "@ + access
        + " , "@ + wire + ") ? ;"@
}

fn direct_merge(f: &FieldInfo, access: &str, wire: &str) -> (r: String)
    ensures
        r@ == direct_merge_spec(*f, access@, wire@),
{
    let mut r = string_of("< ");
    push_str(&mut r, f.field_ty.code.as_str());
    push_str(&mut r, " as :: proto_rs :: ProtoFieldMerge > :: merge_value (& mut ");
    push_str(&mut r, access);
    push_str(&mut r, " , ");
    push_str(&mut r, wire);
    push_str(&mut r, ") ? ;");
    r
}

/// How a tuple variant's field is decoded: skipped on the wire, converted, or merged directly.
pub open spec fn tuple_decode_spec(tag: u32, f: FieldInfo, b: Seq<char>) -> Seq<char> {
    if f.config.skip {
        ":: proto_rs :: encoding :: skip_field (wire_type , "@ + nat_text(tag as nat)
            + "u32 , buf , ctx) ? ;"@
    } else if needs_decode_conversion_spec(f.config, f.parsed) {
        converted_merge_spec(f, b, "wire_type , buf , ctx"@)
    } else {
        direct_merge_spec(f, b, "wire_type , buf , ctx"@)
    }
}

/// The statements that fill a skipped tuple field from its `skip_deser_fn` once the variant is set.
pub open spec fn tuple_post_hook_spec(p: Seq<char>, lower: Seq<char>, f: FieldInfo) -> Seq<char> {
    if f.config.skip && f.config.skip_deser_fn is Some {
        let sb = "__proto_rs_variant_"@ + lower + "_skip_binding"@;
        let comp = "__proto_rs_variant_"@ + lower + "_computed"@;
        " let "@ + comp + " = "@ + f.config.skip_deser_fn->Some_0@ + " (value) ; if let "@ + p + " ("@
            + sb + ") = value { * "@ + sb + " = "@ + comp + " ; }"@
    } else {
        Seq::empty()
    }
}

/// The merge of one tagged field of a struct variant, as an arm of the inner `match`, followed
/// by ` , `.
pub open spec fn struct_merge_field_spec(f: FieldInfo) -> Seq<char> {
    match f.tag {
        None => Seq::empty(),
        Some(t) => nat_text(t as nat) + "u32 => { "@ + if needs_decode_conversion_spec(f.config, f.parsed) {
            converted_merge_spec(f, name_of(f), "field_wire_type , buf , inner_ctx"@)
        } else {
            direct_merge_spec(f, name_of(f), "field_wire_type , buf , inner_ctx"@)
        } + " } , "@,
    }
}

pub open spec fn struct_merge_fields_spec(fs: Seq<FieldInfo>) -> Seq<char>
    decreases fs.len(),
{
    if fs.len() == 0 {
        Seq::empty()
    } else {
        struct_merge_fields_spec(fs.drop_last()) + struct_merge_field_spec(fs.last())
    }
}

/// The local each field of a struct variant is decoded into, starting at its default.
pub open spec fn field_inits_spec(fs: Seq<FieldInfo>) -> Seq<char>
    decreases fs.len(),
{
    if fs.len() == 0 {
        Seq::empty()
    } else {
        field_inits_spec(fs.drop_last()) + "let mut "@ + name_of(fs.last()) + " = "@
            + field_default_spec(fs.last()) + " ; "@
    }
}

/// The statements that fill a skipped struct variant field from its `skip_deser_fn`.
pub open spec fn struct_post_hook_spec(p: Seq<char>, lower: Seq<char>, f: FieldInfo) -> Seq<char> {
    if f.config.skip && f.config.skip_deser_fn is Some {
        let sb = "__proto_rs_variant_"@ + lower + "_"@ + nat_text(f.index as nat) + "_skip_binding"@;
        let comp = "__proto_rs_variant_"@ + lower + "_"@ + nat_text(f.index as nat) + "_computed"@;
        " let "@ + comp + " = "@ + f.config.skip_deser_fn->Some_0@ + " (value) ; if let "@ + p + " { "@
            + name_of(f) + " : "@ + sb + " , .. } = value { * "@ + sb + " = "@ + comp + " ; }"@
    } else {
        Seq::empty()
    }
}

pub open spec fn struct_post_hooks_spec(p: Seq<char>, lower: Seq<char>, fs: Seq<FieldInfo>) -> Seq<char>
    decreases fs.len(),
{
    if fs.len() == 0 {
        Seq::empty()
    } else {
        struct_post_hooks_spec(p, lower, fs.drop_last()) + struct_post_hook_spec(p, lower, fs.last())
    }
}

/// The names of the fields.
pub open spec fn names_spec(fs: Seq<FieldInfo>) -> Seq<Seq<char>> {
    Seq::new(fs.len(), |i: int| name_of(fs[i]))
}

/// The loop over a struct variant's payload: tagged fields are merged, every other field skipped.
pub open spec fn decode_loop_spec(arms: Seq<char>) -> Seq<char> {
    "while buf . remaining () > limit { let (field_tag , field_wire_type) = :: proto_rs :: encoding :: decode_key (buf) ? ; "@
        + if arms.len() == 0 {
        ":: proto_rs :: encoding :: skip_field (field_wire_type , field_tag , buf , inner_ctx) ? ; }"@
    } else {
        "match field_tag { "@ + arms
            + "_ => :: proto_rs :: encoding :: skip_field (field_wire_type , field_tag , buf , inner_ctx) ? , } }"@
    }
}

/// The arm of `merge_field` for the variant's tag: a unit variant takes an empty payload, a tuple
/// variant decodes its field, a struct variant decodes its fields from a nested message; each
/// then sets `* value` and runs the `skip_deser_fn` hooks of skipped fields.
pub open spec fn merge_arm_spec(name: Seq<char>, v: VariantInfo) -> Seq<char> {
    let p = variant_path(name, v);
    let head = nat_text(v.tag as nat) + "u32 => { "@;
    match v.kind {
        VariantKind::Unit => head + check_wire_spec() + read_len_spec()
            + "if len != 0 { return Err (:: proto_rs :: DecodeError :: new (\"expected empty variant payload\")) ; } "@
            + "* value = "@ + p + " ; Ok (()) }"@,
        VariantKind::Tuple { field, binding_ident } => head + "let mut "@ + binding_ident@ + " = "@
            + field_default_spec(field) + " ; "@ + tuple_decode_spec(v.tag, field, binding_ident@)
            + " * value = "@ + p + " ("@ + binding_ident@ + ") ;"@ + tuple_post_hook_spec(
            p,
            lowercase_of(v.ident@),
            field,
        ) + " Ok (()) }"@,
        VariantKind::Struct { fields } => head + check_wire_spec()
            + "ctx . limit_reached () ? ; let inner_ctx = ctx . enter_recursion () ; "@
            + read_len_spec() + "let limit = buf . remaining () - len as usize ; "@ + field_inits_spec(
            fields@,
        ) + decode_loop_spec(struct_merge_fields_spec(fields@)) + " * value = "@ + (if fields@.len()
            == 0 {
            p
        } else {
            p + " { "@ + join_spec(names_spec(fields@), " , "@) + " }"@
        }) + " ;"@ + struct_post_hooks_spec(p, lowercase_of(v.ident@), fields@) + " Ok (()) }"@,
    }
}

/// The paths the decoding of the variant's fields calls read as paths.
pub open spec fn merge_paths_valid(v: VariantInfo) -> bool {
    match v.kind {
        VariantKind::Unit => true,
        VariantKind::Tuple { field, .. } => {
            &&& field.config.skip ==> path_ok(field.config.skip_deser_fn)
            &&& !field.config.skip && needs_decode_conversion_spec(field.config, field.parsed)
                ==> decode_assign_valid(field)
        },
        VariantKind::Struct { fields } => forall|i: int|
            #![trigger fields@[i]]
            0 <= i < fields@.len() ==> {
                &&& fields@[i].config.skip ==> path_ok(fields@[i].config.skip_deser_fn)
                &&& fields@[i].tag is Some && needs_decode_conversion_spec(
                    fields@[i].config,
                    fields@[i].parsed,
                ) ==> decode_assign_valid(fields@[i])
            },
    }
}

fn struct_merge_field(f: &FieldInfo) -> (r: String)
    requires
        f.tag is Some && needs_decode_conversion_spec(f.config, f.parsed) ==> decode_assign_valid(*f),
    ensures
        r@ == struct_merge_field_spec(*f),
{
    match f.tag {
        None => String::new(),
        Some(t) => {
            let name = field_name(f);
            let mut r = String::new();
            push_u64(&mut r, t as u64);
            push_str(&mut r, "u32 => { ");
            let body = if needs_decode_conversion(&f.config, &f.parsed) {
                converted_merge(f, name.as_str(), "field_wire_type , buf , inner_ctx")
            } else {
                direct_merge(f, name.as_str(), "field_wire_type , buf , inner_ctx")
            };
            push_str(&mut r, body.as_str());
            push_str(&mut r, " } , ");
            r
        },
    }
}

fn struct_post_hook(p: &str, lower: &str, f: &FieldInfo) -> (r: String)
    ensures
        r@ == struct_post_hook_spec(p@, lower@, *f),
{
    match &f.config.skip_deser_fn {
        Some(fun) => {
            if !f.config.skip {
                return String::new();
            }
            let mut sb = string_of("__proto_rs_variant_");
            push_str(&mut sb, lower);
            push_str(&mut sb, "_");
            push_u64(&mut sb, f.index as u64);
            let mut comp = string_of(sb.as_str());
            push_str(&mut sb, "_skip_binding");
            push_str(&mut comp, "_computed");
            let mut r = string_of(" let ");
            push_str(&mut r, comp.as_str());
            push_str(&mut r, " = ");
            push_str(&mut r, fun.as_str());
            push_str(&mut r, " (value) ; if let ");
            push_str(&mut r, p);
            push_str(&mut r, " { ");
            push_str(&mut r, field_name(f).as_str());
            push_str(&mut r, " : ");
            push_str(&mut r, sb.as_str());
            push_str(&mut r, " , .. } = value { * ");
            push_str(&mut r, sb.as_str());
            push_str(&mut r, " = ");
            push_str(&mut r, comp.as_str());
            push_str(&mut r, " ; }");
            r
        },
        None => String::new(),
    }
}

fn struct_merge_arm_body(p: &str, lower: &str, fields: &Vec<FieldInfo>) -> (r: String)
    requires
        forall|i: int|
            #![trigger fields@[i]]
            0 <= i < fields@.len() ==> (fields@[i].tag is Some && needs_decode_conversion_spec(
                fields@[i].config,
                fields@[i].parsed,
            ) ==> decode_assign_valid(fields@[i])),
    ensures
        r@ == field_inits_spec(fields@) + decode_loop_spec(struct_merge_fields_spec(fields@))
            + " * value = "@ + (if fields@.len() == 0 {
            p@
        } else {
            p@ + " { "@ + join_spec(names_spec(fields@), " , "@) + " }"@
        }) + " ;"@ + struct_post_hooks_spec(p@, lower@, fields@),
{
    let mut inits = String::new();
    let mut arms = String::new();
    let mut hooks = String::new();
    let mut names: Vec<String> = Vec::new();
    let n = fields.len();
    let mut i: usize = 0;
    while i < n
        invariant
            n == fields@.len(),
            i <= n,
            forall|j: int|
                #![trigger fields@[j]]
                0 <= j < fields@.len() ==> (fields@[j].tag is Some && needs_decode_conversion_spec(
                    fields@[j].config,
                    fields@[j].parsed,
                ) ==> decode_assign_valid(fields@[j])),
            inits@ == field_inits_spec(fields@.subrange(0, i as int)),
            arms@ == struct_merge_fields_spec(fields@.subrange(0, i as int)),
            hooks@ == struct_post_hooks_spec(p@, lower@, fields@.subrange(0, i as int)),
            names@.len() == i,
            forall|j: int| 0 <= j < i ==> #[trigger] names@[j]@ == name_of(fields@[j]),
        decreases n - i,
    {
        let f = &fields[i];
        let name = field_name(f);
        push_str(&mut inits, "let mut ");
        push_str(&mut inits, name.as_str());
        push_str(&mut inits, " = ");
        push_str(&mut inits, field_proto_default_expr(f).as_str());
        push_str(&mut inits, " ; ");
        push_str(&mut arms, struct_merge_field(f).as_str());
        push_str(&mut hooks, struct_post_hook(p, lower, f).as_str());
        names.push(name);
        proof {
            let q = fields@.subrange(0, i + 1);
            assert(q.drop_last() =~= fields@.subrange(0, i as int));
            assert(q.last() == fields@[i as int]);
            assert(inits@ =~= field_inits_spec(q));
        }
        i = i + 1;
    }
    assert(fields@.subrange(0, n as int) =~= fields@);
    assert(views(names@) =~= names_spec(fields@));
    let mut r = inits;
    push_str(
        &mut r,
        "while buf . remaining () > limit { let (field_tag , field_wire_type) = :: proto_rs :: encoding :: decode_key (buf) ? ; ",
    );
    if arms.as_str().unicode_len() == 0 {
        push_str(
            &mut r,
            ":: proto_rs :: encoding :: skip_field (field_wire_type , field_tag , buf , inner_ctx) ? ; }",
        );
    } else {
        push_str(&mut r, "match field_tag { ");
        push_str(&mut r, arms.as_str());
        push_str(
            &mut r,
            "_ => :: proto_rs :: encoding :: skip_field (field_wire_type , field_tag , buf , inner_ctx) ? , } }",
        );
    }
    push_str(&mut r, " * value = ");
    push_str(&mut r, p);
    if n > 0 {
        push_str(&mut r, " { ");
        push_str(&mut r, join(&names, " , ").as_str());
        push_str(&mut r, " }");
    }
    push_str(&mut r, " ;");
    push_str(&mut r, hooks.as_str());
    r
}

pub fn build_variant_merge_arm(name: &str, variant: &VariantInfo) -> (r: String)
    requires
        merge_paths_valid(*variant),
    ensures
        r@ == merge_arm_spec(name@, *variant),
{
    let p = variant_path_exec(name, variant);
    let mut r = String::new();
    push_u64(&mut r, variant.tag as u64);
    push_str(&mut r, "u32 => { ");
    match &variant.kind {
        VariantKind::Unit => {
            push_str(
                &mut r,
                ":: proto_rs :: encoding :: check_wire_type (:: proto_rs :: encoding :: WireType :: LengthDelimited , wire_type ,) ? ; ",
            );
            push_read_len(&mut r);
            push_str(
                &mut r,
                "if len != 0 { return Err (:: proto_rs :: DecodeError :: new (\"expected empty variant payload\")) ; } ",
            );
            push_str(&mut r, "* value = ");
            push_str(&mut r, p.as_str());
            push_str(&mut r, " ; Ok (()) }");
        },
        VariantKind::Tuple { field, binding_ident } => {
            let b = binding_ident.as_str();
            push_str(&mut r, "let mut ");
            push_str(&mut r, b);
            push_str(&mut r, " = ");
            push_str(&mut r, field_proto_default_expr(field).as_str());
            push_str(&mut r, " ; ");
            let decode = if field.config.skip {
                let mut d = string_of(":: proto_rs :: encoding :: skip_field (wire_type , ");
                push_u64(&mut d, variant.tag as u64);
                push_str(&mut d, "u32 , buf , ctx) ? ;");
                d
            } else if needs_decode_conversion(&field.config, &field.parsed) {
                converted_merge(field, b, "wire_type , buf , ctx")
            } else {
                direct_merge(field, b, "wire_type , buf , ctx")
            };
            push_str(&mut r, decode.as_str());
            push_str(&mut r, " * value = ");
            push_str(&mut r, p.as_str());
            push_str(&mut r, " (");
            push_str(&mut r, b);
            push_str(&mut r, ") ;");
            match &field.config.skip_deser_fn {
                Some(fun) => {
                    if field.config.skip {
                        let lower = lowercase(variant.ident.as_str());
                        let mut sb = string_of("__proto_rs_variant_");
                        push_str(&mut sb, lower.as_str());
                        let mut comp = string_of(sb.as_str());
                        push_str(&mut sb, "_skip_binding");
                        push_str(&mut comp, "_computed");
                        push_str(&mut r, " let ");
                        push_str(&mut r, comp.as_str());
                        push_str(&mut r, " = ");
                        push_str(&mut r, fun.as_str());
                        push_str(&mut r, " (value) ; if let ");
                        push_str(&mut r, p.as_str());
                        push_str(&mut r, " (");
                        push_str(&mut r, sb.as_str());
                        push_str(&mut r, ") = value { * ");
                        push_str(&mut r, sb.as_str());
                        push_str(&mut r, " = ");
                        push_str(&mut r, comp.as_str());
                        push_str(&mut r, " ; }");
                    }
                },
                None => {},
            }
            push_str(&mut r, " Ok (()) }");
        },
        VariantKind::Struct { fields } => {
            push_str(
                &mut r,
                ":: proto_rs :: encoding :: check_wire_type (:: proto_rs :: encoding :: WireType :: LengthDelimited , wire_type ,) ? ; ",
            );
            push_str(&mut r, "ctx . limit_reached () ? ; let inner_ctx = ctx . enter_recursion () ; ");
            push_read_len(&mut r);
            push_str(&mut r, "let limit = buf . remaining () - len as usize ; ");
            let lower = lowercase(variant.ident.as_str());
            push_str(&mut r, struct_merge_arm_body(p.as_str(), lower.as_str(), fields).as_str());
            push_str(&mut r, " Ok (()) }");
        },
    }
    assert(r@ =~= merge_arm_spec(name@, *variant));
    r
}

fn conversion_ok(f: &FieldInfo) -> (r: bool)
    ensures
        r == encode_conversion_valid(*f),
{
    is_numeric_enum(&f.config, &f.parsed) || opt_path_ok(&f.config.into_fn)
}

fn assign_ok(f: &FieldInfo) -> (r: bool)
    ensures
        r == decode_assign_valid(*f),
{
    is_numeric_enum(&f.config, &f.parsed) || (opt_path_ok(&f.config.from_fn) && (f.config.from_fn.is_some()
        || opt_path_ok(&f.config.try_from_fn)))
}

fn field_paths_ok(f: &FieldInfo) -> (r: bool)
    ensures
        r == ((!f.config.skip ==> encode_conversion_valid(*f)) && (f.config.skip ==> path_ok(
            f.config.skip_deser_fn,
        )) && (f.tag is Some && needs_decode_conversion_spec(f.config, f.parsed) ==> decode_assign_valid(*f))),
{
    (f.config.skip || conversion_ok(f)) && (!f.config.skip || opt_path_ok(&f.config.skip_deser_fn)) && (
    f.tag.is_none() || !needs_decode_conversion(&f.config, &f.parsed) || assign_ok(f))
}

fn variant_paths_ok(v: &VariantInfo) -> (r: bool)
    ensures
        r == (kept_conversions_valid(*v) && merge_paths_valid(*v)),
{
    match &v.kind {
        VariantKind::Unit => true,
        VariantKind::Tuple { field, .. } => (field.config.skip || conversion_ok(field)) && (
        !field.config.skip || opt_path_ok(&field.config.skip_deser_fn)) && (field.config.skip
            || !needs_decode_conversion(&field.config, &field.parsed) || assign_ok(field)),
        VariantKind::Struct { fields } => {
            let n = fields.len();
            let mut i: usize = 0;
            while i < n
                invariant
                    n == fields@.len(),
                    i <= n,
                    v.kind == (VariantKind::Struct { fields: *fields }),
                    forall|j: int|
                        #![trigger fields@[j]]
                        0 <= j < i ==> {
                            &&& !fields@[j].config.skip ==> encode_conversion_valid(fields@[j])
                            &&& fields@[j].config.skip ==> path_ok(fields@[j].config.skip_deser_fn)
                            &&& fields@[j].tag is Some && needs_decode_conversion_spec(
                                fields@[j].config,
                                fields@[j].parsed,
                            ) ==> decode_assign_valid(fields@[j])
                        },
                decreases n - i,
            {
                if !field_paths_ok(&fields[i]) {
                    assert(!kept_conversions_valid(*v) || !merge_paths_valid(*v)) by {
                        let f = fields@[i as int];
                        if !f.config.skip && !encode_conversion_valid(f) {
                            assert(!kept_conversions_valid(*v));
                        } else {
                            assert(!merge_paths_valid(*v));
                        }
                    }
                    return false;
                }
                i = i + 1;
            }
            true
        },
    }
}

/// The code of one variant in each generated method.
pub struct VariantArms {
    pub default_expr: String,
    pub is_default_arm: String,
    pub encode_arm: String,
    pub merge_arm: String,
}

/// The variant's default value and its arms in `is_default`, the encoder and `merge_field`;
/// `None` when a function path given in a field option does not read as a path.
pub fn variant_arms(variant: &VariantInfo, enum_ident: &str) -> (r: Option<VariantArms>)
    requires
        kept_fields_tagged(*variant),
    ensures
        r is Some <==> kept_conversions_valid(*variant) && merge_paths_valid(*variant),
        r matches Some(a) ==> {
            &&& a.default_expr@ == variant_default_spec(*variant, enum_ident@)
            &&& a.is_default_arm@ == is_default_arm_spec(*variant, enum_ident@)
            &&& a.encode_arm@ == encode_arm_spec(*variant, enum_ident@)
            &&& a.merge_arm@ == merge_arm_spec(enum_ident@, *variant)
        },
{
    if !variant_paths_ok(variant) {
        return None;
    }
    Some(VariantArms {
        default_expr: build_variant_default_expr(variant, enum_ident),
        is_default_arm: build_variant_is_default_arm(variant, enum_ident),
        encode_arm: build_variant_encode_arm(variant, enum_ident),
        merge_arm: build_variant_merge_arm(enum_ident, variant),
    })
}

} // verus!
