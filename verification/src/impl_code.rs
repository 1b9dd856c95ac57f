//! The trait impls `#[proto_message]` generates for enums (plain enums and enums encoded as a
//! `oneof`) and for transparent structs, as code in the spacing of a rendered token stream.

use vstd::prelude::*;

use crate::field_code::{
    FieldInfo, access_code, access_name, accesses_fit, build_proto_default_expr, default_expr_spec,
    opt_path_ok, path_ok, validation_spec,
};
use crate::struct_code::{
    archive_fields, archive_fields_spec, field_piece, piece_cheap_hint, piece_decode_arm, piece_finish,
    piece_is_default, piece_post_hook, piece_shadow_def, piece_shadow_init, piece_size_hint,
    piece_sun_init, piece_valid, piece_validator_hook, pieces, pieces_spec, post_decode_fn,
    post_decode_fn_spec, proto_body, proto_body_spec, shadow_impls_body, shadow_impls_body_spec,
    shadow_struct_named, shadow_struct_named_spec, shadow_struct_tuple, shadow_struct_tuple_spec,
    shadow_struct_unit, shadow_struct_unit_spec, size_hint_fold, size_hint_fold_spec,
    struct_sun_impl, struct_sun_impl_spec, sun_shadow_encode, sun_shadow_encode_spec, piece_valid_exec,
};
use crate::enums::{
    SimpleEnumError, lemma_simple_enum_default_zero, simple_enum_discriminants,
    simple_enum_discriminants_spec,
};
use crate::model::{FieldsModel, VariantModel};
use crate::string_set::strictly_sorted;
use crate::text::views;
use crate::type_params::{used_params_type, used_type_params};
use crate::types::RustType;
use crate::text::{int_text, push_i64, push_str, string_of};
use crate::variant_code::{
    VariantInfo, encode_arm_spec, is_default_arm_spec, kept_conversions_valid, kept_fields_tagged,
    merge_arm_spec, merge_paths_valid, variant_arms, variant_default_spec,
};

verus! {

/// The generics of the generated impls, as code: those of the impls on the type, and those of
/// the impls on its references, which add the lifetime `'a` in front.
pub struct ImplGenerics {
    pub impl_generics: String,
    pub ty_generics: String,
    pub where_clause: String,
    pub shadow_impl_generics: String,
    pub shadow_ty_generics: String,
    pub shadow_where_clause: String,
}

/// The `validate_with_ext` hook that calls the `validator_with_ext` function `p`.
#[verifier::opaque]
pub open spec fn validate_with_ext_impl_spec(p: Seq<char>) -> Seq<char> {
    "const VALIDATE_WITH_EXT : bool = true ; # [cfg (feature = \"tonic\")] # [inline (always)] fn validate_with_ext (value : & mut Self , ext : & :: tonic :: Extensions ,) -> Result < () , :: proto_rs :: DecodeError > { "@
        + p
        + " (value , ext) }"@
}

fn validate_with_ext_impl(p: &str) -> (r: String)
    ensures
        r@ == validate_with_ext_impl_spec(p@),
{
    let mut r = String::new();
    push_str(&mut r, "const VALIDATE_WITH_EXT : bool = true ; # [cfg (feature = \"tonic\")] # [inline (always)] fn validate_with_ext (value : & mut Self , ext : & :: tonic :: Extensions ,) -> Result < () , :: proto_rs :: DecodeError > { ");
    push_str(&mut r, p);
    push_str(&mut r, " (value , ext) }");
    reveal(validate_with_ext_impl_spec);
    assert(r@ =~= validate_with_ext_impl_spec(p@));
    r
}

/// The impls that encode and decode the `sun` type `t` of a `oneof` enum `n` through the enum.
#[verifier::opaque]
pub open spec fn complex_sun_impl_spec(ig: Seq<char>, wc: Seq<char>, n: Seq<char>, tg: Seq<char>, t: Seq<char>, v: Seq<char>) -> Seq<char> {
    "impl "@
        + ig
        + " :: proto_rs :: ProtoExt for "@
        + t
        + " "@
        + wc
        + " { const KIND : :: proto_rs :: ProtoKind = :: proto_rs :: ProtoKind :: Message ; } impl "@
        + ig
        + " :: proto_rs :: ProtoEncode for "@
        + t
        + " "@
        + wc
        + " { type Shadow < 'a > = "@
        + n
        + " "@
        + tg
        + " ; } impl "@
        + ig
        + " :: proto_rs :: ProtoDecode for "@
        + t
        + " "@
        + wc
        + " { type ShadowDecoded = "@
        + n
        + " "@
        + tg
        + " ; # [inline (always)] fn post_decode (value : Self :: ShadowDecoded) -> Result < Self , :: proto_rs :: DecodeError > { < "@
        + n
        + " "@
        + tg
        + " as :: proto_rs :: ProtoShadowDecode < "@
        + t
        + " > > :: to_sun (value) } "@
        + v
        + " } impl "@
        + ig
        + " :: proto_rs :: ProtoDefault for "@
        + t
        + " "@
        + wc
        + " { # [inline (always)] fn proto_default () -> Self { let shadow = < "@
        + n
        + " "@
        + tg
        + " as :: proto_rs :: ProtoDefault > :: proto_default () ; < "@
        + n
        + " "@
        + tg
        + " as :: proto_rs :: ProtoShadowDecode < "@
        + t
        + " > > :: to_sun (shadow) . expect (\"failed to build default sun value\") } } impl "@
        + ig
        + " :: proto_rs :: ProtoFieldMerge for "@
        + t
        + " "@
        + wc
        + " { # [inline (always)] fn merge_value (& mut self , wire_type : :: proto_rs :: encoding :: WireType , buf : & mut impl :: proto_rs :: bytes :: Buf , ctx : :: proto_rs :: encoding :: DecodeContext ,) -> Result < () , :: proto_rs :: DecodeError > { let mut shadow = < "@
        + n
        + " "@
        + tg
        + " as :: proto_rs :: ProtoShadowEncode < '_ , "@
        + t
        + " > > :: from_sun (self) ; < "@
        + n
        + " "@
        + tg
        + " as :: proto_rs :: ProtoDecoder > :: merge (& mut shadow , wire_type , buf , ctx) ? ; * self = < "@
        + n
        + " "@
        + tg
        + " as :: proto_rs :: ProtoShadowDecode < "@
        + t
        + " > > :: to_sun (shadow) ? ; Ok (()) } } impl "@
        + ig
        + " :: proto_rs :: ProtoArchive for "@
        + t
        + " "@
        + wc
        + " { # [inline (always)] fn is_default (& self) -> bool { let shadow = < "@
        + n
        + " "@
        + tg
        + " as :: proto_rs :: ProtoShadowEncode < '_ , "@
        + t
        + " > > :: from_sun (self) ; < "@
        + n
        + " "@
        + tg
        + " as :: proto_rs :: ProtoArchive > :: is_default (& shadow) } # [inline (always)] fn archive < const TAG : u32 > (& self , w : & mut impl :: proto_rs :: RevWriter) { let shadow = < "@
        + n
        + " "@
        + tg
        + " as :: proto_rs :: ProtoShadowEncode < '_ , "@
        + t
        + " > > :: from_sun (self) ; < "@
        + n
        + " "@
        + tg
        + " as :: proto_rs :: ProtoArchive > :: archive :: < TAG > (& shadow , w) } } "@
}

fn complex_sun_impl(ig: &str, wc: &str, n: &str, tg: &str, t: &str, v: &str) -> (r: String)
    ensures
        r@ == complex_sun_impl_spec(ig@, wc@, n@, tg@, t@, v@),
{
    let mut r = String::new();
    push_str(&mut r, "impl ");
    push_str(&mut r, ig);
    push_str(&mut r, " :: proto_rs :: ProtoExt for ");
    push_str(&mut r, t);
    push_str(&mut r, " ");
    push_str(&mut r, wc);
    push_str(&mut r, " { const KIND : :: proto_rs :: ProtoKind = :: proto_rs :: ProtoKind :: Message ; } impl ");
    push_str(&mut r, ig);
    push_str(&mut r, " :: proto_rs :: ProtoEncode for ");
    push_str(&mut r, t);
    push_str(&mut r, " ");
    push_str(&mut r, wc);
    push_str(&mut r, " { type Shadow < 'a > = ");
    push_str(&mut r, n);
    push_str(&mut r, " ");
    push_str(&mut r, tg);
    push_str(&mut r, " ; } impl ");
    push_str(&mut r, ig);
    push_str(&mut r, " :: proto_rs :: ProtoDecode for ");
    push_str(&mut r, t);
    push_str(&mut r, " ");
    push_str(&mut r, wc);
    push_str(&mut r, " { type ShadowDecoded = ");
    push_str(&mut r, n);
    push_str(&mut r, " ");
    push_str(&mut r, tg);
    push_str(&mut r, " ; # [inline (always)] fn post_decode (value : Self :: ShadowDecoded) -> Result < Self , :: proto_rs :: DecodeError > { < ");
    push_str(&mut r, n);
    push_str(&mut r, " ");
    push_str(&mut r, tg);
    push_str(&mut r, " as :: proto_rs :: ProtoShadowDecode < ");
    push_str(&mut r, t);
    push_str(&mut r, " > > :: to_sun (value) } ");
    push_str(&mut r, v);
    push_str(&mut r, " } impl ");
    push_str(&mut r, ig);
    push_str(&mut r, " :: proto_rs :: ProtoDefault for ");
    push_str(&mut r, t);
    push_str(&mut r, " ");
    push_str(&mut r, wc);
    push_str(&mut r, " { # [inline (always)] fn proto_default () -> Self { let shadow = < ");
    push_str(&mut r, n);
    push_str(&mut r, " ");
    push_str(&mut r, tg);
    push_str(&mut r, " as :: proto_rs :: ProtoDefault > :: proto_default () ; < ");
    push_str(&mut r, n);
    push_str(&mut r, " ");
    push_str(&mut r, tg);
    push_str(&mut r, " as :: proto_rs :: ProtoShadowDecode < ");
    push_str(&mut r, t);
    push_str(&mut r, " > > :: to_sun (shadow) . expect (\"failed to build default sun value\") } } impl ");
    push_str(&mut r, ig);
    push_str(&mut r, " :: proto_rs :: ProtoFieldMerge for ");
    push_str(&mut r, t);
    push_str(&mut r, " ");
    push_str(&mut r, wc);
    push_str(&mut r, " { # [inline (always)] fn merge_value (& mut self , wire_type : :: proto_rs :: encoding :: WireType , buf : & mut impl :: proto_rs :: bytes :: Buf , ctx : :: proto_rs :: encoding :: DecodeContext ,) -> Result < () , :: proto_rs :: DecodeError > { let mut shadow = < ");
    push_str(&mut r, n);
    push_str(&mut r, " ");
    push_str(&mut r, tg);
    push_str(&mut r, " as :: proto_rs :: ProtoShadowEncode < '_ , ");
    push_str(&mut r, t);
    push_str(&mut r, " > > :: from_sun (self) ; < ");
    push_str(&mut r, n);
    push_str(&mut r, " ");
    push_str(&mut r, tg);
    push_str(&mut r, " as :: proto_rs :: ProtoDecoder > :: merge (& mut shadow , wire_type , buf , ctx) ? ; * self = < ");
    push_str(&mut r, n);
    push_str(&mut r, " ");
    push_str(&mut r, tg);
    push_str(&mut r, " as :: proto_rs :: ProtoShadowDecode < ");
    push_str(&mut r, t);
    push_str(&mut r, " > > :: to_sun (shadow) ? ; Ok (()) } } impl ");
    push_str(&mut r, ig);
    push_str(&mut r, " :: proto_rs :: ProtoArchive for ");
    push_str(&mut r, t);
    push_str(&mut r, " ");
    push_str(&mut r, wc);
    push_str(&mut r, " { # [inline (always)] fn is_default (& self) -> bool { let shadow = < ");
    push_str(&mut r, n);
    push_str(&mut r, " ");
    push_str(&mut r, tg);
    push_str(&mut r, " as :: proto_rs :: ProtoShadowEncode < '_ , ");
    push_str(&mut r, t);
    push_str(&mut r, " > > :: from_sun (self) ; < ");
    push_str(&mut r, n);
    push_str(&mut r, " ");
    push_str(&mut r, tg);
    push_str(&mut r, " as :: proto_rs :: ProtoArchive > :: is_default (& shadow) } # [inline (always)] fn archive < const TAG : u32 > (& self , w : & mut impl :: proto_rs :: RevWriter) { let shadow = < ");
    push_str(&mut r, n);
    push_str(&mut r, " ");
    push_str(&mut r, tg);
    push_str(&mut r, " as :: proto_rs :: ProtoShadowEncode < '_ , ");
    push_str(&mut r, t);
    push_str(&mut r, " > > :: from_sun (self) ; < ");
    push_str(&mut r, n);
    push_str(&mut r, " ");
    push_str(&mut r, tg);
    push_str(&mut r, " as :: proto_rs :: ProtoArchive > :: archive :: < TAG > (& shadow , w) } } ");
    reveal(complex_sun_impl_spec);
    assert(r@ =~= complex_sun_impl_spec(ig@, wc@, n@, tg@, t@, v@));
    r
}

/// The impls of a `oneof` enum `n`, given its arms, its default value and its hooks.
#[verifier::opaque]
pub open spec fn complex_enum_body_spec(ig: Seq<char>, wc: Seq<char>, sig: Seq<char>, swc: Seq<char>, n: Seq<char>, tg: Seq<char>, merge_arms: Seq<char>, default_expr: Seq<char>, vproto: Seq<char>, isdef_arms: Seq<char>, enc_arms: Seq<char>, suns: Seq<char>) -> Seq<char> {
    "impl "@
        + ig
        + " :: proto_rs :: ProtoExt for "@
        + n
        + " "@
        + tg
        + " "@
        + wc
        + " { const KIND : :: proto_rs :: ProtoKind = :: proto_rs :: ProtoKind :: Message ; } impl "@
        + ig
        + " :: proto_rs :: ProtoDecoder for "@
        + n
        + " "@
        + tg
        + " "@
        + wc
        + " { # [inline (always)] fn merge_field (value : & mut Self , tag : u32 , wire_type : :: proto_rs :: encoding :: WireType , buf : & mut impl :: proto_rs :: bytes :: Buf , ctx : :: proto_rs :: encoding :: DecodeContext ,) -> Result < () , :: proto_rs :: DecodeError > { match tag { "@
        + merge_arms
        + "_ => :: proto_rs :: encoding :: skip_field (wire_type , tag , buf , ctx) , } } } impl "@
        + ig
        + " :: proto_rs :: ProtoDefault for "@
        + n
        + " "@
        + tg
        + " "@
        + wc
        + " { # [inline (always)] fn proto_default () -> Self { "@
        + default_expr
        + " } } impl "@
        + ig
        + " :: proto_rs :: ProtoDecode for "@
        + n
        + " "@
        + tg
        + " "@
        + wc
        + " { type ShadowDecoded = Self ; "@
        + vproto
        + " } impl "@
        + ig
        + " :: proto_rs :: ProtoShadowDecode < "@
        + n
        + " "@
        + tg
        + " > for "@
        + n
        + " "@
        + tg
        + " "@
        + wc
        + " { # [inline (always)] fn to_sun (self) -> Result < "@
        + n
        + " "@
        + tg
        + " , :: proto_rs :: DecodeError > { Ok (self) } } impl "@
        + sig
        + " :: proto_rs :: ProtoShadowEncode < 'a , "@
        + n
        + " "@
        + tg
        + " > for & 'a "@
        + n
        + " "@
        + tg
        + " "@
        + swc
        + " { # [inline (always)] fn from_sun (value : & 'a "@
        + n
        + " "@
        + tg
        + ") -> Self { value } } impl "@
        + sig
        + " :: proto_rs :: ProtoArchive for & 'a "@
        + n
        + " "@
        + tg
        + " "@
        + swc
        + " { # [inline (always)] fn is_default (& self) -> bool { match * self { "@
        + isdef_arms
        + "} } # [inline (always)] fn archive < const TAG : u32 > (& self , w : & mut impl :: proto_rs :: RevWriter) { let mark = w . mark () ; match * self { "@
        + enc_arms
        + "} if TAG != 0 { let payload_len = w . written_since (mark) ; w . put_varint (payload_len as u64) ; :: proto_rs :: ArchivedProtoField :: < TAG , Self > :: put_key (w) ; } } } impl "@
        + ig
        + " :: proto_rs :: ProtoArchive for "@
        + n
        + " "@
        + tg
        + " "@
        + wc
        + " { # [inline (always)] fn is_default (& self) -> bool { < & Self as :: proto_rs :: ProtoArchive > :: is_default (& self) } # [inline (always)] fn archive < const TAG : u32 > (& self , w : & mut impl :: proto_rs :: RevWriter) { < & Self as :: proto_rs :: ProtoArchive > :: archive :: < TAG > (& self , w) } } impl "@
        + ig
        + " :: proto_rs :: ProtoEncode for "@
        + n
        + " "@
        + tg
        + " "@
        + wc
        + " { type Shadow < 'a > = & 'a "@
        + n
        + " "@
        + tg
        + " ; } "@
        + suns
}

fn complex_enum_body(ig: &str, wc: &str, sig: &str, swc: &str, n: &str, tg: &str, merge_arms: &str, default_expr: &str, vproto: &str, isdef_arms: &str, enc_arms: &str, suns: &str) -> (r: String)
    ensures
        r@ == complex_enum_body_spec(ig@, wc@, sig@, swc@, n@, tg@, merge_arms@, default_expr@, vproto@, isdef_arms@, enc_arms@, suns@),
{
    let mut r = String::new();
    push_str(&mut r, "impl ");
    push_str(&mut r, ig);
    push_str(&mut r, " :: proto_rs :: ProtoExt for ");
    push_str(&mut r, n);
    push_str(&mut r, " ");
    push_str(&mut r, tg);
    push_str(&mut r, " ");
    push_str(&mut r, wc);
    push_str(&mut r, " { const KIND : :: proto_rs :: ProtoKind = :: proto_rs :: ProtoKind :: Message ; } impl ");
    push_str(&mut r, ig);
    push_str(&mut r, " :: proto_rs :: ProtoDecoder for ");
    push_str(&mut r, n);
    push_str(&mut r, " ");
    push_str(&mut r, tg);
    push_str(&mut r, " ");
    push_str(&mut r, wc);
    push_str(&mut r, " { # [inline (always)] fn merge_field (value : & mut Self , tag : u32 , wire_type : :: proto_rs :: encoding :: WireType , buf : & mut impl :: proto_rs :: bytes :: Buf , ctx : :: proto_rs :: encoding :: DecodeContext ,) -> Result < () , :: proto_rs :: DecodeError > { match tag { ");
    push_str(&mut r, merge_arms);
    push_str(&mut r, "_ => :: proto_rs :: encoding :: skip_field (wire_type , tag , buf , ctx) , } } } impl ");
    push_str(&mut r, ig);
    push_str(&mut r, " :: proto_rs :: ProtoDefault for ");
    push_str(&mut r, n);
    push_str(&mut r, " ");
    push_str(&mut r, tg);
    push_str(&mut r, " ");
    push_str(&mut r, wc);
    push_str(&mut r, " { # [inline (always)] fn proto_default () -> Self { ");
    push_str(&mut r, default_expr);
    push_str(&mut r, " } } impl ");
    push_str(&mut r, ig);
    push_str(&mut r, " :: proto_rs :: ProtoDecode for ");
    push_str(&mut r, n);
    push_str(&mut r, " ");
    push_str(&mut r, tg);
    push_str(&mut r, " ");
    push_str(&mut r, wc);
    push_str(&mut r, " { type ShadowDecoded = Self ; ");
    push_str(&mut r, vproto);
    push_str(&mut r, " } impl ");
    push_str(&mut r, ig);
    push_str(&mut r, " :: proto_rs :: ProtoShadowDecode < ");
    push_str(&mut r, n);
    push_str(&mut r, " ");
    push_str(&mut r, tg);
    push_str(&mut r, " > for ");
    push_str(&mut r, n);
    push_str(&mut r, " ");
    push_str(&mut r, tg);
    push_str(&mut r, " ");
    push_str(&mut r, wc);
    push_str(&mut r, " { # [inline (always)] fn to_sun (self) -> Result < ");
    push_str(&mut r, n);
    push_str(&mut r, " ");
    push_str(&mut r, tg);
    push_str(&mut r, " , :: proto_rs :: DecodeError > { Ok (self) } } impl ");
    push_str(&mut r, sig);
    push_str(&mut r, " :: proto_rs :: ProtoShadowEncode < 'a , ");
    push_str(&mut r, n);
    push_str(&mut r, " ");
    push_str(&mut r, tg);
    push_str(&mut r, " > for & 'a ");
    push_str(&mut r, n);
    push_str(&mut r, " ");
    push_str(&mut r, tg);
    push_str(&mut r, " ");
    push_str(&mut r, swc);
    push_str(&mut r, " { # [inline (always)] fn from_sun (value : & 'a ");
    push_str(&mut r, n);
    push_str(&mut r, " ");
    push_str(&mut r, tg);
    push_str(&mut r, ") -> Self { value } } impl ");
    push_str(&mut r, sig);
    push_str(&mut r, " :: proto_rs :: ProtoArchive for & 'a ");
    push_str(&mut r, n);
    push_str(&mut r, " ");
    push_str(&mut r, tg);
    push_str(&mut r, " ");
    push_str(&mut r, swc);
    push_str(&mut r, " { # [inline (always)] fn is_default (& self) -> bool { match * self { ");
    push_str(&mut r, isdef_arms);
    push_str(&mut r, "} } # [inline (always)] fn archive < const TAG : u32 > (& self , w : & mut impl :: proto_rs :: RevWriter) { let mark = w . mark () ; match * self { ");
    push_str(&mut r, enc_arms);
    push_str(&mut r, "} if TAG != 0 { let payload_len = w . written_since (mark) ; w . put_varint (payload_len as u64) ; :: proto_rs :: ArchivedProtoField :: < TAG , Self > :: put_key (w) ; } } } impl ");
    push_str(&mut r, ig);
    push_str(&mut r, " :: proto_rs :: ProtoArchive for ");
    push_str(&mut r, n);
    push_str(&mut r, " ");
    push_str(&mut r, tg);
    push_str(&mut r, " ");
    push_str(&mut r, wc);
    push_str(&mut r, " { # [inline (always)] fn is_default (& self) -> bool { < & Self as :: proto_rs :: ProtoArchive > :: is_default (& self) } # [inline (always)] fn archive < const TAG : u32 > (& self , w : & mut impl :: proto_rs :: RevWriter) { < & Self as :: proto_rs :: ProtoArchive > :: archive :: < TAG > (& self , w) } } impl ");
    push_str(&mut r, ig);
    push_str(&mut r, " :: proto_rs :: ProtoEncode for ");
    push_str(&mut r, n);
    push_str(&mut r, " ");
    push_str(&mut r, tg);
    push_str(&mut r, " ");
    push_str(&mut r, wc);
    push_str(&mut r, " { type Shadow < 'a > = & 'a ");
    push_str(&mut r, n);
    push_str(&mut r, " ");
    push_str(&mut r, tg);
    push_str(&mut r, " ; } ");
    push_str(&mut r, suns);
    reveal(complex_enum_body_spec);
    assert(r@ =~= complex_enum_body_spec(ig@, wc@, sig@, swc@, n@, tg@, merge_arms@, default_expr@, vproto@, isdef_arms@, enc_arms@, suns@));
    r
}

/// One arm of each variant, each followed by ` , `: `kind` 0 for `merge_field`, 1 for
/// `is_default`, 2 for `archive`.
pub open spec fn arm_of(kind: nat, name: Seq<char>, v: VariantInfo) -> Seq<char> {
    if kind == 0 {
        merge_arm_spec(name, v)
    } else if kind == 1 {
        is_default_arm_spec(v, name)
    } else {
        encode_arm_spec(v, name)
    }
}

pub open spec fn arms_concat(kind: nat, name: Seq<char>, vs: Seq<VariantInfo>) -> Seq<char>
    decreases vs.len(),
{
    if vs.len() == 0 {
        Seq::empty()
    } else {
        arms_concat(kind, name, vs.drop_last()) + arm_of(kind, name, vs.last()) + " , "@
    }
}

/// The `validate_with_ext` hook, when a `validator_with_ext` function is given.
pub open spec fn vext_spec(o: Option<String>) -> Seq<char> {
    match o {
        Some(p) => validate_with_ext_impl_spec(p@),
        None => Seq::empty(),
    }
}

/// The impls of each `sun` type, in order.
pub open spec fn suns_concat(g: ImplGenerics, n: Seq<char>, suns: Seq<String>, v: Seq<char>) -> Seq<char>
    decreases suns.len(),
{
    if suns.len() == 0 {
        Seq::empty()
    } else {
        suns_concat(g, n, suns.drop_last(), v) + complex_sun_impl_spec(
            g.impl_generics@,
            g.where_clause@,
            n,
            g.ty_generics@,
            suns.last()@,
            v,
        )
    }
}

/// The impls of a `oneof` enum: `merge_field` dispatches on the variants' tags, the default is
/// the default variant with its fields at their defaults, `is_default` and `archive` match on
/// the variants, and each `sun` type goes through the enum; the `validate_with_ext` hook sits on
/// the enum only when it has no `sun` types.
pub open spec fn complex_enum_impl_spec(
    name: Seq<char>,
    g: ImplGenerics,
    vs: Seq<VariantInfo>,
    default_index: int,
    vext: Option<String>,
    suns: Seq<String>,
) -> Seq<char> {
    let v = vext_spec(vext);
    complex_enum_body_spec(
        g.impl_generics@,
        g.where_clause@,
        g.shadow_impl_generics@,
        g.shadow_where_clause@,
        name,
        g.ty_generics@,
        arms_concat(0, name, vs),
        variant_default_spec(vs[default_index], name),
        if suns.len() > 0 {
            Seq::empty()
        } else {
            v
        },
        arms_concat(1, name, vs),
        arms_concat(2, name, vs),
        suns_concat(g, name, suns, v),
    )
}

/// Every function path the impls call reads as a path.
pub open spec fn complex_impl_valid(vs: Seq<VariantInfo>, vext: Option<String>) -> bool {
    &&& forall|i: int| 0 <= i < vs.len() ==> kept_conversions_valid(#[trigger] vs[i]) && merge_paths_valid(vs[i])
    &&& path_ok(vext)
}

/// The impls of a `oneof` enum `name` (see `complex_enum_impl_spec`); `None` when a function path
/// given in an option does not read as a path.
pub fn generate_complex_enum_impl(
    name: &str,
    generics: &ImplGenerics,
    variants: &Vec<VariantInfo>,
    default_index: usize,
    validator_with_ext: &Option<String>,
    sun_tys: &Vec<String>,
) -> (r: Option<String>)
    requires
        default_index < variants@.len(),
        forall|i: int| 0 <= i < variants@.len() ==> kept_fields_tagged(#[trigger] variants@[i]),
    ensures
        r is Some <==> complex_impl_valid(variants@, *validator_with_ext),
        r matches Some(c) ==> c@ == complex_enum_impl_spec(
            name@,
            *generics,
            variants@,
            default_index as int,
            *validator_with_ext,
            sun_tys@,
        ),
{
    let mut merge_arms = String::new();
    let mut isdef_arms = String::new();
    let mut enc_arms = String::new();
    let mut default_expr = String::new();
    let n = variants.len();
    let mut i: usize = 0;
    while i < n
        invariant
            n == variants@.len(),
            i <= n,
            default_index < n,
            forall|j: int| 0 <= j < n ==> kept_fields_tagged(#[trigger] variants@[j]),
            forall|j: int| 0 <= j < i ==> kept_conversions_valid(#[trigger] variants@[j]) && merge_paths_valid(variants@[j]),
            merge_arms@ == arms_concat(0, name@, variants@.subrange(0, i as int)),
            isdef_arms@ == arms_concat(1, name@, variants@.subrange(0, i as int)),
            enc_arms@ == arms_concat(2, name@, variants@.subrange(0, i as int)),
            default_index < i ==> default_expr@ == variant_default_spec(variants@[default_index as int], name@),
        decreases n - i,
    {
        let arms = match variant_arms(&variants[i], name) {
            Some(a) => a,
            None => {
                return None;
            },
        };
        proof {
            let q = variants@.subrange(0, i + 1);
            assert(q.drop_last() =~= variants@.subrange(0, i as int));
            assert(q.last() == variants@[i as int]);
        }
        push_str(&mut merge_arms, arms.merge_arm.as_str());
        push_str(&mut merge_arms, " , ");
        push_str(&mut isdef_arms, arms.is_default_arm.as_str());
        push_str(&mut isdef_arms, " , ");
        push_str(&mut enc_arms, arms.encode_arm.as_str());
        push_str(&mut enc_arms, " , ");
        if i == default_index {
            default_expr = arms.default_expr;
        }
        i = i + 1;
    }
    assert(variants@.subrange(0, n as int) =~= variants@);
    let vext = match validator_with_ext {
        Some(p) => {
            if !opt_path_ok(validator_with_ext) {
                return None;
            }
            validate_with_ext_impl(p.as_str())
        },
        None => String::new(),
    };
    assert(vext@ == vext_spec(*validator_with_ext));
    let mut suns = String::new();
    let m = sun_tys.len();
    let mut k: usize = 0;
    while k < m
        invariant
            m == sun_tys@.len(),
            k <= m,
            suns@ == suns_concat(*generics, name@, sun_tys@.subrange(0, k as int), vext@),
        decreases m - k,
    {
        let s = complex_sun_impl(
            generics.impl_generics.as_str(),
            generics.where_clause.as_str(),
            name,
            generics.ty_generics.as_str(),
            sun_tys[k].as_str(),
            vext.as_str(),
        );
        proof {
            let q = sun_tys@.subrange(0, k + 1);
            assert(q.drop_last() =~= sun_tys@.subrange(0, k as int));
            assert(q.last() == sun_tys@[k as int]);
        }
        push_str(&mut suns, s.as_str());
        k = k + 1;
    }
    assert(sun_tys@.subrange(0, m as int) =~= sun_tys@);
    let vproto = if m > 0 { String::new() } else { string_of(vext.as_str()) };
    Some(complex_enum_body(
        generics.impl_generics.as_str(),
        generics.where_clause.as_str(),
        generics.shadow_impl_generics.as_str(),
        generics.shadow_where_clause.as_str(),
        name,
        generics.ty_generics.as_str(),
        merge_arms.as_str(),
        default_expr.as_str(),
        vproto.as_str(),
        isdef_arms.as_str(),
        enc_arms.as_str(),
        suns.as_str(),
    ))
}

/// The impls that encode and decode the `sun` type `t` of a plain enum `n` through the enum.
#[verifier::opaque]
pub open spec fn simple_sun_impl_spec(ig: Seq<char>, wc: Seq<char>, n: Seq<char>, tg: Seq<char>, t: Seq<char>, v: Seq<char>) -> Seq<char> {
    "impl "@
        + ig
        + " :: proto_rs :: ProtoExt for "@
        + t
        + " "@
        + wc
        + " { const KIND : :: proto_rs :: ProtoKind = :: proto_rs :: ProtoKind :: SimpleEnum ; } impl "@
        + ig
        + " :: proto_rs :: ProtoEncode for "@
        + t
        + " "@
        + wc
        + " { type Shadow < 'a > = "@
        + n
        + " "@
        + tg
        + " ; } impl "@
        + ig
        + " :: proto_rs :: ProtoDecode for "@
        + t
        + " "@
        + wc
        + " { type ShadowDecoded = "@
        + n
        + " "@
        + tg
        + " ; # [inline (always)] fn post_decode (value : Self :: ShadowDecoded) -> Result < Self , :: proto_rs :: DecodeError > { < "@
        + n
        + " "@
        + tg
        + " as :: proto_rs :: ProtoShadowDecode < "@
        + t
        + " > > :: to_sun (value) } "@
        + v
        + " } impl "@
        + ig
        + " :: proto_rs :: ProtoDecoder for "@
        + t
        + " "@
        + wc
        + " { # [inline (always)] fn proto_default () -> Self { let shadow = < "@
        + n
        + " "@
        + tg
        + " as :: proto_rs :: ProtoDecoder > :: proto_default () ; < "@
        + n
        + " "@
        + tg
        + " as :: proto_rs :: ProtoShadowDecode < "@
        + t
        + " > > :: to_sun (shadow) . expect (\"failed to build default sun value\") } # [inline (always)] fn clear (& mut self) { * self = Self :: proto_default () ; } # [inline (always)] fn merge_field (value : & mut Self , tag : u32 , wire_type : :: proto_rs :: encoding :: WireType , buf : & mut impl :: proto_rs :: bytes :: Buf , ctx : :: proto_rs :: encoding :: DecodeContext ,) -> Result < () , :: proto_rs :: DecodeError > { let mut shadow = < "@
        + n
        + " "@
        + tg
        + " as :: proto_rs :: ProtoShadowEncode < '_ , "@
        + t
        + " > > :: from_sun (value) ; < "@
        + n
        + " "@
        + tg
        + " as :: proto_rs :: ProtoDecoder > :: merge_field (& mut shadow , tag , wire_type , buf , ctx) ? ; * value = < "@
        + n
        + " "@
        + tg
        + " as :: proto_rs :: ProtoShadowDecode < "@
        + t
        + " > > :: to_sun (shadow) ? ; Ok (()) } # [inline (always)] fn merge (& mut self , wire_type : :: proto_rs :: encoding :: WireType , buf : & mut impl :: proto_rs :: bytes :: Buf , ctx : :: proto_rs :: encoding :: DecodeContext ,) -> Result < () , :: proto_rs :: DecodeError > { let mut shadow = < "@
        + n
        + " "@
        + tg
        + " as :: proto_rs :: ProtoShadowEncode < '_ , "@
        + t
        + " > > :: from_sun (self) ; < "@
        + n
        + " "@
        + tg
        + " as :: proto_rs :: ProtoDecoder > :: merge (& mut shadow , wire_type , buf , ctx) ? ; * self = < "@
        + n
        + " "@
        + tg
        + " as :: proto_rs :: ProtoShadowDecode < "@
        + t
        + " > > :: to_sun (shadow) ? ; Ok (()) } } impl "@
        + ig
        + " :: proto_rs :: ProtoArchive for "@
        + t
        + " "@
        + wc
        + " { type Archived < 'a > = < "@
        + n
        + " "@
        + tg
        + " as :: proto_rs :: ProtoArchive > :: Archived < 'a > ; # [inline (always)] fn is_default (& self) -> bool { let shadow = < "@
        + n
        + " "@
        + tg
        + " as :: proto_rs :: ProtoShadowEncode < '_ , "@
        + t
        + " > > :: from_sun (self) ; < "@
        + n
        + " "@
        + tg
        + " as :: proto_rs :: ProtoArchive > :: is_default (& shadow) } # [inline (always)] fn len (archived : & Self :: Archived < '_ >) -> usize { < "@
        + n
        + " "@
        + tg
        + " as :: proto_rs :: ProtoArchive > :: len (archived) } # [inline (always)] unsafe fn encode < const TAG : u32 > (archived : Self :: Archived < '_ > , buf : & mut impl :: proto_rs :: bytes :: BufMut) { < "@
        + n
        + " "@
        + tg
        + " as :: proto_rs :: ProtoArchive > :: encode :: < TAG > (archived , buf) ; } # [inline (always)] fn archive < const TAG : u32 > (& self) -> Self :: Archived < '_ > { let shadow = < "@
        + n
        + " "@
        + tg
        + " as :: proto_rs :: ProtoShadowEncode < '_ , "@
        + t
        + " > > :: from_sun (self) ; < "@
        + n
        + " "@
        + tg
        + " as :: proto_rs :: ProtoArchive > :: archive :: < TAG > (& shadow) } } "@
}

fn simple_sun_impl(ig: &str, wc: &str, n: &str, tg: &str, t: &str, v: &str) -> (r: String)
    ensures
        r@ == simple_sun_impl_spec(ig@, wc@, n@, tg@, t@, v@),
{
    let mut r = String::new();
    push_str(&mut r, "impl ");
    push_str(&mut r, ig);
    push_str(&mut r, " :: proto_rs :: ProtoExt for ");
    push_str(&mut r, t);
    push_str(&mut r, " ");
    push_str(&mut r, wc);
    push_str(&mut r, " { const KIND : :: proto_rs :: ProtoKind = :: proto_rs :: ProtoKind :: SimpleEnum ; } impl ");
    push_str(&mut r, ig);
    push_str(&mut r, " :: proto_rs :: ProtoEncode for ");
    push_str(&mut r, t);
    push_str(&mut r, " ");
    push_str(&mut r, wc);
    push_str(&mut r, " { type Shadow < 'a > = ");
    push_str(&mut r, n);
    push_str(&mut r, " ");
    push_str(&mut r, tg);
    push_str(&mut r, " ; } impl ");
    push_str(&mut r, ig);
    push_str(&mut r, " :: proto_rs :: ProtoDecode for ");
    push_str(&mut r, t);
    push_str(&mut r, " ");
    push_str(&mut r, wc);
    push_str(&mut r, " { type ShadowDecoded = ");
    push_str(&mut r, n);
    push_str(&mut r, " ");
    push_str(&mut r, tg);
    push_str(&mut r, " ; # [inline (always)] fn post_decode (value : Self :: ShadowDecoded) -> Result < Self , :: proto_rs :: DecodeError > { < ");
    push_str(&mut r, n);
    push_str(&mut r, " ");
    push_str(&mut r, tg);
    push_str(&mut r, " as :: proto_rs :: ProtoShadowDecode < ");
    push_str(&mut r, t);
    push_str(&mut r, " > > :: to_sun (value) } ");
    push_str(&mut r, v);
    push_str(&mut r, " } impl ");
    push_str(&mut r, ig);
    push_str(&mut r, " :: proto_rs :: ProtoDecoder for ");
    push_str(&mut r, t);
    push_str(&mut r, " ");
    push_str(&mut r, wc);
    push_str(&mut r, " { # [inline (always)] fn proto_default () -> Self { let shadow = < ");
    push_str(&mut r, n);
    push_str(&mut r, " ");
    push_str(&mut r, tg);
    push_str(&mut r, " as :: proto_rs :: ProtoDecoder > :: proto_default () ; < ");
    push_str(&mut r, n);
    push_str(&mut r, " ");
    push_str(&mut r, tg);
    push_str(&mut r, " as :: proto_rs :: ProtoShadowDecode < ");
    push_str(&mut r, t);
    push_str(&mut r, " > > :: to_sun (shadow) . expect (\"failed to build default sun value\") } # [inline (always)] fn clear (& mut self) { * self = Self :: proto_default () ; } # [inline (always)] fn merge_field (value : & mut Self , tag : u32 , wire_type : :: proto_rs :: encoding :: WireType , buf : & mut impl :: proto_rs :: bytes :: Buf , ctx : :: proto_rs :: encoding :: DecodeContext ,) -> Result < () , :: proto_rs :: DecodeError > { let mut shadow = < ");
    push_str(&mut r, n);
    push_str(&mut r, " ");
    push_str(&mut r, tg);
    push_str(&mut r, " as :: proto_rs :: ProtoShadowEncode < '_ , ");
    push_str(&mut r, t);
    push_str(&mut r, " > > :: from_sun (value) ; < ");
    push_str(&mut r, n);
    push_str(&mut r, " ");
    push_str(&mut r, tg);
    push_str(&mut r, " as :: proto_rs :: ProtoDecoder > :: merge_field (& mut shadow , tag , wire_type , buf , ctx) ? ; * value = < ");
    push_str(&mut r, n);
    push_str(&mut r, " ");
    push_str(&mut r, tg);
    push_str(&mut r, " as :: proto_rs :: ProtoShadowDecode < ");
    push_str(&mut r, t);
    push_str(&mut r, " > > :: to_sun (shadow) ? ; Ok (()) } # [inline (always)] fn merge (& mut self , wire_type : :: proto_rs :: encoding :: WireType , buf : & mut impl :: proto_rs :: bytes :: Buf , ctx : :: proto_rs :: encoding :: DecodeContext ,) -> Result < () , :: proto_rs :: DecodeError > { let mut shadow = < ");
    push_str(&mut r, n);
    push_str(&mut r, " ");
    push_str(&mut r, tg);
    push_str(&mut r, " as :: proto_rs :: ProtoShadowEncode < '_ , ");
    push_str(&mut r, t);
    push_str(&mut r, " > > :: from_sun (self) ; < ");
    push_str(&mut r, n);
    push_str(&mut r, " ");
    push_str(&mut r, tg);
    push_str(&mut r, " as :: proto_rs :: ProtoDecoder > :: merge (& mut shadow , wire_type , buf , ctx) ? ; * self = < ");
    push_str(&mut r, n);
    push_str(&mut r, " ");
    push_str(&mut r, tg);
    push_str(&mut r, " as :: proto_rs :: ProtoShadowDecode < ");
    push_str(&mut r, t);
    push_str(&mut r, " > > :: to_sun (shadow) ? ; Ok (()) } } impl ");
    push_str(&mut r, ig);
    push_str(&mut r, " :: proto_rs :: ProtoArchive for ");
    push_str(&mut r, t);
    push_str(&mut r, " ");
    push_str(&mut r, wc);
    push_str(&mut r, " { type Archived < 'a > = < ");
    push_str(&mut r, n);
    push_str(&mut r, " ");
    push_str(&mut r, tg);
    push_str(&mut r, " as :: proto_rs :: ProtoArchive > :: Archived < 'a > ; # [inline (always)] fn is_default (& self) -> bool { let shadow = < ");
    push_str(&mut r, n);
    push_str(&mut r, " ");
    push_str(&mut r, tg);
    push_str(&mut r, " as :: proto_rs :: ProtoShadowEncode < '_ , ");
    push_str(&mut r, t);
    push_str(&mut r, " > > :: from_sun (self) ; < ");
    push_str(&mut r, n);
    push_str(&mut r, " ");
    push_str(&mut r, tg);
    push_str(&mut r, " as :: proto_rs :: ProtoArchive > :: is_default (& shadow) } # [inline (always)] fn len (archived : & Self :: Archived < '_ >) -> usize { < ");
    push_str(&mut r, n);
    push_str(&mut r, " ");
    push_str(&mut r, tg);
    push_str(&mut r, " as :: proto_rs :: ProtoArchive > :: len (archived) } # [inline (always)] unsafe fn encode < const TAG : u32 > (archived : Self :: Archived < '_ > , buf : & mut impl :: proto_rs :: bytes :: BufMut) { < ");
    push_str(&mut r, n);
    push_str(&mut r, " ");
    push_str(&mut r, tg);
    push_str(&mut r, " as :: proto_rs :: ProtoArchive > :: encode :: < TAG > (archived , buf) ; } # [inline (always)] fn archive < const TAG : u32 > (& self) -> Self :: Archived < '_ > { let shadow = < ");
    push_str(&mut r, n);
    push_str(&mut r, " ");
    push_str(&mut r, tg);
    push_str(&mut r, " as :: proto_rs :: ProtoShadowEncode < '_ , ");
    push_str(&mut r, t);
    push_str(&mut r, " > > :: from_sun (self) ; < ");
    push_str(&mut r, n);
    push_str(&mut r, " ");
    push_str(&mut r, tg);
    push_str(&mut r, " as :: proto_rs :: ProtoArchive > :: archive :: < TAG > (& shadow) } } ");
    reveal(simple_sun_impl_spec);
    assert(r@ =~= simple_sun_impl_spec(ig@, wc@, n@, tg@, t@, v@));
    r
}

/// The impls of a plain enum `n`, given its match arms, its default variant `d` and its hooks.
#[verifier::opaque]
pub open spec fn simple_enum_body_spec(ig: Seq<char>, wc: Seq<char>, sig: Seq<char>, swc: Seq<char>, n: Seq<char>, tg: Seq<char>, try_arms: Seq<char>, raw_arms: Seq<char>, d: Seq<char>, vproto: Seq<char>, suns: Seq<char>) -> Seq<char> {
    "impl "@
        + ig
        + " :: core :: convert :: TryFrom < i32 > for "@
        + n
        + " "@
        + tg
        + " "@
        + wc
        + " { type Error = :: proto_rs :: DecodeError ; fn try_from (value : i32) -> Result < Self , Self :: Error > { match value { "@
        + try_arms
        + "_ => Err (:: proto_rs :: DecodeError :: new (\"invalid enum value\")) , } } } impl "@
        + ig
        + " :: proto_rs :: ProtoExt for "@
        + n
        + " "@
        + tg
        + " "@
        + wc
        + " { const KIND : :: proto_rs :: ProtoKind = :: proto_rs :: ProtoKind :: SimpleEnum ; } impl "@
        + sig
        + " :: proto_rs :: ProtoShadowEncode < 'a , "@
        + n
        + " "@
        + tg
        + " > for i32 "@
        + swc
        + " { # [inline (always)] fn from_sun (value : & 'a "@
        + n
        + " "@
        + tg
        + ") -> Self { match * value { "@
        + raw_arms
        + "} } } impl "@
        + ig
        + " :: proto_rs :: ProtoArchive for "@
        + n
        + " "@
        + tg
        + " "@
        + wc
        + " { type Archived < 'a > = i32 ; # [inline (always)] fn is_default (& self) -> bool { matches ! (* self , Self :: "@
        + d
        + ") } # [inline (always)] fn len (archived : & Self :: Archived < '_ >) -> usize { < i32 as :: proto_rs :: ProtoArchive > :: len (archived) } # [inline (always)] unsafe fn encode < const TAG : u32 > (archived : Self :: Archived < '_ > , buf : & mut impl :: proto_rs :: bytes :: BufMut) { if TAG != 0 { :: proto_rs :: encoding :: encode_key (TAG , :: proto_rs :: encoding :: WireType :: Varint , buf) ; } < i32 as :: proto_rs :: ProtoArchive > :: encode :: < 0 > (archived , buf) ; } # [inline (always)] fn archive < const TAG : u32 > (& self) -> Self :: Archived < '_ > { match * self { "@
        + raw_arms
        + "} } } impl "@
        + ig
        + " :: proto_rs :: ProtoEncode for "@
        + n
        + " "@
        + tg
        + " "@
        + wc
        + " { type Shadow < 'a > = i32 ; } impl "@
        + ig
        + " :: proto_rs :: ProtoDecoder for "@
        + n
        + " "@
        + tg
        + " "@
        + wc
        + " { # [inline (always)] fn proto_default () -> Self { Self :: "@
        + d
        + " } # [inline (always)] fn clear (& mut self) { * self = Self :: proto_default () ; } # [inline (always)] fn merge_field (value : & mut Self , tag : u32 , wire_type : :: proto_rs :: encoding :: WireType , buf : & mut impl :: proto_rs :: bytes :: Buf , ctx : :: proto_rs :: encoding :: DecodeContext ,) -> Result < () , :: proto_rs :: DecodeError > { if tag == 1 { Self :: merge (value , wire_type , buf , ctx) } else { :: proto_rs :: encoding :: skip_field (wire_type , tag , buf , ctx) } } # [inline (always)] fn merge (& mut self , wire_type : :: proto_rs :: encoding :: WireType , buf : & mut impl :: proto_rs :: bytes :: Buf , ctx : :: proto_rs :: encoding :: DecodeContext) -> Result < () , :: proto_rs :: DecodeError > { let mut raw = 0i32 ; < i32 as :: proto_rs :: ProtoDecoder > :: merge (& mut raw , wire_type , buf , ctx) ? ; * self = Self :: try_from (raw) ? ; Ok (()) } } impl "@
        + ig
        + " :: proto_rs :: ProtoDecode for "@
        + n
        + " "@
        + tg
        + " "@
        + wc
        + " { type ShadowDecoded = Self ; "@
        + vproto
        + " } impl "@
        + ig
        + " :: proto_rs :: ProtoShadowDecode < "@
        + n
        + " "@
        + tg
        + " > for "@
        + n
        + " "@
        + tg
        + " "@
        + wc
        + " { # [inline (always)] fn to_sun (self) -> Result < "@
        + n
        + " "@
        + tg
        + " , :: proto_rs :: DecodeError > { Ok (self) } } "@
        + suns
}

fn simple_enum_body(ig: &str, wc: &str, sig: &str, swc: &str, n: &str, tg: &str, try_arms: &str, raw_arms: &str, d: &str, vproto: &str, suns: &str) -> (r: String)
    ensures
        r@ == simple_enum_body_spec(ig@, wc@, sig@, swc@, n@, tg@, try_arms@, raw_arms@, d@, vproto@, suns@),
{
    let mut r = String::new();
    push_str(&mut r, "impl ");
    push_str(&mut r, ig);
    push_str(&mut r, " :: core :: convert :: TryFrom < i32 > for ");
    push_str(&mut r, n);
    push_str(&mut r, " ");
    push_str(&mut r, tg);
    push_str(&mut r, " ");
    push_str(&mut r, wc);
    push_str(&mut r, " { type Error = :: proto_rs :: DecodeError ; fn try_from (value : i32) -> Result < Self , Self :: Error > { match value { ");
    push_str(&mut r, try_arms);
    push_str(&mut r, "_ => Err (:: proto_rs :: DecodeError :: new (\"invalid enum value\")) , } } } impl ");
    push_str(&mut r, ig);
    push_str(&mut r, " :: proto_rs :: ProtoExt for ");
    push_str(&mut r, n);
    push_str(&mut r, " ");
    push_str(&mut r, tg);
    push_str(&mut r, " ");
    push_str(&mut r, wc);
    push_str(&mut r, " { const KIND : :: proto_rs :: ProtoKind = :: proto_rs :: ProtoKind :: SimpleEnum ; } impl ");
    push_str(&mut r, sig);
    push_str(&mut r, " :: proto_rs :: ProtoShadowEncode < 'a , ");
    push_str(&mut r, n);
    push_str(&mut r, " ");
    push_str(&mut r, tg);
    push_str(&mut r, " > for i32 ");
    push_str(&mut r, swc);
    push_str(&mut r, " { # [inline (always)] fn from_sun (value : & 'a ");
    push_str(&mut r, n);
    push_str(&mut r, " ");
    push_str(&mut r, tg);
    push_str(&mut r, ") -> Self { match * value { ");
    push_str(&mut r, raw_arms);
    push_str(&mut r, "} } } impl ");
    push_str(&mut r, ig);
    push_str(&mut r, " :: proto_rs :: ProtoArchive for ");
    push_str(&mut r, n);
    push_str(&mut r, " ");
    push_str(&mut r, tg);
    push_str(&mut r, " ");
    push_str(&mut r, wc);
    push_str(&mut r, " { type Archived < 'a > = i32 ; # [inline (always)] fn is_default (& self) -> bool { matches ! (* self , Self :: ");
    push_str(&mut r, d);
    push_str(&mut r, ") } # [inline (always)] fn len (archived : & Self :: Archived < '_ >) -> usize { < i32 as :: proto_rs :: ProtoArchive > :: len (archived) } # [inline (always)] unsafe fn encode < const TAG : u32 > (archived : Self :: Archived < '_ > , buf : & mut impl :: proto_rs :: bytes :: BufMut) { if TAG != 0 { :: proto_rs :: encoding :: encode_key (TAG , :: proto_rs :: encoding :: WireType :: Varint , buf) ; } < i32 as :: proto_rs :: ProtoArchive > :: encode :: < 0 > (archived , buf) ; } # [inline (always)] fn archive < const TAG : u32 > (& self) -> Self :: Archived < '_ > { match * self { ");
    push_str(&mut r, raw_arms);
    push_str(&mut r, "} } } impl ");
    push_str(&mut r, ig);
    push_str(&mut r, " :: proto_rs :: ProtoEncode for ");
    push_str(&mut r, n);
    push_str(&mut r, " ");
    push_str(&mut r, tg);
    push_str(&mut r, " ");
    push_str(&mut r, wc);
    push_str(&mut r, " { type Shadow < 'a > = i32 ; } impl ");
    push_str(&mut r, ig);
    push_str(&mut r, " :: proto_rs :: ProtoDecoder for ");
    push_str(&mut r, n);
    push_str(&mut r, " ");
    push_str(&mut r, tg);
    push_str(&mut r, " ");
    push_str(&mut r, wc);
    push_str(&mut r, " { # [inline (always)] fn proto_default () -> Self { Self :: ");
    push_str(&mut r, d);
    push_str(&mut r, " } # [inline (always)] fn clear (& mut self) { * self = Self :: proto_default () ; } # [inline (always)] fn merge_field (value : & mut Self , tag : u32 , wire_type : :: proto_rs :: encoding :: WireType , buf : & mut impl :: proto_rs :: bytes :: Buf , ctx : :: proto_rs :: encoding :: DecodeContext ,) -> Result < () , :: proto_rs :: DecodeError > { if tag == 1 { Self :: merge (value , wire_type , buf , ctx) } else { :: proto_rs :: encoding :: skip_field (wire_type , tag , buf , ctx) } } # [inline (always)] fn merge (& mut self , wire_type : :: proto_rs :: encoding :: WireType , buf : & mut impl :: proto_rs :: bytes :: Buf , ctx : :: proto_rs :: encoding :: DecodeContext) -> Result < () , :: proto_rs :: DecodeError > { let mut raw = 0i32 ; < i32 as :: proto_rs :: ProtoDecoder > :: merge (& mut raw , wire_type , buf , ctx) ? ; * self = Self :: try_from (raw) ? ; Ok (()) } } impl ");
    push_str(&mut r, ig);
    push_str(&mut r, " :: proto_rs :: ProtoDecode for ");
    push_str(&mut r, n);
    push_str(&mut r, " ");
    push_str(&mut r, tg);
    push_str(&mut r, " ");
    push_str(&mut r, wc);
    push_str(&mut r, " { type ShadowDecoded = Self ; ");
    push_str(&mut r, vproto);
    push_str(&mut r, " } impl ");
    push_str(&mut r, ig);
    push_str(&mut r, " :: proto_rs :: ProtoShadowDecode < ");
    push_str(&mut r, n);
    push_str(&mut r, " ");
    push_str(&mut r, tg);
    push_str(&mut r, " > for ");
    push_str(&mut r, n);
    push_str(&mut r, " ");
    push_str(&mut r, tg);
    push_str(&mut r, " ");
    push_str(&mut r, wc);
    push_str(&mut r, " { # [inline (always)] fn to_sun (self) -> Result < ");
    push_str(&mut r, n);
    push_str(&mut r, " ");
    push_str(&mut r, tg);
    push_str(&mut r, " , :: proto_rs :: DecodeError > { Ok (self) } } ");
    push_str(&mut r, suns);
    reveal(simple_enum_body_spec);
    assert(r@ =~= simple_enum_body_spec(ig@, wc@, sig@, swc@, n@, tg@, try_arms@, raw_arms@, d@, vproto@, suns@));
    r
}

/// The arm that maps a variant to its value: `Enum :: Variant => valuei32 , `.
pub open spec fn raw_arm_spec(n: Seq<char>, id: Seq<char>, v: i32) -> Seq<char> {
    n + " :: "@ + id + " => "@ + int_text(v as int) + "i32 , "@
}

/// The arm that maps a value back to its variant: `valuei32 => Ok (Self :: Variant) , `.
pub open spec fn try_arm_spec(id: Seq<char>, v: i32) -> Seq<char> {
    int_text(v as int) + "i32 => Ok (Self :: "@ + id + ") , "@
}

pub open spec fn raw_arms_spec(n: Seq<char>, vs: Seq<VariantModel>, ds: Seq<i32>) -> Seq<char>
    decreases vs.len(),
{
    if vs.len() == 0 {
        Seq::empty()
    } else {
        raw_arms_spec(n, vs.drop_last(), ds) + raw_arm_spec(n, vs.last().ident@, ds[vs.len() - 1])
    }
}

pub open spec fn try_arms_spec(vs: Seq<VariantModel>, ds: Seq<i32>) -> Seq<char>
    decreases vs.len(),
{
    if vs.len() == 0 {
        Seq::empty()
    } else {
        try_arms_spec(vs.drop_last(), ds) + try_arm_spec(vs.last().ident@, ds[vs.len() - 1])
    }
}

/// The impls of each `sun` type of a plain enum, in order.
pub open spec fn simple_suns_concat(g: ImplGenerics, n: Seq<char>, suns: Seq<String>, v: Seq<char>) -> Seq<char>
    decreases suns.len(),
{
    if suns.len() == 0 {
        Seq::empty()
    } else {
        simple_suns_concat(g, n, suns.drop_last(), v) + simple_sun_impl_spec(
            g.impl_generics@,
            g.where_clause@,
            n,
            g.ty_generics@,
            suns.last()@,
            v,
        )
    }
}

/// The impls of a plain enum whose variants take the values `ds` and whose default is variant
/// `k`: `TryFrom<i32>` and the archive map between variants and values, the default variant as
/// `proto_default`, and each `sun` type through the enum.
pub open spec fn simple_enum_impl_spec(
    name: Seq<char>,
    g: ImplGenerics,
    vs: Seq<VariantModel>,
    ds: Seq<i32>,
    k: int,
    vext: Option<String>,
    suns: Seq<String>,
) -> Seq<char> {
    let v = vext_spec(vext);
    simple_enum_body_spec(
        g.impl_generics@,
        g.where_clause@,
        g.shadow_impl_generics@,
        g.shadow_where_clause@,
        name,
        g.ty_generics@,
        try_arms_spec(vs, ds),
        raw_arms_spec(name, vs, ds),
        vs[k].ident@,
        if suns.len() > 0 {
            Seq::empty()
        } else {
            v
        },
        simple_suns_concat(g, name, suns, v),
    )
}

/// Why the impls of a plain enum could not be generated.
pub enum SimpleEnumImplError {
    /// The variants' values are refused (see `simple_enum_discriminants`).
    Discriminants(SimpleEnumError),
    /// The `validator_with_ext` function does not read as a path.
    ValidatorPath,
}

/// The impls of a plain enum `name` with the values `simple_enum_discriminants` gives its
/// variants (see `simple_enum_impl_spec`).
pub fn generate_simple_enum_impl(
    name: &str,
    generics: &ImplGenerics,
    variants: &Vec<VariantModel>,
    validator_with_ext: &Option<String>,
    sun_tys: &Vec<String>,
) -> (r: Result<String, SimpleEnumImplError>)
    ensures
        match simple_enum_discriminants_spec(variants@) {
            Err(e) => r == Err::<String, _>(SimpleEnumImplError::Discriminants(e)),
            Ok((ds, k)) => if !path_ok(*validator_with_ext) {
                r matches Err(SimpleEnumImplError::ValidatorPath)
            } else {
                r matches Ok(c) && c@ == simple_enum_impl_spec(
                    name@,
                    *generics,
                    variants@,
                    ds,
                    k as int,
                    *validator_with_ext,
                    sun_tys@,
                )
            },
        },
{
    let (ds, k) = match simple_enum_discriminants(variants) {
        Ok(x) => x,
        Err(e) => {
            return Err(SimpleEnumImplError::Discriminants(e));
        },
    };
    let mut raw_arms = String::new();
    let mut try_arms = String::new();
    let n = variants.len();
    proof {
        lemma_simple_enum_default_zero(variants@);
    }
    let mut i: usize = 0;
    while i < n
        invariant
            n == variants@.len(),
            n == ds@.len(),
            i <= n,
            raw_arms@ == raw_arms_spec(name@, variants@.subrange(0, i as int), ds@),
            try_arms@ == try_arms_spec(variants@.subrange(0, i as int), ds@),
        decreases n - i,
    {
        let id = variants[i].ident.as_str();
        push_str(&mut raw_arms, name);
        push_str(&mut raw_arms, " :: ");
        push_str(&mut raw_arms, id);
        push_str(&mut raw_arms, " => ");
        push_i64(&mut raw_arms, ds[i] as i64);
        push_str(&mut raw_arms, "i32 , ");
        push_i64(&mut try_arms, ds[i] as i64);
        push_str(&mut try_arms, "i32 => Ok (Self :: ");
        push_str(&mut try_arms, id);
        push_str(&mut try_arms, ") , ");
        proof {
            let q = variants@.subrange(0, i + 1);
            assert(q.drop_last() =~= variants@.subrange(0, i as int));
            assert(q.last() == variants@[i as int]);
            assert(raw_arms@ =~= raw_arms_spec(name@, q, ds@));
            assert(try_arms@ =~= try_arms_spec(q, ds@));
        }
        i = i + 1;
    }
    assert(variants@.subrange(0, n as int) =~= variants@);
    let vext = match validator_with_ext {
        Some(p) => {
            if !opt_path_ok(validator_with_ext) {
                return Err(SimpleEnumImplError::ValidatorPath);
            }
            validate_with_ext_impl(p.as_str())
        },
        None => String::new(),
    };
    assert(vext@ == vext_spec(*validator_with_ext));
    let mut suns = String::new();
    let m = sun_tys.len();
    let mut j: usize = 0;
    while j < m
        invariant
            m == sun_tys@.len(),
            j <= m,
            suns@ == simple_suns_concat(*generics, name@, sun_tys@.subrange(0, j as int), vext@),
        decreases m - j,
    {
        let s = simple_sun_impl(
            generics.impl_generics.as_str(),
            generics.where_clause.as_str(),
            name,
            generics.ty_generics.as_str(),
            sun_tys[j].as_str(),
            vext.as_str(),
        );
        proof {
            let q = sun_tys@.subrange(0, j + 1);
            assert(q.drop_last() =~= sun_tys@.subrange(0, j as int));
            assert(q.last() == sun_tys@[j as int]);
        }
        push_str(&mut suns, s.as_str());
        j = j + 1;
    }
    assert(sun_tys@.subrange(0, m as int) =~= sun_tys@);
    let vproto = if m > 0 { String::new() } else { string_of(vext.as_str()) };
    Ok(simple_enum_body(
        generics.impl_generics.as_str(),
        generics.where_clause.as_str(),
        generics.shadow_impl_generics.as_str(),
        generics.shadow_where_clause.as_str(),
        name,
        generics.ty_generics.as_str(),
        try_arms.as_str(),
        raw_arms.as_str(),
        variants[k].ident.as_str(),
        vproto.as_str(),
        suns.as_str(),
    ))
}

/// The shadow wrapper and impls of a transparent struct `n`, given its inner field's type and
/// accesses, its default and wrapping expressions, and its validation hooks.
#[verifier::opaque]
pub open spec fn transparent_body_spec(vis: Seq<char>, sn: Seq<char>, sig: Seq<char>, stg: Seq<char>, swc: Seq<char>, sty: Seq<char>, n: Seq<char>, tg: Seq<char>, ig: Seq<char>, wc: Seq<char>, inner: Seq<char>, mva: Seq<char>, msa: Seq<char>, fvs: Seq<char>, mvs: Seq<char>, defer: Seq<char>, default_expr: Seq<char>, wrap: Seq<char>, fvv: Seq<char>, mvv: Seq<char>) -> Seq<char> {
    vis
        + " struct "@
        + sn
        + " "@
        + sig
        + " ("@
        + sty
        + ") "@
        + swc
        + " ; impl "@
        + sig
        + " :: proto_rs :: ProtoExt for "@
        + sn
        + " "@
        + stg
        + " "@
        + swc
        + " { const KIND : :: proto_rs :: ProtoKind = < "@
        + sty
        + " as :: proto_rs :: ProtoExt > :: KIND ; const WRAP_ROOT : bool = < "@
        + sty
        + " as :: proto_rs :: ProtoExt > :: WRAP_ROOT ; const ENCODED_SIZE_HINT : :: proto_rs :: EncodeSizeHint = < "@
        + sty
        + " as :: proto_rs :: ProtoExt > :: ENCODED_SIZE_HINT ; } impl "@
        + sig
        + " :: proto_rs :: ProtoShadowEncode < 'a , "@
        + n
        + " "@
        + tg
        + " > for "@
        + sn
        + " "@
        + stg
        + " "@
        + swc
        + " { # [inline] fn from_sun (value : & 'a "@
        + n
        + " "@
        + tg
        + ") -> Self { Self (< "@
        + sty
        + " as :: proto_rs :: ProtoShadowEncode < 'a , "@
        + inner
        + " > > :: from_sun (& "@
        + mva
        + ")) } } impl "@
        + sig
        + " :: proto_rs :: ProtoArchive for "@
        + sn
        + " "@
        + stg
        + " "@
        + swc
        + " { # [inline] fn is_default (& self) -> bool { < "@
        + sty
        + " as :: proto_rs :: ProtoArchive > :: is_default (& self . 0) } # [inline] fn encoded_size_hint < const TAG : u32 > (& self) -> :: proto_rs :: EncodeSizeHint { < "@
        + sty
        + " as :: proto_rs :: ProtoArchive > :: encoded_size_hint :: < TAG > (& self . 0) } # [inline] fn archive < const TAG : u32 > (& self , w : & mut impl :: proto_rs :: RevWriter) { < "@
        + sty
        + " as :: proto_rs :: ProtoArchive > :: archive :: < TAG > (& self . 0 , w) ; } } impl "@
        + ig
        + " :: proto_rs :: ProtoExt for "@
        + n
        + " "@
        + tg
        + " "@
        + wc
        + " { const KIND : :: proto_rs :: ProtoKind = < "@
        + inner
        + " as :: proto_rs :: ProtoExt > :: KIND ; const WRAP_ROOT : bool = < "@
        + inner
        + " as :: proto_rs :: ProtoExt > :: WRAP_ROOT ; } impl "@
        + ig
        + " :: proto_rs :: ProtoDecoder for "@
        + n
        + " "@
        + tg
        + " "@
        + wc
        + " { # [inline] fn finish (& mut self , state : & :: proto_rs :: DecodeState < '_ >) -> Result < () , :: proto_rs :: DecodeError > { < "@
        + inner
        + " as :: proto_rs :: ProtoDecoder > :: finish (& mut "@
        + msa
        + " , & state . field (0)) ? ; if state . pending () { "@
        + fvs
        + " "@
        + mvs
        + " } Ok (()) } # [inline] fn merge_field (value : & mut Self , tag : u32 , wire_type : :: proto_rs :: encoding :: WireType , buf : & mut impl :: proto_rs :: bytes :: Buf , ctx : :: proto_rs :: encoding :: DecodeContext ,) -> Result < () , :: proto_rs :: DecodeError > { let state = :: proto_rs :: DecodeState :: default () ; Self :: merge_field_with_state (value , tag , wire_type , buf , ctx , & state) ? ; Self :: finish (value , & state) } # [inline] fn merge_field_with_state (value : & mut Self , tag : u32 , wire_type : :: proto_rs :: encoding :: WireType , buf : & mut impl :: proto_rs :: bytes :: Buf , ctx : :: proto_rs :: encoding :: DecodeContext , state : & :: proto_rs :: DecodeState < '_ > ,) -> Result < () , :: proto_rs :: DecodeError > { < "@
        + inner
        + " as :: proto_rs :: ProtoDecoder > :: merge_field_with_state (& mut "@
        + mva
        + " , tag , wire_type , buf , ctx , & state . field (0)) } # [inline] fn merge (& mut self , wire_type : :: proto_rs :: encoding :: WireType , buf : & mut impl :: proto_rs :: bytes :: Buf , ctx : :: proto_rs :: encoding :: DecodeContext) -> Result < () , :: proto_rs :: DecodeError > { let state = :: proto_rs :: DecodeState :: default () ; self . merge_with_state (wire_type , buf , ctx , & state) ? ; self . finish (& state) } # [inline] fn merge_with_state (& mut self , wire_type : :: proto_rs :: encoding :: WireType , buf : & mut impl :: proto_rs :: bytes :: Buf , ctx : :: proto_rs :: encoding :: DecodeContext , state : & :: proto_rs :: DecodeState < '_ >) -> Result < () , :: proto_rs :: DecodeError > { < "@
        + inner
        + " as :: proto_rs :: ProtoDecoder > :: merge_with_state (& mut "@
        + msa
        + " , wire_type , buf , ctx , & state . field (0)) ? ; "@
        + defer
        + " Ok (()) } # [inline] fn decode (buf : impl :: proto_rs :: bytes :: Buf , ctx : :: proto_rs :: encoding :: DecodeContext) -> Result < Self , :: proto_rs :: DecodeError > where Self : :: proto_rs :: ProtoDefault , { < Self as :: proto_rs :: ProtoDecode > :: decode (buf , ctx) } } impl "@
        + ig
        + " :: proto_rs :: ProtoDefault for "@
        + n
        + " "@
        + tg
        + " "@
        + wc
        + " { # [inline] fn proto_default () -> Self { "@
        + default_expr
        + " } } impl "@
        + ig
        + " :: proto_rs :: ProtoDecode for "@
        + n
        + " "@
        + tg
        + " "@
        + wc
        + " { type ShadowDecoded = Self ; # [inline] fn decode (mut buf : impl :: proto_rs :: bytes :: Buf , ctx : :: proto_rs :: encoding :: DecodeContext) -> Result < Self , :: proto_rs :: DecodeError > { let inner = < "@
        + inner
        + " as :: proto_rs :: ProtoDecode > :: decode (buf , ctx) ? ; let mut value = "@
        + wrap
        + " ; "@
        + fvv
        + " "@
        + mvv
        + " Ok (value) } } impl "@
        + ig
        + " :: proto_rs :: ProtoShadowDecode < "@
        + n
        + " "@
        + tg
        + " > for "@
        + n
        + " "@
        + tg
        + " "@
        + wc
        + " { # [inline] fn to_sun (self) -> Result < "@
        + n
        + " "@
        + tg
        + " , :: proto_rs :: DecodeError > { Ok (self) } } impl "@
        + ig
        + " :: proto_rs :: ProtoEncode for "@
        + n
        + " "@
        + tg
        + " "@
        + wc
        + " { type Shadow < 'a > = "@
        + sn
        + " "@
        + stg
        + " ; }"@
}

fn transparent_body(vis: &str, sn: &str, sig: &str, stg: &str, swc: &str, sty: &str, n: &str, tg: &str, ig: &str, wc: &str, inner: &str, mva: &str, msa: &str, fvs: &str, mvs: &str, defer: &str, default_expr: &str, wrap: &str, fvv: &str, mvv: &str) -> (r: String)
    ensures
        r@ == transparent_body_spec(vis@, sn@, sig@, stg@, swc@, sty@, n@, tg@, ig@, wc@, inner@, mva@, msa@, fvs@, mvs@, defer@, default_expr@, wrap@, fvv@, mvv@),
{
    let mut r = String::new();
    push_str(&mut r, vis);
    push_str(&mut r, " struct ");
    push_str(&mut r, sn);
    push_str(&mut r, " ");
    push_str(&mut r, sig);
    push_str(&mut r, " (");
    push_str(&mut r, sty);
    push_str(&mut r, ") ");
    push_str(&mut r, swc);
    push_str(&mut r, " ; impl ");
    push_str(&mut r, sig);
    push_str(&mut r, " :: proto_rs :: ProtoExt for ");
    push_str(&mut r, sn);
    push_str(&mut r, " ");
    push_str(&mut r, stg);
    push_str(&mut r, " ");
    push_str(&mut r, swc);
    push_str(&mut r, " { const KIND : :: proto_rs :: ProtoKind = < ");
    push_str(&mut r, sty);
    push_str(&mut r, " as :: proto_rs :: ProtoExt > :: KIND ; const WRAP_ROOT : bool = < ");
    push_str(&mut r, sty);
    push_str(&mut r, " as :: proto_rs :: ProtoExt > :: WRAP_ROOT ; const ENCODED_SIZE_HINT : :: proto_rs :: EncodeSizeHint = < ");
    push_str(&mut r, sty);
    push_str(&mut r, " as :: proto_rs :: ProtoExt > :: ENCODED_SIZE_HINT ; } impl ");
    push_str(&mut r, sig);
    push_str(&mut r, " :: proto_rs :: ProtoShadowEncode < 'a , ");
    push_str(&mut r, n);
    push_str(&mut r, " ");
    push_str(&mut r, tg);
    push_str(&mut r, " > for ");
    push_str(&mut r, sn);
    push_str(&mut r, " ");
    push_str(&mut r, stg);
    push_str(&mut r, " ");
    push_str(&mut r, swc);
    push_str(&mut r, " { # [inline] fn from_sun (value : & 'a ");
    push_str(&mut r, n);
    push_str(&mut r, " ");
    push_str(&mut r, tg);
    push_str(&mut r, ") -> Self { Self (< ");
    push_str(&mut r, sty);
    push_str(&mut r, " as :: proto_rs :: ProtoShadowEncode < 'a , ");
    push_str(&mut r, inner);
    push_str(&mut r, " > > :: from_sun (& ");
    push_str(&mut r, mva);
    push_str(&mut r, ")) } } impl ");
    push_str(&mut r, sig);
    push_str(&mut r, " :: proto_rs :: ProtoArchive for ");
    push_str(&mut r, sn);
    push_str(&mut r, " ");
    push_str(&mut r, stg);
    push_str(&mut r, " ");
    push_str(&mut r, swc);
    push_str(&mut r, " { # [inline] fn is_default (& self) -> bool { < ");
    push_str(&mut r, sty);
    push_str(&mut r, " as :: proto_rs :: ProtoArchive > :: is_default (& self . 0) } # [inline] fn encoded_size_hint < const TAG : u32 > (& self) -> :: proto_rs :: EncodeSizeHint { < ");
    push_str(&mut r, sty);
    push_str(&mut r, " as :: proto_rs :: ProtoArchive > :: encoded_size_hint :: < TAG > (& self . 0) } # [inline] fn archive < const TAG : u32 > (& self , w : & mut impl :: proto_rs :: RevWriter) { < ");
    push_str(&mut r, sty);
    push_str(&mut r, " as :: proto_rs :: ProtoArchive > :: archive :: < TAG > (& self . 0 , w) ; } } impl ");
    push_str(&mut r, ig);
    push_str(&mut r, " :: proto_rs :: ProtoExt for ");
    push_str(&mut r, n);
    push_str(&mut r, " ");
    push_str(&mut r, tg);
    push_str(&mut r, " ");
    push_str(&mut r, wc);
    push_str(&mut r, " { const KIND : :: proto_rs :: ProtoKind = < ");
    push_str(&mut r, inner);
    push_str(&mut r, " as :: proto_rs :: ProtoExt > :: KIND ; const WRAP_ROOT : bool = < ");
    push_str(&mut r, inner);
    push_str(&mut r, " as :: proto_rs :: ProtoExt > :: WRAP_ROOT ; } impl ");
    push_str(&mut r, ig);
    push_str(&mut r, " :: proto_rs :: ProtoDecoder for ");
    push_str(&mut r, n);
    push_str(&mut r, " ");
    push_str(&mut r, tg);
    push_str(&mut r, " ");
    push_str(&mut r, wc);
    push_str(&mut r, " { # [inline] fn finish (& mut self , state : & :: proto_rs :: DecodeState < '_ >) -> Result < () , :: proto_rs :: DecodeError > { < ");
    push_str(&mut r, inner);
    push_str(&mut r, " as :: proto_rs :: ProtoDecoder > :: finish (& mut ");
    push_str(&mut r, msa);
    push_str(&mut r, " , & state . field (0)) ? ; if state . pending () { ");
    push_str(&mut r, fvs);
    push_str(&mut r, " ");
    push_str(&mut r, mvs);
    push_str(&mut r, " } Ok (()) } # [inline] fn merge_field (value : & mut Self , tag : u32 , wire_type : :: proto_rs :: encoding :: WireType , buf : & mut impl :: proto_rs :: bytes :: Buf , ctx : :: proto_rs :: encoding :: DecodeContext ,) -> Result < () , :: proto_rs :: DecodeError > { let state = :: proto_rs :: DecodeState :: default () ; Self :: merge_field_with_state (value , tag , wire_type , buf , ctx , & state) ? ; Self :: finish (value , & state) } # [inline] fn merge_field_with_state (value : & mut Self , tag : u32 , wire_type : :: proto_rs :: encoding :: WireType , buf : & mut impl :: proto_rs :: bytes :: Buf , ctx : :: proto_rs :: encoding :: DecodeContext , state : & :: proto_rs :: DecodeState < '_ > ,) -> Result < () , :: proto_rs :: DecodeError > { < ");
    push_str(&mut r, inner);
    push_str(&mut r, " as :: proto_rs :: ProtoDecoder > :: merge_field_with_state (& mut ");
    push_str(&mut r, mva);
    push_str(&mut r, " , tag , wire_type , buf , ctx , & state . field (0)) } # [inline] fn merge (& mut self , wire_type : :: proto_rs :: encoding :: WireType , buf : & mut impl :: proto_rs :: bytes :: Buf , ctx : :: proto_rs :: encoding :: DecodeContext) -> Result < () , :: proto_rs :: DecodeError > { let state = :: proto_rs :: DecodeState :: default () ; self . merge_with_state (wire_type , buf , ctx , & state) ? ; self . finish (& state) } # [inline] fn merge_with_state (& mut self , wire_type : :: proto_rs :: encoding :: WireType , buf : & mut impl :: proto_rs :: bytes :: Buf , ctx : :: proto_rs :: encoding :: DecodeContext , state : & :: proto_rs :: DecodeState < '_ >) -> Result < () , :: proto_rs :: DecodeError > { < ");
    push_str(&mut r, inner);
    push_str(&mut r, " as :: proto_rs :: ProtoDecoder > :: merge_with_state (& mut ");
    push_str(&mut r, msa);
    push_str(&mut r, " , wire_type , buf , ctx , & state . field (0)) ? ; ");
    push_str(&mut r, defer);
    push_str(&mut r, " Ok (()) } # [inline] fn decode (buf : impl :: proto_rs :: bytes :: Buf , ctx : :: proto_rs :: encoding :: DecodeContext) -> Result < Self , :: proto_rs :: DecodeError > where Self : :: proto_rs :: ProtoDefault , { < Self as :: proto_rs :: ProtoDecode > :: decode (buf , ctx) } } impl ");
    push_str(&mut r, ig);
    push_str(&mut r, " :: proto_rs :: ProtoDefault for ");
    push_str(&mut r, n);
    push_str(&mut r, " ");
    push_str(&mut r, tg);
    push_str(&mut r, " ");
    push_str(&mut r, wc);
    push_str(&mut r, " { # [inline] fn proto_default () -> Self { ");
    push_str(&mut r, default_expr);
    push_str(&mut r, " } } impl ");
    push_str(&mut r, ig);
    push_str(&mut r, " :: proto_rs :: ProtoDecode for ");
    push_str(&mut r, n);
    push_str(&mut r, " ");
    push_str(&mut r, tg);
    push_str(&mut r, " ");
    push_str(&mut r, wc);
    push_str(&mut r, " { type ShadowDecoded = Self ; # [inline] fn decode (mut buf : impl :: proto_rs :: bytes :: Buf , ctx : :: proto_rs :: encoding :: DecodeContext) -> Result < Self , :: proto_rs :: DecodeError > { let inner = < ");
    push_str(&mut r, inner);
    push_str(&mut r, " as :: proto_rs :: ProtoDecode > :: decode (buf , ctx) ? ; let mut value = ");
    push_str(&mut r, wrap);
    push_str(&mut r, " ; ");
    push_str(&mut r, fvv);
    push_str(&mut r, " ");
    push_str(&mut r, mvv);
    push_str(&mut r, " Ok (value) } } impl ");
    push_str(&mut r, ig);
    push_str(&mut r, " :: proto_rs :: ProtoShadowDecode < ");
    push_str(&mut r, n);
    push_str(&mut r, " ");
    push_str(&mut r, tg);
    push_str(&mut r, " > for ");
    push_str(&mut r, n);
    push_str(&mut r, " ");
    push_str(&mut r, tg);
    push_str(&mut r, " ");
    push_str(&mut r, wc);
    push_str(&mut r, " { # [inline] fn to_sun (self) -> Result < ");
    push_str(&mut r, n);
    push_str(&mut r, " ");
    push_str(&mut r, tg);
    push_str(&mut r, " , :: proto_rs :: DecodeError > { Ok (self) } } impl ");
    push_str(&mut r, ig);
    push_str(&mut r, " :: proto_rs :: ProtoEncode for ");
    push_str(&mut r, n);
    push_str(&mut r, " ");
    push_str(&mut r, tg);
    push_str(&mut r, " ");
    push_str(&mut r, wc);
    push_str(&mut r, " { type Shadow < 'a > = ");
    push_str(&mut r, sn);
    push_str(&mut r, " ");
    push_str(&mut r, stg);
    push_str(&mut r, " ; }");
    reveal(transparent_body_spec);
    assert(r@ =~= transparent_body_spec(vis@, sn@, sig@, stg@, swc@, sty@, n@, tg@, ig@, wc@, inner@, mva@, msa@, fvs@, mvs@, defer@, default_expr@, wrap@, fvv@, mvv@));
    r
}

/// The call of a message-level validator on `arg`, when there is one.
pub open spec fn message_validation_spec(v: Option<String>, arg: Seq<char>) -> Seq<char> {
    match v {
        Some(p) => p@ + " ("@ + arg + ") ? ;"@,
        None => Seq::empty(),
    }
}

fn message_validation(v: &Option<String>, arg: &str) -> (r: String)
    ensures
        r@ == message_validation_spec(*v, arg@),
{
    match v {
        Some(p) => {
            let mut r = string_of(p.as_str());
            push_str(&mut r, " (");
            push_str(&mut r, arg);
            push_str(&mut r, ") ? ;");
            r
        },
        None => String::new(),
    }
}

/// The value of a transparent struct built around `inner_expr`, as a tuple struct, a struct with a
/// named field, or a unit struct.
pub open spec fn transparent_wrap_spec(f: FieldInfo, original: FieldsModel, inner_expr: Seq<char>) -> Seq<char> {
    match original {
        FieldsModel::Unnamed(_) => "Self ("@ + inner_expr + ")"@,
        FieldsModel::Named(_) => "Self { "@ + access_name(f.access) + " : "@ + inner_expr + " }"@,
        FieldsModel::Unit => "Self"@,
    }
}

fn transparent_wrap(f: &FieldInfo, original: &FieldsModel, inner_expr: &str) -> (r: String)
    requires
        original is Named ==> f.access is Named,
    ensures
        r@ == transparent_wrap_spec(*f, *original, inner_expr@),
{
    match original {
        FieldsModel::Unnamed(_) => {
            let mut r = string_of("Self (");
            push_str(&mut r, inner_expr);
            push_str(&mut r, ")");
            r
        },
        FieldsModel::Named(_) => {
            let mut r = string_of("Self { ");
            match f.access.ident() {
                Some(id) => push_str(&mut r, id.as_str()),
                None => {},
            }
            push_str(&mut r, " : ");
            push_str(&mut r, inner_expr);
            push_str(&mut r, " }");
            r
        },
        FieldsModel::Unit => string_of("Self"),
    }
}

/// The impls of a transparent struct: a shadow wrapper around the inner field's shadow, and
/// impls that encode and decode the struct as its inner field, running the field's and the
/// message's validators after decoding.
pub open spec fn transparent_impl_spec(
    name: Seq<char>,
    vis: Seq<char>,
    g: ImplGenerics,
    f: FieldInfo,
    original: FieldsModel,
    validator: Option<String>,
) -> Seq<char> {
    let inner = f.field_ty.code@;
    transparent_body_spec(
        vis,
        name + "Shadow"@,
        g.shadow_impl_generics@,
        g.shadow_ty_generics@,
        g.shadow_where_clause@,
        "< "@ + inner + " as :: proto_rs :: ProtoEncode > :: Shadow < 'a >"@,
        name,
        g.ty_generics@,
        g.impl_generics@,
        g.where_clause@,
        inner,
        access_code(f.access, "value"@),
        access_code(f.access, "self"@),
        validation_spec(f, access_code(f.access, "self"@)),
        message_validation_spec(validator, "self"@),
        if f.config.validator is Some || validator is Some {
            "state . defer () ;"@
        } else {
            Seq::empty()
        },
        transparent_wrap_spec(
            f,
            original,
            "< "@ + inner + " as :: proto_rs :: ProtoDefault > :: proto_default ()"@,
        ),
        transparent_wrap_spec(f, original, "inner"@),
        validation_spec(f, access_code(f.access, "value"@)),
        message_validation_spec(validator, "& mut value"@),
    )
}

/// The impls of a transparent struct `name` with visibility `vis` around `field` (see
/// `transparent_impl_spec`); `None` when the field's or the message's validator does not read
/// as a path.
pub fn generate_transparent_struct_impl(
    name: &str,
    vis: &str,
    generics: &ImplGenerics,
    field: &FieldInfo,
    original: &FieldsModel,
    validator: &Option<String>,
) -> (r: Option<String>)
    requires
        original is Named ==> field.access is Named,
    ensures
        r is Some <==> path_ok(field.config.validator) && path_ok(*validator),
        r matches Some(c) ==> c@ == transparent_impl_spec(name@, vis@, *generics, *field, *original, *validator),
{
    if !opt_path_ok(&field.config.validator) || !opt_path_ok(validator) {
        return None;
    }
    let inner = field.field_ty.code.as_str();
    let mut sn = string_of(name);
    push_str(&mut sn, "Shadow");
    let mut sty = string_of("< ");
    push_str(&mut sty, inner);
    push_str(&mut sty, " as :: proto_rs :: ProtoEncode > :: Shadow < 'a >");
    let mva = field.access.access_tokens("value");
    let msa = field.access.access_tokens("self");
    let fvs = field_validation(field, msa.as_str());
    let fvv = field_validation(field, mva.as_str());
    let mvs = message_validation(validator, "self");
    let mvv = message_validation(validator, "& mut value");
    let defer = if field.config.validator.is_some() || validator.is_some() {
        string_of("state . defer () ;")
    } else {
        String::new()
    };
    let mut default_inner = string_of("< ");
    push_str(&mut default_inner, inner);
    push_str(&mut default_inner, " as :: proto_rs :: ProtoDefault > :: proto_default ()");
    let default_expr = transparent_wrap(field, original, default_inner.as_str());
    let wrap = transparent_wrap(field, original, "inner");
    Some(transparent_body(
        vis,
        sn.as_str(),
        generics.shadow_impl_generics.as_str(),
        generics.shadow_ty_generics.as_str(),
        generics.shadow_where_clause.as_str(),
        sty.as_str(),
        name,
        generics.ty_generics.as_str(),
        generics.impl_generics.as_str(),
        generics.where_clause.as_str(),
        inner,
        mva.as_str(),
        msa.as_str(),
        fvs.as_str(),
        mvs.as_str(),
        defer.as_str(),
        default_expr.as_str(),
        wrap.as_str(),
        fvv.as_str(),
        mvv.as_str(),
    ))
}

fn field_validation(f: &FieldInfo, access: &str) -> (r: String)
    ensures
        r@ == validation_spec(*f, access@),
{
    match &f.config.validator {
        Some(v) => {
            let mut s = string_of(v.as_str());
            push_str(&mut s, " (& mut ");
            push_str(&mut s, access);
            push_str(&mut s, ") ? ;");
            s
        },
        None => String::new(),
    }
}

/// The shadow's type: its name with the lifetime `lt` and the item's type and const parameters.
pub open spec fn shadow_type_spec(sn: Seq<char>, args: Seq<String>, lt: Seq<char>) -> Seq<char> {
    sn + " < "@ + lt + shadow_args_spec(args) + " >"@
}

pub open spec fn shadow_args_spec(args: Seq<String>) -> Seq<char>
    decreases args.len(),
{
    if args.len() == 0 {
        Seq::empty()
    } else {
        shadow_args_spec(args.drop_last()) + " , "@ + args.last()@
    }
}

fn shadow_type(sn: &str, args: &Vec<String>, lt: &str) -> (r: String)
    ensures
        r@ == shadow_type_spec(sn@, args@, lt@),
{
    let mut a = String::new();
    let n = args.len();
    let mut i: usize = 0;
    while i < n
        invariant
            n == args@.len(),
            i <= n,
            a@ == shadow_args_spec(args@.subrange(0, i as int)),
        decreases n - i,
    {
        proof {
            let q = args@.subrange(0, i + 1);
            assert(q.drop_last() =~= args@.subrange(0, i as int));
            assert(q.last() == args@[i as int]);
        }
        push_str(&mut a, " , ");
        push_str(&mut a, args[i].as_str());
        i = i + 1;
    }
    assert(args@.subrange(0, n as int) =~= args@);
    let mut r = string_of(sn);
    push_str(&mut r, " < ");
    push_str(&mut r, lt);
    push_str(&mut r, a.as_str());
    push_str(&mut r, " >");
    r
}

/// Some field reads through a getter.
pub open spec fn has_getters(fs: Seq<FieldInfo>) -> bool {
    exists|i: int| 0 <= i < fs.len() && (#[trigger] fs[i]).config.getter is Some
}

/// No post-decode hook, field validator or message validator runs after decoding.
pub open spec fn no_post_decode(fs: Seq<FieldInfo>, validator: Option<String>) -> bool {
    pieces_spec(piece_post_hook(), fs, "shadow"@, false).len() == 0
        && pieces_spec(piece_validator_hook(), fs, "shadow"@, false).len() == 0 && validator is None
}

/// The `post_decode` hook of a struct or of one of its `sun` types, returning `ret`.
pub open spec fn post_decode_spec(fs: Seq<FieldInfo>, validator: Option<String>, ret: Seq<char>) -> Seq<char> {
    if no_post_decode(fs, validator) {
        Seq::empty()
    } else {
        post_decode_fn_spec(
            pieces_spec(piece_post_hook(), fs, "shadow"@, false),
            pieces_spec(piece_validator_hook(), fs, "shadow"@, false),
            message_validation_spec(validator, "& mut shadow"@),
            ret,
        )
    }
}

/// The struct built from a `sun` type read through getters.
pub open spec fn sun_struct_init_spec(fs: Seq<FieldInfo>, original: FieldsModel) -> Seq<char> {
    let inits = pieces_spec(piece_sun_init(), fs, "value"@, false);
    match original {
        FieldsModel::Named(_) => "Self { "@ + inits + "}"@,
        FieldsModel::Unnamed(_) => "Self ("@ + inits + ")"@,
        FieldsModel::Unit => "Self"@,
    }
}

/// The impls of each `sun` type of a struct, in order.
pub open spec fn struct_suns_spec(
    name: Seq<char>,
    g: ImplGenerics,
    fs: Seq<FieldInfo>,
    original: FieldsModel,
    validator: Option<String>,
    vext: Option<String>,
    suns: Seq<String>,
) -> Seq<char>
    decreases suns.len(),
{
    if suns.len() == 0 {
        Seq::empty()
    } else {
        let t = suns.last()@;
        struct_suns_spec(name, g, fs, original, validator, vext, suns.drop_last()) + struct_sun_impl_spec(
            g.impl_generics@,
            g.where_clause@,
            t,
            name,
            g.ty_generics@,
            if has_getters(fs) {
                sun_shadow_encode_spec(
                    g.shadow_impl_generics@,
                    t,
                    name,
                    g.ty_generics@,
                    g.shadow_where_clause@,
                    sun_struct_init_spec(fs, original),
                )
            } else {
                Seq::empty()
            },
            post_decode_spec(
                fs,
                validator,
                "< "@ + name + " "@ + g.ty_generics@ + " as :: proto_rs :: ProtoShadowDecode < "@ + t
                    + " > > :: to_sun (shadow)"@,
            ),
            vext_spec(vext),
        )
    }
}

/// The shadow struct of a struct, by the shape of its fields.
pub open spec fn struct_shadow_spec(vis: Seq<char>, sn: Seq<char>, g: ImplGenerics, fs: Seq<FieldInfo>, original: FieldsModel) -> Seq<char> {
    let defs = pieces_spec(piece_shadow_def(), fs, "self"@, false);
    match original {
        FieldsModel::Named(_) => shadow_struct_named_spec(vis, sn, g.shadow_impl_generics@, g.shadow_where_clause@, defs),
        FieldsModel::Unnamed(_) => shadow_struct_tuple_spec(vis, sn, g.shadow_impl_generics@, g.shadow_where_clause@, defs),
        FieldsModel::Unit => shadow_struct_unit_spec(vis, sn, g.shadow_impl_generics@, g.shadow_where_clause@),
    }
}

/// The shadow built from the struct `value`.
pub open spec fn struct_shadow_init_spec(fs: Seq<FieldInfo>, original: FieldsModel, use_getters: bool) -> Seq<char> {
    let inits = pieces_spec(piece_shadow_init(), fs, "value"@, use_getters);
    match original {
        FieldsModel::Named(_) => "Self { "@ + inits + "__proto_phantom : :: core :: marker :: PhantomData , }"@,
        FieldsModel::Unnamed(_) => "Self ("@ + inits + ":: core :: marker :: PhantomData ,)"@,
        FieldsModel::Unit => "Self { __proto_phantom : :: core :: marker :: PhantomData }"@,
    }
}

/// The impls of a struct `name` that is not transparent: its shadow struct (named `name` and
/// `Shadow`, holding the kept fields' shadows) with the impls that build and archive it, then the
/// struct's decoder (the match arms of its tagged fields, finishing, hooks and validators), its
/// default, its encoder through the shadow, and the impls of its `sun` types. The shadow reads
/// getters only when there is no `sun` type.
pub open spec fn struct_impl_spec(
    name: Seq<char>,
    vis: Seq<char>,
    g: ImplGenerics,
    shadow_args: Seq<String>,
    fs: Seq<FieldInfo>,
    original: FieldsModel,
    validator: Option<String>,
    vext: Option<String>,
    suns: Seq<String>,
) -> Seq<char> {
    let sn = name + "Shadow"@;
    let isdef = pieces_spec(piece_is_default(), fs, "self"@, false);
    let merge_hooks = pieces_spec(piece_post_hook(), fs, "(* self)"@, false);
    let merge_validators = pieces_spec(piece_validator_hook(), fs, "(* self)"@, false);
    struct_shadow_spec(vis, sn, g, fs, original) + shadow_impls_body_spec(
        g.shadow_impl_generics@,
        sn,
        g.shadow_ty_generics@,
        g.shadow_where_clause@,
        name,
        g.ty_generics@,
        size_hint_fold_spec(fs),
        struct_shadow_init_spec(fs, original, suns.len() == 0),
        if isdef.len() == 0 { "true"@ } else { isdef },
        pieces_spec(piece_size_hint(), fs, "self"@, false),
        archive_fields_spec(fs),
    ) + proto_body_spec(
        g.impl_generics@,
        name,
        g.ty_generics@,
        g.where_clause@,
        shadow_type_spec(sn, shadow_args, "'_"@),
        pieces_spec(piece_finish(), fs, "self"@, false),
        merge_hooks,
        merge_validators,
        message_validation_spec(validator, "self"@),
        pieces_spec(piece_decode_arm(), fs, "value"@, false),
        if merge_hooks.len() > 0 || merge_validators.len() > 0 || validator is Some {
            "state . defer () ;"@
        } else {
            Seq::empty()
        },
        pieces_spec(piece_post_hook(), fs, "value"@, false),
        pieces_spec(piece_validator_hook(), fs, "value"@, false),
        message_validation_spec(validator, "& mut value"@),
        default_expr_spec(fs, original),
        post_decode_spec(fs, validator, "Ok (shadow)"@),
        if suns.len() > 0 { Seq::empty() } else { vext_spec(vext) },
        shadow_type_spec(sn, shadow_args, "'a"@),
        pieces_spec(piece_cheap_hint(), fs, "self"@, false),
        struct_suns_spec(name, g, fs, original, validator, vext, suns),
    )
}

/// Every path, getter and conversion the impls of a struct use reads as code.
pub open spec fn struct_impl_valid(
    fs: Seq<FieldInfo>,
    validator: Option<String>,
    vext: Option<String>,
    suns_given: bool,
) -> bool {
    &&& forall|i: int|
        #![trigger fs[i]]
        0 <= i < fs.len() ==> {
            &&& piece_valid(piece_shadow_init(), fs[i], !suns_given)
            &&& piece_valid(piece_post_hook(), fs[i], false)
            &&& piece_valid(piece_validator_hook(), fs[i], false)
            &&& piece_valid(piece_decode_arm(), fs[i], false)
            &&& (suns_given && has_getters(fs) ==> piece_valid(piece_sun_init(), fs[i], false))
        }
    &&& path_ok(validator)
    &&& path_ok(vext)
}

fn post_decode(fields: &Vec<FieldInfo>, validator: &Option<String>, ret: &str) -> (r: String)
    requires
        forall|i: int| 0 <= i < fields@.len() ==> piece_valid(piece_post_hook(), #[trigger] fields@[i], false),
        forall|i: int| 0 <= i < fields@.len() ==> piece_valid(piece_validator_hook(), #[trigger] fields@[i], false),
    ensures
        r@ == post_decode_spec(fields@, *validator, ret@),
{
    let hooks = pieces(6, fields, "shadow", false);
    let vhooks = pieces(7, fields, "shadow", false);
    if hooks.as_str().unicode_len() == 0 && vhooks.as_str().unicode_len() == 0 && validator.is_none() {
        String::new()
    } else {
        let msg = message_validation(validator, "& mut shadow");
        post_decode_fn(hooks.as_str(), vhooks.as_str(), msg.as_str(), ret)
    }
}

/// The impls of a struct `name` that is not transparent (see `struct_impl_spec`); `None` when a
/// path, getter or conversion given in an option does not read as code.
pub fn generate_struct_impl(
    name: &str,
    vis: &str,
    generics: &ImplGenerics,
    shadow_args: &Vec<String>,
    fields: &Vec<FieldInfo>,
    original: &FieldsModel,
    validator: &Option<String>,
    validator_with_ext: &Option<String>,
    sun_tys: &Vec<String>,
) -> (r: Option<String>)
    requires
        accesses_fit(fields@, *original),
    ensures
        r is Some <==> struct_impl_valid(fields@, *validator, *validator_with_ext, sun_tys@.len() > 0),
        r matches Some(c) ==> c@ == struct_impl_spec(
            name@,
            vis@,
            *generics,
            shadow_args@,
            fields@,
            *original,
            *validator,
            *validator_with_ext,
            sun_tys@,
        ),
{
    let suns_given = sun_tys.len() > 0;
    let n = fields.len();
    let mut getters = false;
    let mut i: usize = 0;
    while i < n
        invariant
            n == fields@.len(),
            i <= n,
            getters <==> exists|k: int| 0 <= k < i && (#[trigger] fields@[k]).config.getter is Some,
        decreases n - i,
    {
        if fields[i].config.getter.is_some() {
            getters = true;
        }
        i = i + 1;
    }
    assert(getters == has_getters(fields@));
    let mut i: usize = 0;
    while i < n
        invariant
            n == fields@.len(),
            i <= n,
            getters == has_getters(fields@),
            suns_given == (sun_tys@.len() > 0),
            forall|k: int|
                #![trigger fields@[k]]
                0 <= k < i ==> {
                    &&& piece_valid(piece_shadow_init(), fields@[k], !suns_given)
                    &&& piece_valid(piece_post_hook(), fields@[k], false)
                    &&& piece_valid(piece_validator_hook(), fields@[k], false)
                    &&& piece_valid(piece_decode_arm(), fields@[k], false)
                    &&& (suns_given && getters ==> piece_valid(piece_sun_init(), fields@[k], false))
                },
        decreases n - i,
    {
        let f = &fields[i];
        let ok = piece_valid_exec(1, f, !suns_given) && piece_valid_exec(6, f, false) && piece_valid_exec(7, f, false)
            && piece_valid_exec(9, f, false) && (!(suns_given && getters) || piece_valid_exec(8, f, false));
        if !ok {
            assert(!struct_impl_valid(fields@, *validator, *validator_with_ext, sun_tys@.len() > 0)) by {
                let k = i as int;
                assert(fields@[k] == *f);
            }
            return None;
        }
        i = i + 1;
    }
    if !opt_path_ok(validator) || !opt_path_ok(validator_with_ext) {
        return None;
    }
    let vext = match validator_with_ext {
        Some(p) => validate_with_ext_impl(p.as_str()),
        None => String::new(),
    };
    assert(vext@ == vext_spec(*validator_with_ext));
    let mut sn = string_of(name);
    push_str(&mut sn, "Shadow");
    // The shadow.
    let defs = pieces(0, fields, "self", false);
    let shadow_struct = match original {
        FieldsModel::Named(_) => shadow_struct_named(
            vis,
            sn.as_str(),
            generics.shadow_impl_generics.as_str(),
            generics.shadow_where_clause.as_str(),
            defs.as_str(),
        ),
        FieldsModel::Unnamed(_) => shadow_struct_tuple(
            vis,
            sn.as_str(),
            generics.shadow_impl_generics.as_str(),
            generics.shadow_where_clause.as_str(),
            defs.as_str(),
        ),
        FieldsModel::Unit => shadow_struct_unit(
            vis,
            sn.as_str(),
            generics.shadow_impl_generics.as_str(),
            generics.shadow_where_clause.as_str(),
        ),
    };
    let inits = pieces(1, fields, "value", !suns_given);
    let init = match original {
        FieldsModel::Named(_) => {
            let mut r = string_of("Self { ");
            push_str(&mut r, inits.as_str());
            push_str(&mut r, "__proto_phantom : :: core :: marker :: PhantomData , }");
            r
        },
        FieldsModel::Unnamed(_) => {
            let mut r = string_of("Self (");
            push_str(&mut r, inits.as_str());
            push_str(&mut r, ":: core :: marker :: PhantomData ,)");
            r
        },
        FieldsModel::Unit => string_of("Self { __proto_phantom : :: core :: marker :: PhantomData }"),
    };
    assert(init@ == struct_shadow_init_spec(fields@, *original, sun_tys@.len() == 0));
    let isdef_pieces = pieces(2, fields, "self", false);
    let isdef = if isdef_pieces.as_str().unicode_len() == 0 { string_of("true") } else { isdef_pieces };
    let shadow = shadow_impls_body(
        generics.shadow_impl_generics.as_str(),
        sn.as_str(),
        generics.shadow_ty_generics.as_str(),
        generics.shadow_where_clause.as_str(),
        name,
        generics.ty_generics.as_str(),
        size_hint_fold(fields).as_str(),
        init.as_str(),
        isdef.as_str(),
        pieces(3, fields, "self", false).as_str(),
        archive_fields(fields).as_str(),
    );
    // The `sun` types.
    let sun_init = if suns_given && getters {
        let inits = pieces(8, fields, "value", false);
        match original {
            FieldsModel::Named(_) => {
                let mut r = string_of("Self { ");
                push_str(&mut r, inits.as_str());
                push_str(&mut r, "}");
                r
            },
            FieldsModel::Unnamed(_) => {
                let mut r = string_of("Self (");
                push_str(&mut r, inits.as_str());
                push_str(&mut r, ")");
                r
            },
            FieldsModel::Unit => string_of("Self"),
        }
    } else {
        String::new()
    };
    assert(suns_given && getters ==> sun_init@ == sun_struct_init_spec(fields@, *original));
    let mut suns = String::new();
    let m = sun_tys.len();
    let mut k: usize = 0;
    while k < m
        invariant
            m == sun_tys@.len(),
            k <= m,
            n == fields@.len(),
            suns_given == (m > 0),
            getters == has_getters(fields@),
            vext@ == vext_spec(*validator_with_ext),
            suns_given && getters ==> sun_init@ == sun_struct_init_spec(fields@, *original),
            forall|j: int| 0 <= j < n ==> piece_valid(piece_post_hook(), #[trigger] fields@[j], false),
            forall|j: int| 0 <= j < n ==> piece_valid(piece_validator_hook(), #[trigger] fields@[j], false),
            suns@ == struct_suns_spec(
                name@,
                *generics,
                fields@,
                *original,
                *validator,
                *validator_with_ext,
                sun_tys@.subrange(0, k as int),
            ),
        decreases m - k,
    {
        let t = sun_tys[k].as_str();
        proof {
            let q = sun_tys@.subrange(0, k + 1);
            assert(q.drop_last() =~= sun_tys@.subrange(0, k as int));
            assert(q.last() == sun_tys@[k as int]);
        }
        let sse = if getters {
            sun_shadow_encode(
                generics.shadow_impl_generics.as_str(),
                t,
                name,
                generics.ty_generics.as_str(),
                generics.shadow_where_clause.as_str(),
                sun_init.as_str(),
            )
        } else {
            String::new()
        };
        let mut ret = string_of("< ");
        push_str(&mut ret, name);
        push_str(&mut ret, " ");
        push_str(&mut ret, generics.ty_generics.as_str());
        push_str(&mut ret, " as :: proto_rs :: ProtoShadowDecode < ");
        push_str(&mut ret, t);
        push_str(&mut ret, " > > :: to_sun (shadow)");
        let sunpd = post_decode(fields, validator, ret.as_str());
        let imp = struct_sun_impl(
            generics.impl_generics.as_str(),
            generics.where_clause.as_str(),
            t,
            name,
            generics.ty_generics.as_str(),
            sse.as_str(),
            sunpd.as_str(),
            vext.as_str(),
        );
        push_str(&mut suns, imp.as_str());
        k = k + 1;
    }
    assert(sun_tys@.subrange(0, m as int) =~= sun_tys@);
    // The struct's own impls.
    let merge_hooks = pieces(6, fields, "(* self)", false);
    let merge_validators = pieces(7, fields, "(* self)", false);
    let defer = if merge_hooks.as_str().unicode_len() > 0 || merge_validators.as_str().unicode_len() > 0
        || validator.is_some() {
        string_of("state . defer () ;")
    } else {
        String::new()
    };
    let vproto = if suns_given { String::new() } else { string_of(vext.as_str()) };
    let proto = proto_body(
        generics.impl_generics.as_str(),
        name,
        generics.ty_generics.as_str(),
        generics.where_clause.as_str(),
        shadow_type(sn.as_str(), shadow_args, "'_").as_str(),
        pieces(4, fields, "self", false).as_str(),
        merge_hooks.as_str(),
        merge_validators.as_str(),
        message_validation(validator, "self").as_str(),
        pieces(9, fields, "value", false).as_str(),
        defer.as_str(),
        pieces(6, fields, "value", false).as_str(),
        pieces(7, fields, "value", false).as_str(),
        message_validation(validator, "& mut value").as_str(),
        build_proto_default_expr(fields, original).as_str(),
        post_decode(fields, validator, "Ok (shadow)").as_str(),
        vproto.as_str(),
        shadow_type(sn.as_str(), shadow_args, "'a").as_str(),
        pieces(5, fields, "self", false).as_str(),
        suns.as_str(),
    );
    let mut r = shadow_struct;
    push_str(&mut r, shadow.as_str());
    push_str(&mut r, proto.as_str());
    Some(r)
}

/// The bounds of a transparent struct's impls on its inner type (code `inner`).
pub open spec fn inner_bounds_spec(inner: Seq<char>) -> Seq<Seq<char>> {
    seq![
        inner + " : :: proto_rs :: ProtoEncode + :: proto_rs :: ProtoDecode + :: proto_rs :: ProtoDecoder + :: proto_rs :: ProtoExt"@,
        "for < '__proto > < "@ + inner + " as :: proto_rs :: ProtoEncode > :: Shadow < '__proto > : :: proto_rs :: ProtoArchive + :: proto_rs :: ProtoExt"@,
        "for < '__proto > < "@ + inner + " as :: proto_rs :: ProtoEncode > :: Shadow < '__proto > : :: proto_rs :: ProtoShadowEncode < '__proto , "@ + inner + " >"@,
        "< "@ + inner + " as :: proto_rs :: ProtoDecode > :: ShadowDecoded : :: proto_rs :: ProtoShadowDecode < "@ + inner + " >"@,
    ]
}

/// The bounds on each type parameter the inner type uses, in order.
pub open spec fn param_bounds_spec(ps: Seq<Seq<char>>) -> Seq<Seq<char>>
    decreases ps.len(),
{
    if ps.len() == 0 {
        Seq::empty()
    } else {
        let p = ps.last();
        param_bounds_spec(ps.drop_last()).push(
            p + " : :: proto_rs :: ProtoEncode + :: proto_rs :: ProtoDecode + :: proto_rs :: ProtoDecoder + :: proto_rs :: ProtoExt"@,
        ).push("for < '__proto > < "@ + p + " as :: proto_rs :: ProtoEncode > :: Shadow < '__proto > : :: proto_rs :: ProtoArchive + :: proto_rs :: ProtoExt"@)
    }
}

fn cat2(a: &str, b: &str) -> (r: String)
    ensures
        r@ == a@ + b@,
{
    let mut r = string_of(a);
    push_str(&mut r, b);
    r
}

fn cat3(a: &str, b: &str, c: &str) -> (r: String)
    ensures
        r@ == a@ + b@ + c@,
{
    let mut r = string_of(a);
    push_str(&mut r, b);
    push_str(&mut r, c);
    r
}

/// The where-predicates of a transparent struct's impls: on its inner type `inner` (with code
/// `inner_code`), and on each of the item's type parameters `params` that the inner type uses,
/// in ascending order of name.
pub fn transparent_bounds(inner_code: &str, inner: &RustType, params: &Vec<String>) -> (r: Vec<String>)
    ensures
        exists|ps: Seq<Seq<char>>|
            #![trigger param_bounds_spec(ps)]
            strictly_sorted(ps) && ps.to_set() == used_params_type(*inner, views(params@).to_set())
                && views(r@) == inner_bounds_spec(inner_code@) + param_bounds_spec(ps),
{
    let used = used_type_params(params, inner).to_vec();
    let mut r: Vec<String> = Vec::new();
    r.push(cat2(inner_code, " : :: proto_rs :: ProtoEncode + :: proto_rs :: ProtoDecode + :: proto_rs :: ProtoDecoder + :: proto_rs :: ProtoExt"));
    r.push(cat3("for < '__proto > < ", inner_code, " as :: proto_rs :: ProtoEncode > :: Shadow < '__proto > : :: proto_rs :: ProtoArchive + :: proto_rs :: ProtoExt"));
    let mut third = cat3("for < '__proto > < ", inner_code, " as :: proto_rs :: ProtoEncode > :: Shadow < '__proto > : :: proto_rs :: ProtoShadowEncode < '__proto , ");
    push_str(&mut third, inner_code);
    push_str(&mut third, " >");
    r.push(third);
    let mut fourth = cat3("< ", inner_code, " as :: proto_rs :: ProtoDecode > :: ShadowDecoded : :: proto_rs :: ProtoShadowDecode < ");
    push_str(&mut fourth, inner_code);
    push_str(&mut fourth, " >");
    r.push(fourth);
    proof {
        assert(views(r@) =~= inner_bounds_spec(inner_code@));
    }
    let n = used.len();
    let mut i: usize = 0;
    while i < n
        invariant
            n == used@.len(),
            i <= n,
            views(r@) == inner_bounds_spec(inner_code@) + param_bounds_spec(views(used@).subrange(0, i as int)),
        decreases n - i,
    {
        let p = used[i].as_str();
        let ghost before = r@;
        let a = cat2(p, " : :: proto_rs :: ProtoEncode + :: proto_rs :: ProtoDecode + :: proto_rs :: ProtoDecoder + :: proto_rs :: ProtoExt");
        let b = cat3("for < '__proto > < ", p, " as :: proto_rs :: ProtoEncode > :: Shadow < '__proto > : :: proto_rs :: ProtoArchive + :: proto_rs :: ProtoExt");
        let ghost av = a@;
        let ghost bv = b@;
        r.push(a);
        r.push(b);
        proof {
            let q = views(used@).subrange(0, i + 1);
            assert(q.drop_last() =~= views(used@).subrange(0, i as int));
            assert(q.last() == used@[i as int]@);
            assert(views(r@) =~= views(before).push(av).push(bv));
            assert(param_bounds_spec(q) == param_bounds_spec(q.drop_last()).push(av).push(bv));
            assert(views(r@) =~= inner_bounds_spec(inner_code@) + param_bounds_spec(q));
        }
        i = i + 1;
    }
    assert(views(used@).subrange(0, n as int) =~= views(used@));
    r
}

} // verus!
