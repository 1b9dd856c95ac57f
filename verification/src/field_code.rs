//! The Rust code that binds, converts, decodes, defaults and clears a message's fields.
//!
//! Code is produced as text in the spacing of a rendered token stream (`self . name`,
//! `:: core :: default :: Default :: default ()`); paths and expressions given in field options
//! are spliced in as written, once they are known to read as paths and tokens.

use vstd::prelude::*;

use crate::field::{
    FieldConfig, ParsedFieldType, is_numeric_enum, is_numeric_enum_spec, is_value_encode_type,
    is_value_encode_type_spec, needs_encode_conversion, needs_encode_conversion_spec,
};
use crate::model::FieldsModel;
use crate::text::{join_spec, nat_text, push_char, push_str, push_u64, str_eq, string_of};
use crate::types::{RustType, last_segment, last_segment_spec};

verus! {

/// A type as the library models it, with its code.
pub struct TypeCode {
    pub ty: RustType,
    pub code: String,
}

/// How generated code reaches a field.
pub enum FieldAccess {
    /// A named field, read from a base value: `base . name`.
    Named(String),
    /// A tuple field, read from a base value: `base . 0`.
    Tuple(usize),
    /// A binding that already holds the field (the code of the binding).
    Direct(String),
}

/// The code that reaches the field from `base`.
pub open spec fn access_code(a: FieldAccess, base: Seq<char>) -> Seq<char> {
    match a {
        FieldAccess::Named(id) => base + " . "@ + id@,
        FieldAccess::Tuple(i) => base + " . "@ + nat_text(i as nat),
        FieldAccess::Direct(t) => t@,
    }
}

impl FieldAccess {
    /// The field's name, for a named field.
    pub fn ident(&self) -> (r: Option<&String>)
        ensures
            r is Some <==> self is Named,
            r matches Some(id) ==> *self == FieldAccess::Named(*id),
    {
        match self {
            FieldAccess::Named(id) => Some(id),
            FieldAccess::Tuple(_) => None,
            FieldAccess::Direct(_) => None,
        }
    }

    /// The code that reaches the field from `base`.
    pub fn access_tokens(&self, base: &str) -> (r: String)
        ensures
            r@ == access_code(*self, base@),
    {
        match self {
            FieldAccess::Named(id) => {
                let mut r = string_of(base);
                push_str(&mut r, " . ");
                push_str(&mut r, id.as_str());
                r
            },
            FieldAccess::Tuple(i) => {
                let mut r = string_of(base);
                push_str(&mut r, " . ");
                push_u64(&mut r, *i as u64);
                r
            },
            FieldAccess::Direct(t) => string_of(t.as_str()),
        }
    }
}

/// What the code generation knows of one field.
pub struct FieldInfo {
    /// The field's position among its siblings.
    pub index: usize,
    /// The field's name; `None` for a tuple field.
    pub ident: Option<String>,
    /// The field's declared type.
    pub field_ty: TypeCode,
    pub access: FieldAccess,
    pub config: FieldConfig,
    /// The field's tag; `None` for a skipped field.
    pub tag: Option<u32>,
    pub parsed: ParsedFieldType,
    /// The type the field is encoded as.
    pub proto_ty: TypeCode,
    /// The type the field is decoded as.
    pub decode_ty: TypeCode,
}

/// The text `s` with every `$` replaced by `base`.
pub open spec fn replace_dollar_spec(s: Seq<char>, base: Seq<char>) -> Seq<char>
    decreases s.len(),
{
    if s.len() == 0 {
        Seq::empty()
    } else {
        replace_dollar_spec(s.drop_last(), base) + if s.last() == '$' {
            base
        } else {
            seq![s.last()]
        }
    }
}

pub fn replace_dollar(s: &str, base: &str) -> (r: String)
    ensures
        r@ == replace_dollar_spec(s@, base@),
{
    let n = s.unicode_len();
    let mut r = String::new();
    let mut i: usize = 0;
    while i < n
        invariant
            n == s@.len(),
            i <= n,
            r@ == replace_dollar_spec(s@.subrange(0, i as int), base@),
        decreases n - i,
    {
        let c = s.get_char(i);
        if c == '$' {
            push_str(&mut r, base);
        } else {
            push_char(&mut r, c);
        }
        proof {
            let q = s@.subrange(0, i + 1);
            assert(q.drop_last() =~= s@.subrange(0, i as int));
            assert(r@ =~= replace_dollar_spec(q, base@));
        }
        i = i + 1;
    }
    assert(s@.subrange(0, n as int) =~= s@);
    r
}

/// Whether a text reads as a Rust path (`crate::module::function`), as `syn` parses one.
pub uninterp spec fn parses_as_path(s: Seq<char>) -> bool;

/// Whether a text reads as a stream of Rust tokens, as `proc_macro2` lexes one.
pub uninterp spec fn lexes_as_tokens(s: Seq<char>) -> bool;

/// Parses the text as a `syn::Path` with `syn::parse_str` and says whether that succeeded; the
/// contract only names the answer, which depends on the text alone.
#[verifier::external_body]
fn path_parses(s: &str) -> (r: bool)
    ensures
        r == parses_as_path(s@),
{
    syn::parse_str::<syn::Path>(s).is_ok()
}

/// Lexes the text as a `proc_macro2::TokenStream` with `str::parse` and says whether that
/// succeeded; the contract only names the answer, which depends on the text alone.
#[verifier::external_body]
fn tokens_lex(s: &str) -> (r: bool)
    ensures
        r == lexes_as_tokens(s@),
{
    s.parse::<proc_macro2::TokenStream>().is_ok()
}

/// A function path given in a field option, when it reads as a path.
pub fn parse_path_string(value: &str) -> (r: Option<String>)
    ensures
        r is Some <==> parses_as_path(value@),
        r matches Some(p) ==> p@ == value@,
{
    if path_parses(value) {
        Some(string_of(value))
    } else {
        None
    }
}

/// An optional function path reads as a path when it is given.
pub open spec fn path_ok(o: Option<String>) -> bool {
    o matches Some(f) ==> parses_as_path(f@)
}

/// The type is an `Option<..>` path.
pub open spec fn is_option_type_spec(t: RustType) -> bool {
    match last_segment_spec(t) {
        Some(seg) => seg.ident@ == "Option"@,
        None => false,
    }
}

pub fn is_option_type(t: &RustType) -> (r: bool)
    ensures
        r == is_option_type_spec(*t),
{
    match last_segment(t) {
        Some(seg) => str_eq(seg.ident.as_str(), "Option"),
        None => false,
    }
}

/// The name of the temporary that holds a field's converted value before encoding.
pub open spec fn converted_ident(index: usize) -> Seq<char> {
    "__proto_rs_field_"@ + nat_text(index as nat) + "_converted"@
}

/// The name of the temporary a field is decoded into before conversion.
pub open spec fn tmp_ident(index: usize) -> Seq<char> {
    "__proto_rs_field_"@ + nat_text(index as nat) + "_tmp"@
}

/// The expression that converts the field reached by `access` to the type it is encoded as.
pub open spec fn encode_conversion_spec(info: FieldInfo, access: Seq<char>) -> Seq<char> {
    if is_numeric_enum_spec(info.config, info.parsed) {
        "(* ("@ + access + ")) as i32"@
    } else if info.config.into_fn is Some {
        info.config.into_fn->Some_0@ + " ("@ + access + ")"@
    } else if info.config.into_type is Some {
        "< "@ + info.proto_ty.code@ + " as :: core :: convert :: From < _ > > :: from ((* ("@
            + access + ")) . clone ())"@
    } else {
        access
    }
}

/// The `into_fn` of a field that is not an enum reads as a path.
pub open spec fn encode_conversion_valid(info: FieldInfo) -> bool {
    !is_numeric_enum_spec(info.config, info.parsed) ==> path_ok(info.config.into_fn)
}

pub fn encode_conversion_expr(field: &FieldInfo, access: &str) -> (r: String)
    requires
        encode_conversion_valid(*field),
    ensures
        r@ == encode_conversion_spec(*field, access@),
{
    if is_numeric_enum(&field.config, &field.parsed) {
        let mut r = string_of("(* (");
        push_str(&mut r, access);
        push_str(&mut r, ")) as i32");
        r
    } else if let Some(fun) = &field.config.into_fn {
        let mut r = string_of(fun.as_str());
        push_str(&mut r, " (");
        push_str(&mut r, access);
        push_str(&mut r, ")");
        r
    } else if field.config.into_type.is_some() {
        let mut r = string_of("< ");
        push_str(&mut r, field.proto_ty.code.as_str());
        push_str(&mut r, " as :: core :: convert :: From < _ > > :: from ((* (");
        push_str(&mut r, access);
        push_str(&mut r, ")) . clone ())");
        r
    } else {
        string_of(access)
    }
}

/// The expression that reaches the field for encoding: its getter, with `$` standing for the
/// base, or its access.
pub open spec fn encode_access_spec(info: FieldInfo, base: Seq<char>) -> Seq<char> {
    match info.config.getter {
        Some(g) => replace_dollar_spec(g@, base),
        None => access_code(info.access, base),
    }
}

/// A statement that must run before the field is encoded, and the expression that is encoded.
pub struct EncodeBinding {
    pub prelude: Option<String>,
    pub value: String,
}

/// The prelude and the value of a field's encoding: a converted field goes through a temporary
/// (passed by value when it is a primitive, else by reference); an optional field is passed as
/// `Option<&T>`; a primitive held by a binding is copied out through `Borrow`.
pub open spec fn encode_binding_spec(info: FieldInfo, base: Seq<char>) -> (Option<Seq<char>>, Seq<char>) {
    let access = encode_access_spec(info, base);
    if needs_encode_conversion_spec(info.config, info.parsed) {
        let tmp = converted_ident(info.index);
        (
            Some("let "@ + tmp + " : "@ + info.proto_ty.code@ + " = "@ + encode_conversion_spec(
                info,
                access,
            ) + " ;"@),
            if is_value_encode_type_spec(info.proto_ty.ty) {
                tmp
            } else {
                "& "@ + tmp
            },
        )
    } else if is_option_type_spec(info.field_ty.ty) {
        (None, "("@ + access + ") . as_ref ()"@)
    } else if info.config.getter is None && info.access is Direct && is_value_encode_type_spec(
        info.proto_ty.ty,
    ) {
        (None, "* :: core :: borrow :: Borrow :: borrow (& ("@ + access + "))"@)
    } else {
        (None, access)
    }
}

/// The getter of the field, with the base put in, lexes as tokens, and its conversion is valid.
pub open spec fn encode_binding_valid(info: FieldInfo, base: Seq<char>) -> bool {
    &&& info.config.getter matches Some(g) ==> lexes_as_tokens(replace_dollar_spec(g@, base))
    &&& encode_conversion_valid(info)
}

pub open spec fn opt_string_view(o: Option<String>) -> Option<Seq<char>> {
    match o {
        Some(s) => Some(s@),
        None => None,
    }
}

pub open spec fn binding_view(b: EncodeBinding) -> (Option<Seq<char>>, Seq<char>) {
    (opt_string_view(b.prelude), b.value@)
}

pub fn encode_input_binding(field: &FieldInfo, base: &str) -> (r: EncodeBinding)
    requires
        encode_binding_valid(*field, base@),
    ensures
        binding_view(r) == encode_binding_spec(*field, base@),
{
    let access = match &field.config.getter {
        Some(g) => replace_dollar(g.as_str(), base),
        None => field.access.access_tokens(base),
    };
    assert(access@ == encode_access_spec(*field, base@));
    if needs_encode_conversion(&field.config, &field.parsed) {
        let mut tmp = string_of("__proto_rs_field_");
        push_u64(&mut tmp, field.index as u64);
        push_str(&mut tmp, "_converted");
        assert(tmp@ =~= converted_ident(field.index));
        let converted = encode_conversion_expr(field, access.as_str());
        let mut prelude = string_of("let ");
        push_str(&mut prelude, tmp.as_str());
        push_str(&mut prelude, " : ");
        push_str(&mut prelude, field.proto_ty.code.as_str());
        push_str(&mut prelude, " = ");
        push_str(&mut prelude, converted.as_str());
        push_str(&mut prelude, " ;");
        let value = if is_value_encode_type(&field.proto_ty.ty) {
            tmp
        } else {
            let mut v = string_of("& ");
            push_str(&mut v, tmp.as_str());
            v
        };
        EncodeBinding { prelude: Some(prelude), value }
    } else if is_option_type(&field.field_ty.ty) {
        let mut v = string_of("(");
        push_str(&mut v, access.as_str());
        push_str(&mut v, ") . as_ref ()");
        EncodeBinding { prelude: None, value: v }
    } else if field.config.getter.is_none() && matches!(field.access, FieldAccess::Direct(_))
        && is_value_encode_type(&field.proto_ty.ty) {
        let mut v = string_of("* :: core :: borrow :: Borrow :: borrow (& (");
        push_str(&mut v, access.as_str());
        push_str(&mut v, "))");
        EncodeBinding { prelude: None, value: v }
    } else {
        EncodeBinding { prelude: None, value: access }
    }
}

/// The statement that stores the decoded temporary `tmp` in the field reached by `access`: an enum
/// through `TryFrom<i32>`, then `from_fn`, `try_from_fn`, and otherwise `From`.
pub open spec fn decode_assign_spec(info: FieldInfo, access: Seq<char>, tmp: Seq<char>) -> Seq<char> {
    if is_numeric_enum_spec(info.config, info.parsed) {
        access + " = < "@ + info.field_ty.code@
            + " as :: core :: convert :: TryFrom < i32 > > :: try_from ("@ + tmp
            + ") . map_err (:: core :: convert :: Into :: into) ? ;"@
    } else if info.config.from_fn is Some {
        access + " = "@ + info.config.from_fn->Some_0@ + " ("@ + tmp + ") ;"@
    } else if info.config.try_from_fn is Some {
        access + " = "@ + info.config.try_from_fn->Some_0@ + " ("@ + tmp
            + ") . map_err (:: core :: convert :: Into :: into) ? ;"@
    } else {
        access + " = < "@ + info.field_ty.code@ + " as :: core :: convert :: From < _ > > :: from ("@
            + tmp + ") ;"@
    }
}

/// The conversion function a field that is not an enum is decoded through reads as a path.
pub open spec fn decode_assign_valid(info: FieldInfo) -> bool {
    !is_numeric_enum_spec(info.config, info.parsed) ==> {
        &&& path_ok(info.config.from_fn)
        &&& info.config.from_fn is None ==> path_ok(info.config.try_from_fn)
    }
}

pub fn decode_conversion_assign(info: &FieldInfo, access: &str, tmp_ident: &str) -> (r: String)
    requires
        decode_assign_valid(*info),
    ensures
        r@ == decode_assign_spec(*info, access@, tmp_ident@),
{
    let mut r = string_of(access);
    if is_numeric_enum(&info.config, &info.parsed) {
        push_str(&mut r, " = < ");
        push_str(&mut r, info.field_ty.code.as_str());
        push_str(&mut r, " as :: core :: convert :: TryFrom < i32 > > :: try_from (");
        push_str(&mut r, tmp_ident);
        push_str(&mut r, ") . map_err (:: core :: convert :: Into :: into) ? ;");
    } else if let Some(fun) = &info.config.from_fn {
        push_str(&mut r, " = ");
        push_str(&mut r, fun.as_str());
        push_str(&mut r, " (");
        push_str(&mut r, tmp_ident);
        push_str(&mut r, ") ;");
    } else if let Some(fun) = &info.config.try_from_fn {
        push_str(&mut r, " = ");
        push_str(&mut r, fun.as_str());
        push_str(&mut r, " (");
        push_str(&mut r, tmp_ident);
        push_str(&mut r, ") . map_err (:: core :: convert :: Into :: into) ? ;");
    } else {
        push_str(&mut r, " = < ");
        push_str(&mut r, info.field_ty.code.as_str());
        push_str(&mut r, " as :: core :: convert :: From < _ > > :: from (");
        push_str(&mut r, tmp_ident);
        push_str(&mut r, ") ;");
    }
    assert(r@ =~= decode_assign_spec(*info, access@, tmp_ident@));
    r
}

/// The call of the field's validator, when it has one.
pub open spec fn validation_spec(info: FieldInfo, access: Seq<char>) -> Seq<char> {
    match info.config.validator {
        Some(v) => v@ + " (& mut "@ + access + ") ? ;"@,
        None => Seq::empty(),
    }
}

/// The match arm that decodes the field, for a field with a tag: merged straight into the field,
/// or into a temporary of its decode type that is then converted; the validator runs after.
pub open spec fn decode_arm_spec(info: FieldInfo, base: Seq<char>) -> Option<Seq<char>> {
    match info.tag {
        None => None,
        Some(t) => {
            let access = access_code(info.access, base);
            let validation = validation_spec(info, access);
            if crate::field::needs_decode_conversion_spec(info.config, info.parsed) {
                let tmp = tmp_ident(info.index);
                let d = info.decode_ty.code@;
                Some(nat_text(t as nat) + "u32 => { let mut "@ + tmp + " : "@ + d + " = < "@ + d
                    + " as :: proto_rs :: ProtoDecoder > :: proto_default () ; < "@ + d
                    + " as :: proto_rs :: ProtoDecoder > :: merge (& mut "@ + tmp
                    + " , wire_type , buf , ctx) ? ; "@ + decode_assign_spec(info, access, tmp) + " "@
                    + validation + " Ok (()) }"@)
            } else {
                Some(nat_text(t as nat) + "u32 => { < "@ + info.field_ty.code@
                    + " as :: proto_rs :: ProtoDecoder > :: merge (& mut "@ + access
                    + " , wire_type , buf , ctx) ? ; "@ + validation + " Ok (()) }"@)
            }
        },
    }
}

/// The paths a tagged field's decoding calls read as paths.
pub open spec fn decode_arm_valid(info: FieldInfo) -> bool {
    info.tag is Some ==> {
        &&& path_ok(info.config.validator)
        &&& crate::field::needs_decode_conversion_spec(info.config, info.parsed)
            ==> decode_assign_valid(info)
    }
}

pub(crate) fn decode_match_arm(info: &FieldInfo, base: &str) -> (r: Option<String>)
    requires
        decode_arm_valid(*info),
    ensures
        opt_string_view(r) == decode_arm_spec(*info, base@),
{
    let t = match info.tag {
        None => return None,
        Some(t) => t,
    };
    let access = info.access.access_tokens(base);
    let validation = match &info.config.validator {
        Some(v) => {
            let mut s = string_of(v.as_str());
            push_str(&mut s, " (& mut ");
            push_str(&mut s, access.as_str());
            push_str(&mut s, ") ? ;");
            s
        },
        None => String::new(),
    };
    assert(validation@ =~= validation_spec(*info, access@));
    let mut r = String::new();
    push_u64(&mut r, t as u64);
    if crate::field::needs_decode_conversion(&info.config, &info.parsed) {
        let mut tmp = string_of("__proto_rs_field_");
        push_u64(&mut tmp, info.index as u64);
        push_str(&mut tmp, "_tmp");
        assert(tmp@ =~= tmp_ident(info.index));
        let d = info.decode_ty.code.as_str();
        let assign = decode_conversion_assign(info, access.as_str(), tmp.as_str());
        push_str(&mut r, "u32 => { let mut ");
        push_str(&mut r, tmp.as_str());
        push_str(&mut r, " : ");
        push_str(&mut r, d);
        push_str(&mut r, " = < ");
        push_str(&mut r, d);
        push_str(&mut r, " as :: proto_rs :: ProtoDecoder > :: proto_default () ; < ");
        push_str(&mut r, d);
        push_str(&mut r, " as :: proto_rs :: ProtoDecoder > :: merge (& mut ");
        push_str(&mut r, tmp.as_str());
        push_str(&mut r, " , wire_type , buf , ctx) ? ; ");
        push_str(&mut r, assign.as_str());
        push_str(&mut r, " ");
    } else {
        push_str(&mut r, "u32 => { < ");
        push_str(&mut r, info.field_ty.code.as_str());
        push_str(&mut r, " as :: proto_rs :: ProtoDecoder > :: merge (& mut ");
        push_str(&mut r, access.as_str());
        push_str(&mut r, " , wire_type , buf , ctx) ? ; ");
    }
    push_str(&mut r, validation.as_str());
    push_str(&mut r, " Ok (()) }");
    assert(opt_string_view(Some(r)) =~= decode_arm_spec(*info, base@));
    Some(r)
}

/// The decode match arms of the fields that have a tag, in order.
pub open spec fn decode_arms_spec(fs: Seq<FieldInfo>, base: Seq<char>) -> Seq<Seq<char>>
    decreases fs.len(),
{
    if fs.len() == 0 {
        Seq::empty()
    } else {
        let rest = decode_arms_spec(fs.drop_last(), base);
        match decode_arm_spec(fs.last(), base) {
            Some(arm) => rest.push(arm),
            None => rest,
        }
    }
}

pub fn build_decode_match_arms(fields: &Vec<FieldInfo>, base: &str) -> (r: Vec<String>)
    requires
        forall|i: int| 0 <= i < fields@.len() ==> decode_arm_valid(#[trigger] fields@[i]),
    ensures
        crate::text::views(r@) == decode_arms_spec(fields@, base@),
{
    let mut r: Vec<String> = Vec::new();
    let n = fields.len();
    let mut i: usize = 0;
    while i < n
        invariant
            n == fields@.len(),
            i <= n,
            forall|j: int| 0 <= j < fields@.len() ==> decode_arm_valid(#[trigger] fields@[j]),
            crate::text::views(r@) == decode_arms_spec(fields@.subrange(0, i as int), base@),
        decreases n - i,
    {
        let arm = decode_match_arm(&fields[i], base);
        proof {
            let q = fields@.subrange(0, i + 1);
            assert(q.drop_last() =~= fields@.subrange(0, i as int));
            assert(q.last() == fields@[i as int]);
        }
        match arm {
            Some(a) => {
                r.push(a);
                assert(crate::text::views(r@) =~= decode_arms_spec(
                    fields@.subrange(0, i + 1),
                    base@,
                ));
            },
            None => {},
        }
        i = i + 1;
    }
    assert(fields@.subrange(0, n as int) =~= fields@);
    r
}

/// The statement that clears the field: through its own wire implementation when it is encoded
/// directly, else by resetting it to its `Default`.
pub open spec fn clear_stmt_spec(info: FieldInfo, self_tokens: Seq<char>) -> Seq<char> {
    let access = access_code(info.access, self_tokens);
    if crate::field::uses_proto_wire_directly_spec(info.config, info.parsed) {
        "< "@ + info.field_ty.code@ + " as :: proto_rs :: ProtoDecoder > :: clear (& mut "@ + access
            + ")"@
    } else {
        access + " = :: core :: default :: Default :: default ()"@
    }
}

fn clear_stmt(info: &FieldInfo, self_tokens: &str) -> (r: String)
    ensures
        r@ == clear_stmt_spec(*info, self_tokens@),
{
    let access = info.access.access_tokens(self_tokens);
    if crate::field::uses_proto_wire_directly(&info.config, &info.parsed) {
        let mut r = string_of("< ");
        push_str(&mut r, info.field_ty.code.as_str());
        push_str(&mut r, " as :: proto_rs :: ProtoDecoder > :: clear (& mut ");
        push_str(&mut r, access.as_str());
        push_str(&mut r, ")");
        r
    } else {
        let mut r = access;
        push_str(&mut r, " = :: core :: default :: Default :: default ()");
        r
    }
}

pub fn build_clear_stmts(fields: &Vec<FieldInfo>, self_tokens: &str) -> (r: Vec<String>)
    ensures
        r@.len() == fields@.len(),
        forall|i: int| 0 <= i < r@.len() ==> #[trigger] r@[i]@ == clear_stmt_spec(fields@[i], self_tokens@),
{
    let mut r: Vec<String> = Vec::new();
    let n = fields.len();
    let mut i: usize = 0;
    while i < n
        invariant
            n == fields@.len(),
            i <= n,
            r@.len() == i,
            forall|j: int| 0 <= j < i ==> #[trigger] r@[j]@ == clear_stmt_spec(fields@[j], self_tokens@),
        decreases n - i,
    {
        r.push(clear_stmt(&fields[i], self_tokens));
        i = i + 1;
    }
    r
}

/// The value a field starts from before decoding: its wire implementation's default when it is
/// encoded directly, else its `Default`.
pub open spec fn field_default_spec(info: FieldInfo) -> Seq<char> {
    if crate::field::uses_proto_wire_directly_spec(info.config, info.parsed) {
        "< "@ + info.field_ty.code@ + " as :: proto_rs :: ProtoDecoder > :: proto_default ()"@
    } else {
        ":: core :: default :: Default :: default ()"@
    }
}

pub fn field_proto_default_expr(info: &FieldInfo) -> (r: String)
    ensures
        r@ == field_default_spec(*info),
{
    if crate::field::uses_proto_wire_directly(&info.config, &info.parsed) {
        let mut r = string_of("< ");
        push_str(&mut r, info.field_ty.code.as_str());
        push_str(&mut r, " as :: proto_rs :: ProtoDecoder > :: proto_default ()");
        r
    } else {
        string_of(":: core :: default :: Default :: default ()")
    }
}

/// The name of a named field's access; empty for other accesses.
pub open spec fn access_name(a: FieldAccess) -> Seq<char> {
    match a {
        FieldAccess::Named(id) => id@,
        _ => Seq::empty(),
    }
}

/// The default of each field, with its name before it for named fields.
pub open spec fn default_parts(fs: Seq<FieldInfo>, named: bool) -> Seq<Seq<char>> {
    Seq::new(
        fs.len(),
        |i: int|
            if named {
                access_name(fs[i].access) + " : "@ + field_default_spec(fs[i])
            } else {
                field_default_spec(fs[i])
            },
    )
}

/// The value of the whole item with every field at its default.
pub open spec fn default_expr_spec(fs: Seq<FieldInfo>, original: FieldsModel) -> Seq<char> {
    match original {
        FieldsModel::Unit => "Self"@,
        FieldsModel::Unnamed(_) => if fs.len() == 0 {
            "Self"@
        } else {
            "Self ("@ + join_spec(default_parts(fs, false), " , "@) + ")"@
        },
        FieldsModel::Named(_) => if fs.len() == 0 {
            "Self { }"@
        } else {
            "Self { "@ + join_spec(default_parts(fs, true), " , "@) + " }"@
        },
    }
}

/// The fields of a struct with named fields are reached by name.
pub open spec fn accesses_fit(fs: Seq<FieldInfo>, original: FieldsModel) -> bool {
    original is Named ==> forall|i: int| 0 <= i < fs.len() ==> (#[trigger] fs[i]).access is Named
}

pub fn build_proto_default_expr(fields: &Vec<FieldInfo>, original: &FieldsModel) -> (r: String)
    requires
        accesses_fit(fields@, *original),
    ensures
        r@ == default_expr_spec(fields@, *original),
{
    let named = matches!(original, FieldsModel::Named(_));
    if matches!(original, FieldsModel::Unit) {
        return string_of("Self");
    }
    if fields.len() == 0 {
        return if named { string_of("Self { }") } else { string_of("Self") };
    }
    let mut parts: Vec<String> = Vec::new();
    let n = fields.len();
    let mut i: usize = 0;
    while i < n
        invariant
            n == fields@.len(),
            i <= n,
            named == (original is Named),
            accesses_fit(fields@, *original),
            parts@.len() == i,
            forall|j: int| 0 <= j < i ==> #[trigger] parts@[j]@ == default_parts(fields@, named)[j],
        decreases n - i,
    {
        let d = field_proto_default_expr(&fields[i]);
        if named {
            let mut p = match fields[i].access.ident() {
                Some(id) => string_of(id.as_str()),
                None => String::new(),
            };
            push_str(&mut p, " : ");
            push_str(&mut p, d.as_str());
            parts.push(p);
        } else {
            parts.push(d);
        }
        i = i + 1;
    }
    assert(crate::text::views(parts@) =~= default_parts(fields@, named));
    let joined = crate::text::join(&parts, " , ");
    let mut r = if named { string_of("Self { ") } else { string_of("Self (") };
    push_str(&mut r, joined.as_str());
    push_str(&mut r, if named { " }" } else { ")" });
    r
}

/// The statement that fills a skipped field from its `skip_deser_fn` after decoding, for a skipped
/// field that has one.
pub open spec fn post_hook_spec(info: FieldInfo) -> Option<Seq<char>> {
    match info.config.skip_deser_fn {
        Some(f) => if info.config.skip {
            Some("{ let __proto_rs_tmp = "@ + f@ + " (& mut shadow) ; "@ + access_code(
                info.access,
                "shadow"@,
            ) + " = __proto_rs_tmp ; }"@)
        } else {
            None
        },
        None => None,
    }
}

pub open spec fn post_hooks_spec(fs: Seq<FieldInfo>) -> Seq<Seq<char>>
    decreases fs.len(),
{
    if fs.len() == 0 {
        Seq::empty()
    } else {
        let rest = post_hooks_spec(fs.drop_last());
        match post_hook_spec(fs.last()) {
            Some(h) => rest.push(h),
            None => rest,
        }
    }
}

/// The `skip_deser_fn` of a skipped field reads as a path.
pub open spec fn post_hook_valid(info: FieldInfo) -> bool {
    info.config.skip ==> path_ok(info.config.skip_deser_fn)
}

fn post_decode_hook(info: &FieldInfo) -> (r: Option<String>)
    requires
        post_hook_valid(*info),
    ensures
        opt_string_view(r) == post_hook_spec(*info),
{
    match &info.config.skip_deser_fn {
        None => None,
        Some(f) => {
            if !info.config.skip {
                return None;
            }
            let access = info.access.access_tokens("shadow");
            let mut r = string_of("{ let __proto_rs_tmp = ");
            push_str(&mut r, f.as_str());
            push_str(&mut r, " (& mut shadow) ; ");
            push_str(&mut r, access.as_str());
            push_str(&mut r, " = __proto_rs_tmp ; }");
            assert(opt_string_view(Some(r)) =~= post_hook_spec(*info));
            Some(r)
        },
    }
}

pub fn build_post_decode_hooks(fields: &Vec<FieldInfo>) -> (r: Vec<String>)
    requires
        forall|i: int| 0 <= i < fields@.len() ==> post_hook_valid(#[trigger] fields@[i]),
    ensures
        crate::text::views(r@) == post_hooks_spec(fields@),
{
    let mut r: Vec<String> = Vec::new();
    let n = fields.len();
    let mut i: usize = 0;
    while i < n
        invariant
            n == fields@.len(),
            i <= n,
            forall|j: int| 0 <= j < fields@.len() ==> post_hook_valid(#[trigger] fields@[j]),
            crate::text::views(r@) == post_hooks_spec(fields@.subrange(0, i as int)),
        decreases n - i,
    {
        let hook = post_decode_hook(&fields[i]);
        proof {
            let q = fields@.subrange(0, i + 1);
            assert(q.drop_last() =~= fields@.subrange(0, i as int));
            assert(q.last() == fields@[i as int]);
        }
        match hook {
            Some(h) => {
                r.push(h);
                assert(crate::text::views(r@) =~= post_hooks_spec(fields@.subrange(0, i + 1)));
            },
            None => {},
        }
        i = i + 1;
    }
    assert(fields@.subrange(0, n as int) =~= fields@);
    r
}

/// Every path and expression given in the field's options reads as code, as far as the code of
/// the field uses it.
pub open spec fn field_code_valid(info: FieldInfo, encode_base: Seq<char>) -> bool {
    &&& encode_binding_valid(info, encode_base)
    &&& decode_arm_valid(info)
    &&& post_hook_valid(info)
}

pub(crate) fn opt_path_ok(o: &Option<String>) -> (r: bool)
    ensures
        r == path_ok(*o),
{
    match o {
        Some(f) => path_parses(f.as_str()),
        None => true,
    }
}

fn check_field_code(info: &FieldInfo, encode_base: &str) -> (r: bool)
    ensures
        r == field_code_valid(*info, encode_base@),
{
    let getter_ok = match &info.config.getter {
        Some(g) => tokens_lex(replace_dollar(g.as_str(), encode_base).as_str()),
        None => true,
    };
    let numeric = is_numeric_enum(&info.config, &info.parsed);
    let encode_ok = getter_ok && (numeric || opt_path_ok(&info.config.into_fn));
    let assign_ok = numeric || (opt_path_ok(&info.config.from_fn) && (info.config.from_fn.is_some()
        || opt_path_ok(&info.config.try_from_fn)));
    let arm_ok = info.tag.is_none() || (opt_path_ok(&info.config.validator) && (
    !crate::field::needs_decode_conversion(&info.config, &info.parsed) || assign_ok));
    let hook_ok = !info.config.skip || opt_path_ok(&info.config.skip_deser_fn);
    encode_ok && arm_ok && hook_ok
}

/// The code of all the fields of a struct or variant.
pub struct FieldsCode {
    /// The encoding binding of each field, in order.
    pub bindings: Vec<EncodeBinding>,
    pub decode_arms: Vec<String>,
    pub post_decode_hooks: Vec<String>,
    pub clear_stmts: Vec<String>,
    pub default_expr: String,
}

/// The code of the fields: each field's encoding binding read from `encode_base`, the decode
/// match arms on `decode_base`, the post-decode hooks, the clear statements on `self_tokens`, and
/// the default value; `None` when a path or expression given in a field option does not read as
/// code.
pub fn fields_code(
    fields: &Vec<FieldInfo>,
    original: &FieldsModel,
    encode_base: &str,
    decode_base: &str,
    self_tokens: &str,
) -> (r: Option<FieldsCode>)
    requires
        accesses_fit(fields@, *original),
    ensures
        r is Some <==> forall|i: int|
            0 <= i < fields@.len() ==> field_code_valid(#[trigger] fields@[i], encode_base@),
        r matches Some(c) ==> {
            &&& c.bindings@.len() == fields@.len()
            &&& forall|i: int|
                0 <= i < fields@.len() ==> binding_view(#[trigger] c.bindings@[i])
                    == encode_binding_spec(fields@[i], encode_base@)
            &&& crate::text::views(c.decode_arms@) == decode_arms_spec(fields@, decode_base@)
            &&& crate::text::views(c.post_decode_hooks@) == post_hooks_spec(fields@)
            &&& c.clear_stmts@.len() == fields@.len()
            &&& forall|i: int|
                0 <= i < fields@.len() ==> (#[trigger] c.clear_stmts@[i])@ == clear_stmt_spec(
                    fields@[i],
                    self_tokens@,
                )
            &&& c.default_expr@ == default_expr_spec(fields@, *original)
        },
{
    let n = fields.len();
    let mut i: usize = 0;
    while i < n
        invariant
            n == fields@.len(),
            i <= n,
            forall|j: int| 0 <= j < i ==> field_code_valid(#[trigger] fields@[j], encode_base@),
        decreases n - i,
    {
        if !check_field_code(&fields[i], encode_base) {
            return None;
        }
        i = i + 1;
    }
    let mut bindings: Vec<EncodeBinding> = Vec::new();
    let mut i: usize = 0;
    while i < n
        invariant
            n == fields@.len(),
            i <= n,
            forall|j: int| 0 <= j < n ==> field_code_valid(#[trigger] fields@[j], encode_base@),
            bindings@.len() == i,
            forall|j: int|
                0 <= j < i ==> binding_view(#[trigger] bindings@[j]) == encode_binding_spec(
                    fields@[j],
                    encode_base@,
                ),
        decreases n - i,
    {
        assert(field_code_valid(fields@[i as int], encode_base@));
        bindings.push(encode_input_binding(&fields[i], encode_base));
        i = i + 1;
    }
    assert forall|j: int| 0 <= j < fields@.len() implies decode_arm_valid(#[trigger] fields@[j]) by {
        assert(field_code_valid(fields@[j], encode_base@));
    }
    assert forall|j: int| 0 <= j < fields@.len() implies post_hook_valid(#[trigger] fields@[j]) by {
        assert(field_code_valid(fields@[j], encode_base@));
    }
    Some(FieldsCode {
        bindings,
        decode_arms: build_decode_match_arms(fields, decode_base),
        post_decode_hooks: build_post_decode_hooks(fields),
        clear_stmts: build_clear_stmts(fields, self_tokens),
        default_expr: build_proto_default_expr(fields, original),
    })
}

} // verus!
