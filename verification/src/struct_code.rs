//! The pieces of the trait impls `#[proto_message]` generates for a struct: its shadow (the
//! borrowed form it is archived through) and the per-field code of its encoder and decoder, in
//! the spacing of a rendered token stream.

use vstd::prelude::*;

use crate::field::{needs_decode_conversion, needs_encode_conversion, needs_encode_conversion_spec};
use crate::field_code::{
    FieldAccess, FieldInfo, access_code, decode_arm_spec, decode_arm_valid, encode_conversion_expr,
    encode_conversion_spec, encode_conversion_valid, opt_path_ok, path_ok, replace_dollar,
    replace_dollar_spec,
};
use crate::text::{nat_text, push_str, push_u64, string_of};

verus! {

/// How a text reads as a Rust expression, as `syn` parses one: `None` when it is not one, else
/// whether it is a reference expression `&..`.
pub uninterp spec fn expr_reading(s: Seq<char>) -> Option<bool>;

/// Parses the text as a `syn::Expr` with `syn::parse_str` and tells whether it is a reference
/// expression; the contract only names the answer, which depends on the text alone.
#[verifier::external_body]
fn parse_expr(s: &str) -> (r: Option<bool>)
    ensures
        r == expr_reading(s@),
{
    syn::parse_str::<syn::Expr>(s).ok().map(|e| matches!(e, syn::Expr::Reference(_)))
}

/// The getter of a field read on the base `value`, when the field has one.
pub open spec fn getter_expr_spec(f: FieldInfo) -> Seq<char> {
    replace_dollar_spec(f.config.getter->Some_0@, "value"@)
}

/// The getter expression is a reference.
pub open spec fn getter_is_ref(f: FieldInfo) -> bool {
    expr_reading(getter_expr_spec(f)) == Some(true)
}

/// The getter of the field, when it has one, reads as an expression.
pub open spec fn getter_ok(f: FieldInfo) -> bool {
    f.config.getter is Some ==> expr_reading(getter_expr_spec(f)) is Some
}

/// The type a kept field takes in the shadow: its encoded type when it is converted, else its
/// own type's shadow for the lifetime `lt`.
pub open spec fn shadow_field_ty_spec(f: FieldInfo, lt: Seq<char>) -> Seq<char> {
    if needs_encode_conversion_spec(f.config, f.parsed) {
        f.proto_ty.code@
    } else {
        "< "@ + f.field_ty.code@ + " as :: proto_rs :: ProtoEncode > :: Shadow < "@ + lt + " >"@
    }
}

fn shadow_field_ty(f: &FieldInfo, lt: &str) -> (r: String)
    ensures
        r@ == shadow_field_ty_spec(*f, lt@),
{
    if needs_encode_conversion(&f.config, &f.parsed) {
        string_of(f.proto_ty.code.as_str())
    } else {
        let mut r = string_of("< ");
        push_str(&mut r, f.field_ty.code.as_str());
        push_str(&mut r, " as :: proto_rs :: ProtoEncode > :: Shadow < ");
        push_str(&mut r, lt);
        push_str(&mut r, " >");
        r
    }
}

/// How the shadow reaches the `j`-th kept field: tuple shadows leave skipped fields out, so a
/// tuple field is reached by its position among the kept fields.
pub open spec fn shadow_access_spec(f: FieldInfo, j: nat) -> Seq<char> {
    match f.access {
        FieldAccess::Tuple(_) => "self . "@ + nat_text(j),
        _ => access_code(f.access, "self"@),
    }
}

fn shadow_access(f: &FieldInfo, j: usize) -> (r: String)
    ensures
        r@ == shadow_access_spec(*f, j as nat),
{
    match &f.access {
        FieldAccess::Tuple(_) => {
            let mut r = string_of("self . ");
            push_u64(&mut r, j as u64);
            r
        },
        _ => f.access.access_tokens("self"),
    }
}

/// `name : ` in front of a named field's piece; nothing for other fields.
pub open spec fn name_prefix(f: FieldInfo) -> Seq<char> {
    match f.access {
        FieldAccess::Named(id) => id@ + " : "@,
        _ => Seq::empty(),
    }
}

fn push_name_prefix(r: &mut String, f: &FieldInfo)
    ensures
        final(r)@ == old(r)@ + name_prefix(*f),
{
    match &f.access {
        FieldAccess::Named(id) => {
            push_str(r, id.as_str());
            push_str(r, " : ");
        },
        _ => {
            assert(name_prefix(*f) =~= Seq::<char>::empty());
        },
    }
}

/// The value a kept field takes in the shadow built from `value`: read through its getter when
/// getters are used, borrowed, then converted or turned into its shadow.
pub open spec fn shadow_init_spec(f: FieldInfo, use_getters: bool) -> Seq<char> {
    let by_getter = use_getters && f.config.getter is Some;
    let access = if by_getter {
        getter_expr_spec(f)
    } else {
        access_code(f.access, "value"@)
    };
    let reference = if by_getter && getter_is_ref(f) {
        access
    } else {
        "& "@ + access
    };
    if needs_encode_conversion_spec(f.config, f.parsed) {
        encode_conversion_spec(f, reference)
    } else {
        "< "@ + shadow_field_ty_spec(f, "'a"@) + " as :: proto_rs :: ProtoShadowEncode < 'a , "@
            + f.field_ty.code@ + " > > :: from_sun ("@ + reference + ")"@
    }
}

/// The value a field takes when a `sun` type with getters is turned into the struct: its getter
/// or its access on `value`, converted when the field is.
pub open spec fn sun_init_spec(f: FieldInfo) -> Seq<char> {
    let access = if f.config.getter is Some {
        getter_expr_spec(f)
    } else {
        access_code(f.access, "value"@)
    };
    if needs_encode_conversion_spec(f.config, f.parsed) {
        encode_conversion_spec(f, "& ("@ + access + ")"@)
    } else {
        access
    }
}

/// The kinds of per-field pieces.
pub open spec fn piece_shadow_def() -> nat { 0 }
pub open spec fn piece_shadow_init() -> nat { 1 }
pub open spec fn piece_is_default() -> nat { 2 }
pub open spec fn piece_size_hint() -> nat { 3 }
pub open spec fn piece_finish() -> nat { 4 }
pub open spec fn piece_cheap_hint() -> nat { 5 }
pub open spec fn piece_post_hook() -> nat { 6 }
pub open spec fn piece_validator_hook() -> nat { 7 }
pub open spec fn piece_sun_init() -> nat { 8 }
pub open spec fn piece_decode_arm() -> nat { 9 }

/// The piece of kind `kind` for field `f`, the `j`-th of the tagged fields before it, with
/// `base` the value hooks act on and `use_getters` whether the shadow reads getters.
pub open spec fn field_piece(kind: nat, f: FieldInfo, j: nat, base: Seq<char>, use_getters: bool) -> Option<Seq<char>> {
    let tagged = f.tag is Some;
    let tag = nat_text(f.tag->Some_0 as nat);
    if kind == 0 {
        if tagged { Some(name_prefix(f) + shadow_field_ty_spec(f, "'a"@) + " , "@) } else { None }
    } else if kind == 1 {
        if tagged { Some(name_prefix(f) + shadow_init_spec(f, use_getters) + " , "@) } else { None }
    } else if kind == 2 {
        if tagged {
            Some((if j == 0 { Seq::empty() } else { " && "@ }) + ":: proto_rs :: ProtoArchive :: is_default (& "@
                + shadow_access_spec(f, j) + ")"@)
        } else {
            None
        }
    } else if kind == 3 {
        if tagged {
            Some(" . add (:: proto_rs :: ProtoArchive :: encoded_size_hint :: < "@ + tag + "u32 > (& "@
                + shadow_access_spec(f, j) + "))"@)
        } else {
            None
        }
    } else if kind == 4 {
        if tagged && !crate::field::needs_decode_conversion_spec(f.config, f.parsed) {
            Some("< "@ + f.field_ty.code@ + " as :: proto_rs :: ProtoFieldMerge > :: finish_value (& mut "@
                + access_code(f.access, "self"@) + " , & state . field ("@ + tag + "u32)) ? ; "@)
        } else {
            None
        }
    } else if kind == 5 {
        if tagged {
            Some(" . add ("@ + if needs_encode_conversion_spec(f.config, f.parsed) || f.config.getter is Some {
                "< "@ + f.proto_ty.code@ + " as :: proto_rs :: ProtoExt > :: ENCODED_SIZE_HINT . for_field :: < "@
                    + tag + "u32 > (< "@ + f.proto_ty.code@ + " as :: proto_rs :: ProtoExt > :: WIRE_TYPE)"@
            } else {
                "< "@ + f.field_ty.code@ + " as :: proto_rs :: ProtoEncode > :: size_hint :: < "@ + tag
                    + "u32 > (& "@ + access_code(f.access, "self"@) + ")"@
            } + ")"@)
        } else {
            None
        }
    } else if kind == 6 {
        if f.config.skip && f.config.skip_deser_fn is Some {
            Some("{ let __proto_rs_tmp = "@ + f.config.skip_deser_fn->Some_0@ + " (& mut "@ + base + ") ; "@
                + access_code(f.access, base) + " = __proto_rs_tmp ; } "@)
        } else {
            None
        }
    } else if kind == 7 {
        if tagged && f.config.validator is Some {
            Some(f.config.validator->Some_0@ + " (& mut "@ + access_code(f.access, base) + ") ? ; "@)
        } else {
            None
        }
    } else if kind == 8 {
        Some(name_prefix(f) + sun_init_spec(f) + " , "@)
    } else {
        match decode_arm_spec(f, "value"@) {
            Some(a) => Some(a + " , "@),
            None => None,
        }
    }
}

/// What the piece of kind `kind` needs of the field's options to be code.
pub open spec fn piece_valid(kind: nat, f: FieldInfo, use_getters: bool) -> bool {
    if kind == 1 {
        f.tag is Some ==> encode_conversion_valid(f) && (use_getters ==> getter_ok(f))
    } else if kind == 6 {
        f.config.skip ==> path_ok(f.config.skip_deser_fn)
    } else if kind == 7 {
        f.tag is Some ==> path_ok(f.config.validator)
    } else if kind == 8 {
        encode_conversion_valid(f) && getter_ok(f)
    } else if kind == 9 {
        decode_arm_valid(f)
    } else {
        true
    }
}

/// The number of tagged fields.
pub open spec fn tagged_count(fs: Seq<FieldInfo>) -> nat
    decreases fs.len(),
{
    if fs.len() == 0 {
        0
    } else {
        tagged_count(fs.drop_last()) + if fs.last().tag is Some { 1nat } else { 0nat }
    }
}

/// The pieces of kind `kind` of the fields, in order.
pub open spec fn pieces_spec(kind: nat, fs: Seq<FieldInfo>, base: Seq<char>, use_getters: bool) -> Seq<char>
    decreases fs.len(),
{
    if fs.len() == 0 {
        Seq::empty()
    } else {
        pieces_spec(kind, fs.drop_last(), base, use_getters) + match field_piece(
            kind,
            fs.last(),
            tagged_count(fs.drop_last()),
            base,
            use_getters,
        ) {
            Some(p) => p,
            None => Seq::empty(),
        }
    }
}

fn shadow_init(f: &FieldInfo, use_getters: bool) -> (r: String)
    requires
        encode_conversion_valid(*f),
        use_getters ==> getter_ok(*f),
    ensures
        r@ == shadow_init_spec(*f, use_getters),
{
    let by_getter = use_getters && f.config.getter.is_some();
    let mut is_ref = false;
    let access = if by_getter {
        let g = replace_dollar(f.config.getter.as_ref().unwrap().as_str(), "value");
        is_ref = match parse_expr(g.as_str()) {
            Some(b) => b,
            None => false,
        };
        g
    } else {
        f.access.access_tokens("value")
    };
    let reference = if by_getter && is_ref {
        access
    } else {
        let mut r = string_of("& ");
        push_str(&mut r, access.as_str());
        r
    };
    if needs_encode_conversion(&f.config, &f.parsed) {
        encode_conversion_expr(f, reference.as_str())
    } else {
        let mut r = string_of("< ");
        push_str(&mut r, shadow_field_ty(f, "'a").as_str());
        push_str(&mut r, " as :: proto_rs :: ProtoShadowEncode < 'a , ");
        push_str(&mut r, f.field_ty.code.as_str());
        push_str(&mut r, " > > :: from_sun (");
        push_str(&mut r, reference.as_str());
        push_str(&mut r, ")");
        r
    }
}

fn sun_init(f: &FieldInfo) -> (r: String)
    requires
        encode_conversion_valid(*f),
    ensures
        r@ == sun_init_spec(*f),
{
    let access = match &f.config.getter {
        Some(g) => replace_dollar(g.as_str(), "value"),
        None => f.access.access_tokens("value"),
    };
    if needs_encode_conversion(&f.config, &f.parsed) {
        let mut reference = string_of("& (");
        push_str(&mut reference, access.as_str());
        push_str(&mut reference, ")");
        encode_conversion_expr(f, reference.as_str())
    } else {
        access
    }
}

fn field_piece_exec(kind: u8, f: &FieldInfo, j: usize, base: &str, use_getters: bool) -> (r: Option<String>)
    requires
        kind <= 9,
        piece_valid(kind as nat, *f, use_getters),
    ensures
        opt_view(r) == field_piece(kind as nat, *f, j as nat, base@, use_getters),
{
    let tagged = f.tag.is_some();
    let mut tag = String::new();
    if let Some(t) = f.tag {
        push_u64(&mut tag, t as u64);
    }
    let ghost tag_spec = nat_text(f.tag->Some_0 as nat);
    assert(tagged ==> tag@ == tag_spec);
    let r = if kind == 0 {
        if tagged {
            let mut r = String::new();
            push_name_prefix(&mut r, f);
            push_str(&mut r, shadow_field_ty(f, "'a").as_str());
            push_str(&mut r, " , ");
            Some(r)
        } else {
            None
        }
    } else if kind == 1 {
        if tagged {
            let mut r = String::new();
            push_name_prefix(&mut r, f);
            push_str(&mut r, shadow_init(f, use_getters).as_str());
            push_str(&mut r, " , ");
            Some(r)
        } else {
            None
        }
    } else if kind == 2 {
        if tagged {
            let mut r = String::new();
            if j != 0 {
                push_str(&mut r, " && ");
            }
            push_str(&mut r, ":: proto_rs :: ProtoArchive :: is_default (& ");
            push_str(&mut r, shadow_access(f, j).as_str());
            push_str(&mut r, ")");
            Some(r)
        } else {
            None
        }
    } else if kind == 3 {
        if tagged {
            let mut r = string_of(" . add (:: proto_rs :: ProtoArchive :: encoded_size_hint :: < ");
            push_str(&mut r, tag.as_str());
            push_str(&mut r, "u32 > (& ");
            push_str(&mut r, shadow_access(f, j).as_str());
            push_str(&mut r, "))");
            Some(r)
        } else {
            None
        }
    } else if kind == 4 {
        if tagged && !needs_decode_conversion(&f.config, &f.parsed) {
            let mut r = string_of("< ");
            push_str(&mut r, f.field_ty.code.as_str());
            push_str(&mut r, " as :: proto_rs :: ProtoFieldMerge > :: finish_value (& mut ");
            push_str(&mut r, f.access.access_tokens("self").as_str());
            push_str(&mut r, " , & state . field (");
            push_str(&mut r, tag.as_str());
            push_str(&mut r, "u32)) ? ; ");
            Some(r)
        } else {
            None
        }
    } else if kind == 5 {
        if tagged {
            let mut r = string_of(" . add (");
            if needs_encode_conversion(&f.config, &f.parsed) || f.config.getter.is_some() {
                push_str(&mut r, "< ");
                push_str(&mut r, f.proto_ty.code.as_str());
                push_str(&mut r, " as :: proto_rs :: ProtoExt > :: ENCODED_SIZE_HINT . for_field :: < ");
                push_str(&mut r, tag.as_str());
                push_str(&mut r, "u32 > (< ");
                push_str(&mut r, f.proto_ty.code.as_str());
                push_str(&mut r, " as :: proto_rs :: ProtoExt > :: WIRE_TYPE)");
            } else {
                push_str(&mut r, "< ");
                push_str(&mut r, f.field_ty.code.as_str());
                push_str(&mut r, " as :: proto_rs :: ProtoEncode > :: size_hint :: < ");
                push_str(&mut r, tag.as_str());
                push_str(&mut r, "u32 > (& ");
                push_str(&mut r, f.access.access_tokens("self").as_str());
                push_str(&mut r, ")");
            }
            push_str(&mut r, ")");
            Some(r)
        } else {
            None
        }
    } else if kind == 6 {
        match &f.config.skip_deser_fn {
            Some(fun) => {
                if f.config.skip {
                    let mut r = string_of("{ let __proto_rs_tmp = ");
                    push_str(&mut r, fun.as_str());
                    push_str(&mut r, " (& mut ");
                    push_str(&mut r, base);
                    push_str(&mut r, ") ; ");
                    push_str(&mut r, f.access.access_tokens(base).as_str());
                    push_str(&mut r, " = __proto_rs_tmp ; } ");
                    Some(r)
                } else {
                    None
                }
            },
            None => None,
        }
    } else if kind == 7 {
        match &f.config.validator {
            Some(v) => {
                if tagged {
                    let mut r = string_of(v.as_str());
                    push_str(&mut r, " (& mut ");
                    push_str(&mut r, f.access.access_tokens(base).as_str());
                    push_str(&mut r, ") ? ; ");
                    Some(r)
                } else {
                    None
                }
            },
            None => None,
        }
    } else if kind == 8 {
        let mut r = String::new();
        push_name_prefix(&mut r, f);
        push_str(&mut r, sun_init(f).as_str());
        push_str(&mut r, " , ");
        Some(r)
    } else {
        match crate::field_code::decode_match_arm(f, "value") {
            Some(a) => {
                let mut r = a;
                push_str(&mut r, " , ");
                Some(r)
            },
            None => None,
        }
    };
    proof {
        if r is Some {
            assert(opt_view(r) =~= field_piece(kind as nat, *f, j as nat, base@, use_getters));
        }
    }
    r
}

pub open spec fn opt_view(o: Option<String>) -> Option<Seq<char>> {
    match o {
        Some(s) => Some(s@),
        None => None,
    }
}

/// The pieces of kind `kind` of all the fields (see `pieces_spec`).
pub(crate) fn pieces(kind: u8, fields: &Vec<FieldInfo>, base: &str, use_getters: bool) -> (r: String)
    requires
        kind <= 9,
        forall|i: int| 0 <= i < fields@.len() ==> piece_valid(kind as nat, #[trigger] fields@[i], use_getters),
    ensures
        r@ == pieces_spec(kind as nat, fields@, base@, use_getters),
{
    let mut r = String::new();
    let mut j: usize = 0;
    let n = fields.len();
    let mut i: usize = 0;
    while i < n
        invariant
            n == fields@.len(),
            i <= n,
            kind <= 9,
            forall|k: int| 0 <= k < fields@.len() ==> piece_valid(kind as nat, #[trigger] fields@[k], use_getters),
            j as nat == tagged_count(fields@.subrange(0, i as int)),
            j <= i,
            r@ == pieces_spec(kind as nat, fields@.subrange(0, i as int), base@, use_getters),
        decreases n - i,
    {
        let f = &fields[i];
        proof {
            let q = fields@.subrange(0, i + 1);
            assert(q.drop_last() =~= fields@.subrange(0, i as int));
            assert(q.last() == fields@[i as int]);
        }
        match field_piece_exec(kind, f, j, base, use_getters) {
            Some(p) => push_str(&mut r, p.as_str()),
            None => {},
        }
        if f.tag.is_some() {
            j = j + 1;
        }
        assert(r@ =~= pieces_spec(kind as nat, fields@.subrange(0, i + 1), base@, use_getters));
        i = i + 1;
    }
    assert(fields@.subrange(0, n as int) =~= fields@);
    r
}

/// The statement that archives the `j`-th kept field of the shadow under its tag.
pub open spec fn archive_field_spec(f: FieldInfo, j: nat) -> Seq<char> {
    ":: proto_rs :: ArchivedProtoField :: < "@ + nat_text(f.tag->Some_0 as nat) + "u32 , "@
        + shadow_field_ty_spec(f, "'a"@) + " > :: archive (& "@ + shadow_access_spec(f, j) + " , w) ; "@
}

/// The archiving statements of the kept fields, last field first: the writer fills the buffer
/// from its end.
pub open spec fn archive_fields_spec(fs: Seq<FieldInfo>) -> Seq<char>
    decreases fs.len(),
{
    if fs.len() == 0 {
        Seq::empty()
    } else {
        (if fs.last().tag is Some {
            archive_field_spec(fs.last(), tagged_count(fs.drop_last()))
        } else {
            Seq::<char>::empty()
        }) + archive_fields_spec(fs.drop_last())
    }
}

/// The size hint of the shadow: the empty hint, with each kept field's hint added in turn.
pub open spec fn size_hint_fold_spec(fs: Seq<FieldInfo>) -> Seq<char>
    decreases fs.len(),
{
    if fs.len() == 0 {
        ":: proto_rs :: EncodeSizeHint :: new (0 , true)"@
    } else if fs.last().tag is Some {
        let f = fs.last();
        let t = shadow_field_ty_spec(f, "'a"@);
        "("@ + size_hint_fold_spec(fs.drop_last()) + ") . add_field :: < "@ + nat_text(f.tag->Some_0 as nat)
            + "u32 > (< "@ + t + " as :: proto_rs :: ProtoExt > :: ENCODED_SIZE_HINT , < "@ + t
            + " as :: proto_rs :: ProtoExt > :: WIRE_TYPE ,)"@
    } else {
        size_hint_fold_spec(fs.drop_last())
    }
}

pub(crate) fn archive_fields(fields: &Vec<FieldInfo>) -> (r: String)
    ensures
        r@ == archive_fields_spec(fields@),
{
    let mut r = String::new();
    let mut j: usize = 0;
    let n = fields.len();
    let mut i: usize = 0;
    while i < n
        invariant
            n == fields@.len(),
            i <= n,
            j as nat == tagged_count(fields@.subrange(0, i as int)),
            j <= i,
            r@ == archive_fields_spec(fields@.subrange(0, i as int)),
        decreases n - i,
    {
        let f = &fields[i];
        proof {
            let q = fields@.subrange(0, i + 1);
            assert(q.drop_last() =~= fields@.subrange(0, i as int));
            assert(q.last() == fields@[i as int]);
        }
        if let Some(t) = f.tag {
            let mut p = string_of(":: proto_rs :: ArchivedProtoField :: < ");
            push_u64(&mut p, t as u64);
            push_str(&mut p, "u32 , ");
            push_str(&mut p, shadow_field_ty(f, "'a").as_str());
            push_str(&mut p, " > :: archive (& ");
            push_str(&mut p, shadow_access(f, j).as_str());
            push_str(&mut p, " , w) ; ");
            push_str(&mut p, r.as_str());
            r = p;
            j = j + 1;
        }
        assert(r@ =~= archive_fields_spec(fields@.subrange(0, i + 1)));
        i = i + 1;
    }
    assert(fields@.subrange(0, n as int) =~= fields@);
    r
}

pub(crate) fn size_hint_fold(fields: &Vec<FieldInfo>) -> (r: String)
    ensures
        r@ == size_hint_fold_spec(fields@),
{
    let mut r = string_of(":: proto_rs :: EncodeSizeHint :: new (0 , true)");
    let n = fields.len();
    let mut i: usize = 0;
    assert(fields@.subrange(0, 0) =~= Seq::<FieldInfo>::empty());
    while i < n
        invariant
            n == fields@.len(),
            i <= n,
            r@ == size_hint_fold_spec(fields@.subrange(0, i as int)),
        decreases n - i,
    {
        let f = &fields[i];
        proof {
            let q = fields@.subrange(0, i + 1);
            assert(q.drop_last() =~= fields@.subrange(0, i as int));
            assert(q.last() == fields@[i as int]);
        }
        if let Some(t) = f.tag {
            let ty = shadow_field_ty(f, "'a");
            let mut p = string_of("(");
            push_str(&mut p, r.as_str());
            push_str(&mut p, ") . add_field :: < ");
            push_u64(&mut p, t as u64);
            push_str(&mut p, "u32 > (< ");
            push_str(&mut p, ty.as_str());
            push_str(&mut p, " as :: proto_rs :: ProtoExt > :: ENCODED_SIZE_HINT , < ");
            push_str(&mut p, ty.as_str());
            push_str(&mut p, " as :: proto_rs :: ProtoExt > :: WIRE_TYPE ,)");
            r = p;
        }
        assert(r@ =~= size_hint_fold_spec(fields@.subrange(0, i + 1)));
        i = i + 1;
    }
    assert(fields@.subrange(0, n as int) =~= fields@);
    r
}

/// The shadow of a struct with named fields: the kept fields' shadows and a lifetime marker.
#[verifier::opaque]
pub open spec fn shadow_struct_named_spec(vis: Seq<char>, sn: Seq<char>, sig: Seq<char>, swc: Seq<char>, defs: Seq<char>) -> Seq<char> {
    vis
        + " struct "@
        + sn
        + " "@
        + sig
        + " "@
        + swc
        + " { "@
        + defs
        + "__proto_phantom : :: core :: marker :: PhantomData < & 'a () > , } "@
}

pub(crate) fn shadow_struct_named(vis: &str, sn: &str, sig: &str, swc: &str, defs: &str) -> (r: String)
    ensures
        r@ == shadow_struct_named_spec(vis@, sn@, sig@, swc@, defs@),
{
    let mut r = String::new();
    push_str(&mut r, vis);
    push_str(&mut r, " struct ");
    push_str(&mut r, sn);
    push_str(&mut r, " ");
    push_str(&mut r, sig);
    push_str(&mut r, " ");
    push_str(&mut r, swc);
    push_str(&mut r, " { ");
    push_str(&mut r, defs);
    push_str(&mut r, "__proto_phantom : :: core :: marker :: PhantomData < & 'a () > , } ");
    reveal(shadow_struct_named_spec);
    assert(r@ =~= shadow_struct_named_spec(vis@, sn@, sig@, swc@, defs@));
    r
}

/// The shadow of a tuple struct: the kept fields' shadows and a lifetime marker.
#[verifier::opaque]
pub open spec fn shadow_struct_tuple_spec(vis: Seq<char>, sn: Seq<char>, sig: Seq<char>, swc: Seq<char>, defs: Seq<char>) -> Seq<char> {
    vis
        + " struct "@
        + sn
        + " "@
        + sig
        + " ("@
        + defs
        + ":: core :: marker :: PhantomData < & 'a () > ,) "@
        + swc
        + " ; "@
}

pub(crate) fn shadow_struct_tuple(vis: &str, sn: &str, sig: &str, swc: &str, defs: &str) -> (r: String)
    ensures
        r@ == shadow_struct_tuple_spec(vis@, sn@, sig@, swc@, defs@),
{
    let mut r = String::new();
    push_str(&mut r, vis);
    push_str(&mut r, " struct ");
    push_str(&mut r, sn);
    push_str(&mut r, " ");
    push_str(&mut r, sig);
    push_str(&mut r, " (");
    push_str(&mut r, defs);
    push_str(&mut r, ":: core :: marker :: PhantomData < & 'a () > ,) ");
    push_str(&mut r, swc);
    push_str(&mut r, " ; ");
    reveal(shadow_struct_tuple_spec);
    assert(r@ =~= shadow_struct_tuple_spec(vis@, sn@, sig@, swc@, defs@));
    r
}

/// The shadow of a unit struct: a lifetime marker.
#[verifier::opaque]
pub open spec fn shadow_struct_unit_spec(vis: Seq<char>, sn: Seq<char>, sig: Seq<char>, swc: Seq<char>) -> Seq<char> {
    vis
        + " struct "@
        + sn
        + " "@
        + sig
        + " "@
        + swc
        + " { __proto_phantom : :: core :: marker :: PhantomData < & 'a () > , } "@
}

pub(crate) fn shadow_struct_unit(vis: &str, sn: &str, sig: &str, swc: &str) -> (r: String)
    ensures
        r@ == shadow_struct_unit_spec(vis@, sn@, sig@, swc@),
{
    let mut r = String::new();
    push_str(&mut r, vis);
    push_str(&mut r, " struct ");
    push_str(&mut r, sn);
    push_str(&mut r, " ");
    push_str(&mut r, sig);
    push_str(&mut r, " ");
    push_str(&mut r, swc);
    push_str(&mut r, " { __proto_phantom : :: core :: marker :: PhantomData < & 'a () > , } ");
    reveal(shadow_struct_unit_spec);
    assert(r@ =~= shadow_struct_unit_spec(vis@, sn@, sig@, swc@));
    r
}

/// The impls of a struct's shadow `sn`: its size hint, how it is built from the struct, and how
/// it is archived.
#[verifier::opaque]
pub open spec fn shadow_impls_body_spec(sig: Seq<char>, sn: Seq<char>, stg: Seq<char>, swc: Seq<char>, n: Seq<char>, tg: Seq<char>, size_hint: Seq<char>, init: Seq<char>, isdef: Seq<char>, hints: Seq<char>, arch: Seq<char>) -> Seq<char> {
    "impl "@
        + sig
        + " :: proto_rs :: ProtoExt for "@
        + sn
        + " "@
        + stg
        + " "@
        + swc
        + " { const KIND : :: proto_rs :: ProtoKind = :: proto_rs :: ProtoKind :: Message ; const ENCODED_SIZE_HINT : :: proto_rs :: EncodeSizeHint = "@
        + size_hint
        + " ; } impl "@
        + sig
        + " :: proto_rs :: ProtoShadowEncode < 'a , "@
        + n
        + " "@
        + tg
        + " > for "@
        + sn
        + " "@
        + stg
        + " "@
        + swc
        + " { # [inline] fn from_sun (value : & 'a "@
        + n
        + " "@
        + tg
        + ") -> Self { "@
        + init
        + " } } impl "@
        + sig
        + " :: proto_rs :: ProtoArchive for "@
        + sn
        + " "@
        + stg
        + " "@
        + swc
        + " { # [inline] fn is_default (& self) -> bool { "@
        + isdef
        + " } # [inline] fn encoded_size_hint < const TAG : u32 > (& self) -> :: proto_rs :: EncodeSizeHint { let payload = :: proto_rs :: EncodeSizeHint :: EMPTY "@
        + hints
        + " ; payload . for_field :: < TAG > (< Self as :: proto_rs :: ProtoExt > :: WIRE_TYPE) } # [inline] fn archive < const TAG : u32 > (& self , w : & mut impl :: proto_rs :: RevWriter) { let mark = w . mark () ; "@
        + arch
        + "if TAG != 0 { let payload_len = w . written_since (mark) ; w . put_varint (payload_len as u64) ; :: proto_rs :: ArchivedProtoField :: < TAG , Self > :: put_key (w) ; } } } "@
}

pub(crate) fn shadow_impls_body(sig: &str, sn: &str, stg: &str, swc: &str, n: &str, tg: &str, size_hint: &str, init: &str, isdef: &str, hints: &str, arch: &str) -> (r: String)
    ensures
        r@ == shadow_impls_body_spec(sig@, sn@, stg@, swc@, n@, tg@, size_hint@, init@, isdef@, hints@, arch@),
{
    let mut r = String::new();
    push_str(&mut r, "impl ");
    push_str(&mut r, sig);
    push_str(&mut r, " :: proto_rs :: ProtoExt for ");
    push_str(&mut r, sn);
    push_str(&mut r, " ");
    push_str(&mut r, stg);
    push_str(&mut r, " ");
    push_str(&mut r, swc);
    push_str(&mut r, " { const KIND : :: proto_rs :: ProtoKind = :: proto_rs :: ProtoKind :: Message ; const ENCODED_SIZE_HINT : :: proto_rs :: EncodeSizeHint = ");
    push_str(&mut r, size_hint);
    push_str(&mut r, " ; } impl ");
    push_str(&mut r, sig);
    push_str(&mut r, " :: proto_rs :: ProtoShadowEncode < 'a , ");
    push_str(&mut r, n);
    push_str(&mut r, " ");
    push_str(&mut r, tg);
    push_str(&mut r, " > for ");
    push_str(&mut r, sn);
    push_str(&mut r, " ");
    push_str(&mut r, stg);
    push_str(&mut r, " ");
    push_str(&mut r, swc);
    push_str(&mut r, " { # [inline] fn from_sun (value : & 'a ");
    push_str(&mut r, n);
    push_str(&mut r, " ");
    push_str(&mut r, tg);
    push_str(&mut r, ") -> Self { ");
    push_str(&mut r, init);
    push_str(&mut r, " } } impl ");
    push_str(&mut r, sig);
    push_str(&mut r, " :: proto_rs :: ProtoArchive for ");
    push_str(&mut r, sn);
    push_str(&mut r, " ");
    push_str(&mut r, stg);
    push_str(&mut r, " ");
    push_str(&mut r, swc);
    push_str(&mut r, " { # [inline] fn is_default (& self) -> bool { ");
    push_str(&mut r, isdef);
    push_str(&mut r, " } # [inline] fn encoded_size_hint < const TAG : u32 > (& self) -> :: proto_rs :: EncodeSizeHint { let payload = :: proto_rs :: EncodeSizeHint :: EMPTY ");
    push_str(&mut r, hints);
    push_str(&mut r, " ; payload . for_field :: < TAG > (< Self as :: proto_rs :: ProtoExt > :: WIRE_TYPE) } # [inline] fn archive < const TAG : u32 > (& self , w : & mut impl :: proto_rs :: RevWriter) { let mark = w . mark () ; ");
    push_str(&mut r, arch);
    push_str(&mut r, "if TAG != 0 { let payload_len = w . written_since (mark) ; w . put_varint (payload_len as u64) ; :: proto_rs :: ArchivedProtoField :: < TAG , Self > :: put_key (w) ; } } } ");
    reveal(shadow_impls_body_spec);
    assert(r@ =~= shadow_impls_body_spec(sig@, sn@, stg@, swc@, n@, tg@, size_hint@, init@, isdef@, hints@, arch@));
    r
}

/// The impls of a struct `n`: decoding field by field with its hooks, its default, and encoding
/// through its shadow, followed by the impls of its `sun` types.
#[verifier::opaque]
pub open spec fn proto_body_spec(ig: Seq<char>, n: Seq<char>, tg: Seq<char>, wc: Seq<char>, sts: Seq<char>, finish: Seq<char>, mhooks: Seq<char>, mvhooks: Seq<char>, mmsg: Seq<char>, arms: Seq<char>, defer: Seq<char>, dhooks: Seq<char>, dvhooks: Seq<char>, dmsg: Seq<char>, default_expr: Seq<char>, post_decode: Seq<char>, vproto: Seq<char>, st: Seq<char>, cheap: Seq<char>, suns: Seq<char>) -> Seq<char> {
    "impl "@
        + ig
        + " :: proto_rs :: ProtoExt for "@
        + n
        + " "@
        + tg
        + " "@
        + wc
        + " { const KIND : :: proto_rs :: ProtoKind = :: proto_rs :: ProtoKind :: Message ; const ENCODED_SIZE_HINT : :: proto_rs :: EncodeSizeHint = < "@
        + sts
        + " as :: proto_rs :: ProtoExt > :: ENCODED_SIZE_HINT ; } impl "@
        + ig
        + " :: proto_rs :: ProtoDecoder for "@
        + n
        + " "@
        + tg
        + " "@
        + wc
        + " { # [inline] fn finish (& mut self , state : & :: proto_rs :: DecodeState < '_ >) -> Result < () , :: proto_rs :: DecodeError > { if ! state . has_data () { return Ok (()) ; } "@
        + finish
        + "if state . pending () { "@
        + mhooks
        + mvhooks
        + mmsg
        + " } Ok (()) } # [inline] fn merge_field (value : & mut Self , tag : u32 , wire_type : :: proto_rs :: encoding :: WireType , buf : & mut impl :: proto_rs :: bytes :: Buf , ctx : :: proto_rs :: encoding :: DecodeContext ,) -> Result < () , :: proto_rs :: DecodeError > { let state = :: proto_rs :: DecodeState :: default () ; Self :: merge_field_with_state (value , tag , wire_type , buf , ctx , & state) ? ; Self :: finish (value , & state) } # [inline] fn merge_field_with_state (value : & mut Self , tag : u32 , wire_type : :: proto_rs :: encoding :: WireType , buf : & mut impl :: proto_rs :: bytes :: Buf , ctx : :: proto_rs :: encoding :: DecodeContext , state : & :: proto_rs :: DecodeState < '_ > ,) -> Result < () , :: proto_rs :: DecodeError > { match tag { "@
        + arms
        + "_ => :: proto_rs :: encoding :: skip_field (wire_type , tag , buf , ctx) , } } # [inline] fn merge (& mut self , wire_type : :: proto_rs :: encoding :: WireType , buf : & mut impl :: proto_rs :: bytes :: Buf , ctx : :: proto_rs :: encoding :: DecodeContext) -> Result < () , :: proto_rs :: DecodeError > { let state = :: proto_rs :: DecodeState :: default () ; self . merge_with_state (wire_type , buf , ctx , & state) ? ; self . finish (& state) } # [inline] fn merge_with_state (& mut self , wire_type : :: proto_rs :: encoding :: WireType , buf : & mut impl :: proto_rs :: bytes :: Buf , ctx : :: proto_rs :: encoding :: DecodeContext , state : & :: proto_rs :: DecodeState < '_ >) -> Result < () , :: proto_rs :: DecodeError > { self . merge_message_fields (wire_type , buf , ctx , state) ? ; "@
        + defer
        + " Ok (()) } # [inline] fn decode (mut buf : impl :: proto_rs :: bytes :: Buf , ctx : :: proto_rs :: encoding :: DecodeContext) -> Result < Self , :: proto_rs :: DecodeError > where Self : :: proto_rs :: ProtoDefault , { ctx . limit_reached () ? ; let mut value = < Self as :: proto_rs :: ProtoDefault > :: proto_default () ; Self :: decode_into (& mut value , & mut buf , ctx) ? ; "@
        + dhooks
        + dvhooks
        + dmsg
        + " Ok (value) } } impl "@
        + ig
        + " :: proto_rs :: ProtoDefault for "@
        + n
        + " "@
        + tg
        + " "@
        + wc
        + " { # [inline] fn proto_default () -> Self { "@
        + default_expr
        + " } } impl "@
        + ig
        + " :: proto_rs :: ProtoDecode for "@
        + n
        + " "@
        + tg
        + " "@
        + wc
        + " { type ShadowDecoded = Self ; "@
        + post_decode
        + " "@
        + vproto
        + " } impl "@
        + ig
        + " :: proto_rs :: ProtoShadowDecode < "@
        + n
        + " "@
        + tg
        + " > for "@
        + n
        + " "@
        + tg
        + " "@
        + wc
        + " { # [inline] fn to_sun (self) -> Result < "@
        + n
        + " "@
        + tg
        + " , :: proto_rs :: DecodeError > { Ok (self) } } impl "@
        + ig
        + " :: proto_rs :: ProtoEncode for "@
        + n
        + " "@
        + tg
        + " "@
        + wc
        + " { type Shadow < 'a > = "@
        + st
        + " ; # [inline] fn size_hint < const TAG : u32 > (& self) -> :: proto_rs :: EncodeSizeHint { let payload = :: proto_rs :: EncodeSizeHint :: EMPTY "@
        + cheap
        + " ; payload . for_field :: < TAG > (< Self as :: proto_rs :: ProtoExt > :: WIRE_TYPE) } } impl "@
        + ig
        + " :: proto_rs :: ProtoArchive for "@
        + n
        + " "@
        + tg
        + " "@
        + wc
        + " { # [inline] fn is_default (& self) -> bool { let shadow = < "@
        + sts
        + " as :: proto_rs :: ProtoShadowEncode < '_ , "@
        + n
        + " "@
        + tg
        + " > > :: from_sun (self) ; :: proto_rs :: ProtoArchive :: is_default (& shadow) } # [inline] fn encoded_size_hint < const TAG : u32 > (& self) -> :: proto_rs :: EncodeSizeHint { < Self as :: proto_rs :: ProtoEncode > :: size_hint :: < TAG > (self) } # [inline] fn archive < const TAG : u32 > (& self , w : & mut impl :: proto_rs :: RevWriter) { let shadow = < "@
        + sts
        + " as :: proto_rs :: ProtoShadowEncode < '_ , "@
        + n
        + " "@
        + tg
        + " > > :: from_sun (self) ; < "@
        + sts
        + " as :: proto_rs :: ProtoArchive > :: archive :: < TAG > (& shadow , w) ; } } "@
        + suns
}

pub(crate) fn proto_body(ig: &str, n: &str, tg: &str, wc: &str, sts: &str, finish: &str, mhooks: &str, mvhooks: &str, mmsg: &str, arms: &str, defer: &str, dhooks: &str, dvhooks: &str, dmsg: &str, default_expr: &str, post_decode: &str, vproto: &str, st: &str, cheap: &str, suns: &str) -> (r: String)
    ensures
        r@ == proto_body_spec(ig@, n@, tg@, wc@, sts@, finish@, mhooks@, mvhooks@, mmsg@, arms@, defer@, dhooks@, dvhooks@, dmsg@, default_expr@, post_decode@, vproto@, st@, cheap@, suns@),
{
    let mut r = String::new();
    push_str(&mut r, "impl ");
    push_str(&mut r, ig);
    push_str(&mut r, " :: proto_rs :: ProtoExt for ");
    push_str(&mut r, n);
    push_str(&mut r, " ");
    push_str(&mut r, tg);
    push_str(&mut r, " ");
    push_str(&mut r, wc);
    push_str(&mut r, " { const KIND : :: proto_rs :: ProtoKind = :: proto_rs :: ProtoKind :: Message ; const ENCODED_SIZE_HINT : :: proto_rs :: EncodeSizeHint = < ");
    push_str(&mut r, sts);
    push_str(&mut r, " as :: proto_rs :: ProtoExt > :: ENCODED_SIZE_HINT ; } impl ");
    push_str(&mut r, ig);
    push_str(&mut r, " :: proto_rs :: ProtoDecoder for ");
    push_str(&mut r, n);
    push_str(&mut r, " ");
    push_str(&mut r, tg);
    push_str(&mut r, " ");
    push_str(&mut r, wc);
    push_str(&mut r, " { # [inline] fn finish (& mut self , state : & :: proto_rs :: DecodeState < '_ >) -> Result < () , :: proto_rs :: DecodeError > { if ! state . has_data () { return Ok (()) ; } ");
    push_str(&mut r, finish);
    push_str(&mut r, "if state . pending () { ");
    push_str(&mut r, mhooks);
    push_str(&mut r, mvhooks);
    push_str(&mut r, mmsg);
    push_str(&mut r, " } Ok (()) } # [inline] fn merge_field (value : & mut Self , tag : u32 , wire_type : :: proto_rs :: encoding :: WireType , buf : & mut impl :: proto_rs :: bytes :: Buf , ctx : :: proto_rs :: encoding :: DecodeContext ,) -> Result < () , :: proto_rs :: DecodeError > { let state = :: proto_rs :: DecodeState :: default () ; Self :: merge_field_with_state (value , tag , wire_type , buf , ctx , & state) ? ; Self :: finish (value , & state) } # [inline] fn merge_field_with_state (value : & mut Self , tag : u32 , wire_type : :: proto_rs :: encoding :: WireType , buf : & mut impl :: proto_rs :: bytes :: Buf , ctx : :: proto_rs :: encoding :: DecodeContext , state : & :: proto_rs :: DecodeState < '_ > ,) -> Result < () , :: proto_rs :: DecodeError > { match tag { ");
    push_str(&mut r, arms);
    push_str(&mut r, "_ => :: proto_rs :: encoding :: skip_field (wire_type , tag , buf , ctx) , } } # [inline] fn merge (& mut self , wire_type : :: proto_rs :: encoding :: WireType , buf : & mut impl :: proto_rs :: bytes :: Buf , ctx : :: proto_rs :: encoding :: DecodeContext) -> Result < () , :: proto_rs :: DecodeError > { let state = :: proto_rs :: DecodeState :: default () ; self . merge_with_state (wire_type , buf , ctx , & state) ? ; self . finish (& state) } # [inline] fn merge_with_state (& mut self , wire_type : :: proto_rs :: encoding :: WireType , buf : & mut impl :: proto_rs :: bytes :: Buf , ctx : :: proto_rs :: encoding :: DecodeContext , state : & :: proto_rs :: DecodeState < '_ >) -> Result < () , :: proto_rs :: DecodeError > { self . merge_message_fields (wire_type , buf , ctx , state) ? ; ");
    push_str(&mut r, defer);
    push_str(&mut r, " Ok (()) } # [inline] fn decode (mut buf : impl :: proto_rs :: bytes :: Buf , ctx : :: proto_rs :: encoding :: DecodeContext) -> Result < Self , :: proto_rs :: DecodeError > where Self : :: proto_rs :: ProtoDefault , { ctx . limit_reached () ? ; let mut value = < Self as :: proto_rs :: ProtoDefault > :: proto_default () ; Self :: decode_into (& mut value , & mut buf , ctx) ? ; ");
    push_str(&mut r, dhooks);
    push_str(&mut r, dvhooks);
    push_str(&mut r, dmsg);
    push_str(&mut r, " Ok (value) } } impl ");
    push_str(&mut r, ig);
    push_str(&mut r, " :: proto_rs :: ProtoDefault for ");
    push_str(&mut r, n);
    push_str(&mut r, " ");
    push_str(&mut r, tg);
    push_str(&mut r, " ");
    push_str(&mut r, wc);
    push_str(&mut r, " { # [inline] fn proto_default () -> Self { ");
    push_str(&mut r, default_expr);
    push_str(&mut r, " } } impl ");
    push_str(&mut r, ig);
    push_str(&mut r, " :: proto_rs :: ProtoDecode for ");
    push_str(&mut r, n);
    push_str(&mut r, " ");
    push_str(&mut r, tg);
    push_str(&mut r, " ");
    push_str(&mut r, wc);
    push_str(&mut r, " { type ShadowDecoded = Self ; ");
    push_str(&mut r, post_decode);
    push_str(&mut r, " ");
    push_str(&mut r, vproto);
    push_str(&mut r, " } impl ");
    push_str(&mut r, ig);
    push_str(&mut r, " :: proto_rs :: ProtoShadowDecode < ");
    push_str(&mut r, n);
    push_str(&mut r, " ");
    push_str(&mut r, tg);
    push_str(&mut r, " > for ");
    push_str(&mut r, n);
    push_str(&mut r, " ");
    push_str(&mut r, tg);
    push_str(&mut r, " ");
    push_str(&mut r, wc);
    push_str(&mut r, " { # [inline] fn to_sun (self) -> Result < ");
    push_str(&mut r, n);
    push_str(&mut r, " ");
    push_str(&mut r, tg);
    push_str(&mut r, " , :: proto_rs :: DecodeError > { Ok (self) } } impl ");
    push_str(&mut r, ig);
    push_str(&mut r, " :: proto_rs :: ProtoEncode for ");
    push_str(&mut r, n);
    push_str(&mut r, " ");
    push_str(&mut r, tg);
    push_str(&mut r, " ");
    push_str(&mut r, wc);
    push_str(&mut r, " { type Shadow < 'a > = ");
    push_str(&mut r, st);
    push_str(&mut r, " ; # [inline] fn size_hint < const TAG : u32 > (& self) -> :: proto_rs :: EncodeSizeHint { let payload = :: proto_rs :: EncodeSizeHint :: EMPTY ");
    push_str(&mut r, cheap);
    push_str(&mut r, " ; payload . for_field :: < TAG > (< Self as :: proto_rs :: ProtoExt > :: WIRE_TYPE) } } impl ");
    push_str(&mut r, ig);
    push_str(&mut r, " :: proto_rs :: ProtoArchive for ");
    push_str(&mut r, n);
    push_str(&mut r, " ");
    push_str(&mut r, tg);
    push_str(&mut r, " ");
    push_str(&mut r, wc);
    push_str(&mut r, " { # [inline] fn is_default (& self) -> bool { let shadow = < ");
    push_str(&mut r, sts);
    push_str(&mut r, " as :: proto_rs :: ProtoShadowEncode < '_ , ");
    push_str(&mut r, n);
    push_str(&mut r, " ");
    push_str(&mut r, tg);
    push_str(&mut r, " > > :: from_sun (self) ; :: proto_rs :: ProtoArchive :: is_default (& shadow) } # [inline] fn encoded_size_hint < const TAG : u32 > (& self) -> :: proto_rs :: EncodeSizeHint { < Self as :: proto_rs :: ProtoEncode > :: size_hint :: < TAG > (self) } # [inline] fn archive < const TAG : u32 > (& self , w : & mut impl :: proto_rs :: RevWriter) { let shadow = < ");
    push_str(&mut r, sts);
    push_str(&mut r, " as :: proto_rs :: ProtoShadowEncode < '_ , ");
    push_str(&mut r, n);
    push_str(&mut r, " ");
    push_str(&mut r, tg);
    push_str(&mut r, " > > :: from_sun (self) ; < ");
    push_str(&mut r, sts);
    push_str(&mut r, " as :: proto_rs :: ProtoArchive > :: archive :: < TAG > (& shadow , w) ; } } ");
    push_str(&mut r, suns);
    reveal(proto_body_spec);
    assert(r@ =~= proto_body_spec(ig@, n@, tg@, wc@, sts@, finish@, mhooks@, mvhooks@, mmsg@, arms@, defer@, dhooks@, dvhooks@, dmsg@, default_expr@, post_decode@, vproto@, st@, cheap@, suns@));
    r
}

/// The `post_decode` hook: the skipped fields' hooks, the field validators and the message
/// validator run on the decoded shadow, which `ret` returns.
#[verifier::opaque]
pub open spec fn post_decode_fn_spec(hooks: Seq<char>, vhooks: Seq<char>, msg: Seq<char>, ret: Seq<char>) -> Seq<char> {
    "# [inline] fn post_decode (value : Self :: ShadowDecoded) -> Result < Self , :: proto_rs :: DecodeError > { let mut shadow = value ; "@
        + hooks
        + vhooks
        + msg
        + " "@
        + ret
        + " }"@
}

pub(crate) fn post_decode_fn(hooks: &str, vhooks: &str, msg: &str, ret: &str) -> (r: String)
    ensures
        r@ == post_decode_fn_spec(hooks@, vhooks@, msg@, ret@),
{
    let mut r = String::new();
    push_str(&mut r, "# [inline] fn post_decode (value : Self :: ShadowDecoded) -> Result < Self , :: proto_rs :: DecodeError > { let mut shadow = value ; ");
    push_str(&mut r, hooks);
    push_str(&mut r, vhooks);
    push_str(&mut r, msg);
    push_str(&mut r, " ");
    push_str(&mut r, ret);
    push_str(&mut r, " }");
    reveal(post_decode_fn_spec);
    assert(r@ =~= post_decode_fn_spec(hooks@, vhooks@, msg@, ret@));
    r
}

/// The impls that encode and decode the `sun` type `t` of a struct `n` through the struct.
#[verifier::opaque]
pub open spec fn struct_sun_impl_spec(ig: Seq<char>, wc: Seq<char>, t: Seq<char>, n: Seq<char>, tg: Seq<char>, sse: Seq<char>, sunpd: Seq<char>, vext: Seq<char>) -> Seq<char> {
    "impl "@
        + ig
        + " :: proto_rs :: ProtoExt for "@
        + t
        + " "@
        + wc
        + " { const KIND : :: proto_rs :: ProtoKind = :: proto_rs :: ProtoKind :: Message ; } "@
        + sse
        + "impl "@
        + ig
        + " :: proto_rs :: ProtoEncode for "@
        + t
        + " "@
        + wc
        + " { type Shadow < 'a > = "@
        + n
        + " "@
        + tg
        + " ; } impl "@
        + ig
        + " :: proto_rs :: ProtoDecode for "@
        + t
        + " "@
        + wc
        + " { type ShadowDecoded = "@
        + n
        + " "@
        + tg
        + " ; "@
        + sunpd
        + " "@
        + vext
        + " } impl "@
        + ig
        + " :: proto_rs :: ProtoDefault for "@
        + t
        + " "@
        + wc
        + " { # [inline] fn proto_default () -> Self { let shadow = < "@
        + n
        + " "@
        + tg
        + " as :: proto_rs :: ProtoDefault > :: proto_default () ; < "@
        + n
        + " "@
        + tg
        + " as :: proto_rs :: ProtoShadowDecode < "@
        + t
        + " > > :: to_sun (shadow) . expect (\"failed to build default sun value\") } } impl "@
        + ig
        + " :: proto_rs :: ProtoFieldMerge for "@
        + t
        + " "@
        + wc
        + " { # [inline] fn finish_value (& mut self , state : & :: proto_rs :: DecodeState < '_ >) -> Result < () , :: proto_rs :: DecodeError > { if ! state . has_data () { return Ok (()) ; } let mut shadow = < "@
        + n
        + " "@
        + tg
        + " as :: proto_rs :: ProtoShadowEncode < '_ , "@
        + t
        + " > > :: from_sun (self) ; < "@
        + n
        + " "@
        + tg
        + " as :: proto_rs :: ProtoDecoder > :: finish (& mut shadow , state) ? ; * self = < "@
        + n
        + " "@
        + tg
        + " as :: proto_rs :: ProtoShadowDecode < "@
        + t
        + " > > :: to_sun (shadow) ? ; Ok (()) } # [inline] fn merge_value_with_state (& mut self , wire_type : :: proto_rs :: encoding :: WireType , buf : & mut impl :: proto_rs :: bytes :: Buf , ctx : :: proto_rs :: encoding :: DecodeContext , state : & :: proto_rs :: DecodeState < '_ > ,) -> Result < () , :: proto_rs :: DecodeError > { let mut shadow = < "@
        + n
        + " "@
        + tg
        + " as :: proto_rs :: ProtoShadowEncode < '_ , "@
        + t
        + " > > :: from_sun (self) ; < "@
        + n
        + " "@
        + tg
        + " as :: proto_rs :: ProtoDecoder > :: merge_with_state (& mut shadow , wire_type , buf , ctx , state) ? ; * self = < "@
        + n
        + " "@
        + tg
        + " as :: proto_rs :: ProtoShadowDecode < "@
        + t
        + " > > :: to_sun (shadow) ? ; Ok (()) } # [inline] fn merge_value (& mut self , wire_type : :: proto_rs :: encoding :: WireType , buf : & mut impl :: proto_rs :: bytes :: Buf , ctx : :: proto_rs :: encoding :: DecodeContext ,) -> Result < () , :: proto_rs :: DecodeError > { let mut shadow = < "@
        + n
        + " "@
        + tg
        + " as :: proto_rs :: ProtoShadowEncode < '_ , "@
        + t
        + " > > :: from_sun (self) ; < "@
        + n
        + " "@
        + tg
        + " as :: proto_rs :: ProtoDecoder > :: merge (& mut shadow , wire_type , buf , ctx) ? ; * self = < "@
        + n
        + " "@
        + tg
        + " as :: proto_rs :: ProtoShadowDecode < "@
        + t
        + " > > :: to_sun (shadow) ? ; Ok (()) } } impl "@
        + ig
        + " :: proto_rs :: ProtoArchive for "@
        + t
        + " "@
        + wc
        + " { # [inline] fn is_default (& self) -> bool { let shadow = < "@
        + n
        + " "@
        + tg
        + " as :: proto_rs :: ProtoShadowEncode < '_ , "@
        + t
        + " > > :: from_sun (self) ; < "@
        + n
        + " "@
        + tg
        + " as :: proto_rs :: ProtoArchive > :: is_default (& shadow) } # [inline] fn encoded_size_hint < const TAG : u32 > (& self) -> :: proto_rs :: EncodeSizeHint { < Self as :: proto_rs :: ProtoEncode > :: size_hint :: < TAG > (self) } # [inline] fn archive < const TAG : u32 > (& self , w : & mut impl :: proto_rs :: RevWriter) { let shadow = < "@
        + n
        + " "@
        + tg
        + " as :: proto_rs :: ProtoShadowEncode < '_ , "@
        + t
        + " > > :: from_sun (self) ; < "@
        + n
        + " "@
        + tg
        + " as :: proto_rs :: ProtoArchive > :: archive :: < TAG > (& shadow , w) } } "@
}

pub(crate) fn struct_sun_impl(ig: &str, wc: &str, t: &str, n: &str, tg: &str, sse: &str, sunpd: &str, vext: &str) -> (r: String)
    ensures
        r@ == struct_sun_impl_spec(ig@, wc@, t@, n@, tg@, sse@, sunpd@, vext@),
{
    let mut r = String::new();
    push_str(&mut r, "impl ");
    push_str(&mut r, ig);
    push_str(&mut r, " :: proto_rs :: ProtoExt for ");
    push_str(&mut r, t);
    push_str(&mut r, " ");
    push_str(&mut r, wc);
    push_str(&mut r, " { const KIND : :: proto_rs :: ProtoKind = :: proto_rs :: ProtoKind :: Message ; } ");
    push_str(&mut r, sse);
    push_str(&mut r, "impl ");
    push_str(&mut r, ig);
    push_str(&mut r, " :: proto_rs :: ProtoEncode for ");
    push_str(&mut r, t);
    push_str(&mut r, " ");
    push_str(&mut r, wc);
    push_str(&mut r, " { type Shadow < 'a > = ");
    push_str(&mut r, n);
    push_str(&mut r, " ");
    push_str(&mut r, tg);
    push_str(&mut r, " ; } impl ");
    push_str(&mut r, ig);
    push_str(&mut r, " :: proto_rs :: ProtoDecode for ");
    push_str(&mut r, t);
    push_str(&mut r, " ");
    push_str(&mut r, wc);
    push_str(&mut r, " { type ShadowDecoded = ");
    push_str(&mut r, n);
    push_str(&mut r, " ");
    push_str(&mut r, tg);
    push_str(&mut r, " ; ");
    push_str(&mut r, sunpd);
    push_str(&mut r, " ");
    push_str(&mut r, vext);
    push_str(&mut r, " } impl ");
    push_str(&mut r, ig);
    push_str(&mut r, " :: proto_rs :: ProtoDefault for ");
    push_str(&mut r, t);
    push_str(&mut r, " ");
    push_str(&mut r, wc);
    push_str(&mut r, " { # [inline] fn proto_default () -> Self { let shadow = < ");
    push_str(&mut r, n);
    push_str(&mut r, " ");
    push_str(&mut r, tg);
    push_str(&mut r, " as :: proto_rs :: ProtoDefault > :: proto_default () ; < ");
    push_str(&mut r, n);
    push_str(&mut r, " ");
    push_str(&mut r, tg);
    push_str(&mut r, " as :: proto_rs :: ProtoShadowDecode < ");
    push_str(&mut r, t);
    push_str(&mut r, " > > :: to_sun (shadow) . expect (\"failed to build default sun value\") } } impl ");
    push_str(&mut r, ig);
    push_str(&mut r, " :: proto_rs :: ProtoFieldMerge for ");
    push_str(&mut r, t);
    push_str(&mut r, " ");
    push_str(&mut r, wc);
    push_str(&mut r, " { # [inline] fn finish_value (& mut self , state : & :: proto_rs :: DecodeState < '_ >) -> Result < () , :: proto_rs :: DecodeError > { if ! state . has_data () { return Ok (()) ; } let mut shadow = < ");
    push_str(&mut r, n);
    push_str(&mut r, " ");
    push_str(&mut r, tg);
    push_str(&mut r, " as :: proto_rs :: ProtoShadowEncode < '_ , ");
    push_str(&mut r, t);
    push_str(&mut r, " > > :: from_sun (self) ; < ");
    push_str(&mut r, n);
    push_str(&mut r, " ");
    push_str(&mut r, tg);
    push_str(&mut r, " as :: proto_rs :: ProtoDecoder > :: finish (& mut shadow , state) ? ; * self = < ");
    push_str(&mut r, n);
    push_str(&mut r, " ");
    push_str(&mut r, tg);
    push_str(&mut r, " as :: proto_rs :: ProtoShadowDecode < ");
    push_str(&mut r, t);
    push_str(&mut r, " > > :: to_sun (shadow) ? ; Ok (()) } # [inline] fn merge_value_with_state (& mut self , wire_type : :: proto_rs :: encoding :: WireType , buf : & mut impl :: proto_rs :: bytes :: Buf , ctx : :: proto_rs :: encoding :: DecodeContext , state : & :: proto_rs :: DecodeState < '_ > ,) -> Result < () , :: proto_rs :: DecodeError > { let mut shadow = < ");
    push_str(&mut r, n);
    push_str(&mut r, " ");
    push_str(&mut r, tg);
    push_str(&mut r, " as :: proto_rs :: ProtoShadowEncode < '_ , ");
    push_str(&mut r, t);
    push_str(&mut r, " > > :: from_sun (self) ; < ");
    push_str(&mut r, n);
    push_str(&mut r, " ");
    push_str(&mut r, tg);
    push_str(&mut r, " as :: proto_rs :: ProtoDecoder > :: merge_with_state (& mut shadow , wire_type , buf , ctx , state) ? ; * self = < ");
    push_str(&mut r, n);
    push_str(&mut r, " ");
    push_str(&mut r, tg);
    push_str(&mut r, " as :: proto_rs :: ProtoShadowDecode < ");
    push_str(&mut r, t);
    push_str(&mut r, " > > :: to_sun (shadow) ? ; Ok (()) } # [inline] fn merge_value (& mut self , wire_type : :: proto_rs :: encoding :: WireType , buf : & mut impl :: proto_rs :: bytes :: Buf , ctx : :: proto_rs :: encoding :: DecodeContext ,) -> Result < () , :: proto_rs :: DecodeError > { let mut shadow = < ");
    push_str(&mut r, n);
    push_str(&mut r, " ");
    push_str(&mut r, tg);
    push_str(&mut r, " as :: proto_rs :: ProtoShadowEncode < '_ , ");
    push_str(&mut r, t);
    push_str(&mut r, " > > :: from_sun (self) ; < ");
    push_str(&mut r, n);
    push_str(&mut r, " ");
    push_str(&mut r, tg);
    push_str(&mut r, " as :: proto_rs :: ProtoDecoder > :: merge (& mut shadow , wire_type , buf , ctx) ? ; * self = < ");
    push_str(&mut r, n);
    push_str(&mut r, " ");
    push_str(&mut r, tg);
    push_str(&mut r, " as :: proto_rs :: ProtoShadowDecode < ");
    push_str(&mut r, t);
    push_str(&mut r, " > > :: to_sun (shadow) ? ; Ok (()) } } impl ");
    push_str(&mut r, ig);
    push_str(&mut r, " :: proto_rs :: ProtoArchive for ");
    push_str(&mut r, t);
    push_str(&mut r, " ");
    push_str(&mut r, wc);
    push_str(&mut r, " { # [inline] fn is_default (& self) -> bool { let shadow = < ");
    push_str(&mut r, n);
    push_str(&mut r, " ");
    push_str(&mut r, tg);
    push_str(&mut r, " as :: proto_rs :: ProtoShadowEncode < '_ , ");
    push_str(&mut r, t);
    push_str(&mut r, " > > :: from_sun (self) ; < ");
    push_str(&mut r, n);
    push_str(&mut r, " ");
    push_str(&mut r, tg);
    push_str(&mut r, " as :: proto_rs :: ProtoArchive > :: is_default (& shadow) } # [inline] fn encoded_size_hint < const TAG : u32 > (& self) -> :: proto_rs :: EncodeSizeHint { < Self as :: proto_rs :: ProtoEncode > :: size_hint :: < TAG > (self) } # [inline] fn archive < const TAG : u32 > (& self , w : & mut impl :: proto_rs :: RevWriter) { let shadow = < ");
    push_str(&mut r, n);
    push_str(&mut r, " ");
    push_str(&mut r, tg);
    push_str(&mut r, " as :: proto_rs :: ProtoShadowEncode < '_ , ");
    push_str(&mut r, t);
    push_str(&mut r, " > > :: from_sun (self) ; < ");
    push_str(&mut r, n);
    push_str(&mut r, " ");
    push_str(&mut r, tg);
    push_str(&mut r, " as :: proto_rs :: ProtoArchive > :: archive :: < TAG > (& shadow , w) } } ");
    reveal(struct_sun_impl_spec);
    assert(r@ =~= struct_sun_impl_spec(ig@, wc@, t@, n@, tg@, sse@, sunpd@, vext@));
    r
}

/// How a struct `n` is built from its `sun` type `t` when fields are read through getters.
#[verifier::opaque]
pub open spec fn sun_shadow_encode_spec(sig: Seq<char>, t: Seq<char>, n: Seq<char>, tg: Seq<char>, swc: Seq<char>, init: Seq<char>) -> Seq<char> {
    "impl "@
        + sig
        + " :: proto_rs :: ProtoShadowEncode < 'a , "@
        + t
        + " > for "@
        + n
        + " "@
        + tg
        + " "@
        + swc
        + " { # [inline] fn from_sun (value : & 'a "@
        + t
        + ") -> Self { "@
        + init
        + " } } "@
}

pub(crate) fn sun_shadow_encode(sig: &str, t: &str, n: &str, tg: &str, swc: &str, init: &str) -> (r: String)
    ensures
        r@ == sun_shadow_encode_spec(sig@, t@, n@, tg@, swc@, init@),
{
    let mut r = String::new();
    push_str(&mut r, "impl ");
    push_str(&mut r, sig);
    push_str(&mut r, " :: proto_rs :: ProtoShadowEncode < 'a , ");
    push_str(&mut r, t);
    push_str(&mut r, " > for ");
    push_str(&mut r, n);
    push_str(&mut r, " ");
    push_str(&mut r, tg);
    push_str(&mut r, " ");
    push_str(&mut r, swc);
    push_str(&mut r, " { # [inline] fn from_sun (value : & 'a ");
    push_str(&mut r, t);
    push_str(&mut r, ") -> Self { ");
    push_str(&mut r, init);
    push_str(&mut r, " } } ");
    reveal(sun_shadow_encode_spec);
    assert(r@ =~= sun_shadow_encode_spec(sig@, t@, n@, tg@, swc@, init@));
    r
}

fn getter_ok_exec(f: &FieldInfo) -> (r: bool)
    ensures
        r == getter_ok(*f),
{
    match &f.config.getter {
        Some(g) => parse_expr(replace_dollar(g.as_str(), "value").as_str()).is_some(),
        None => true,
    }
}

fn conversion_ok(f: &FieldInfo) -> (r: bool)
    ensures
        r == encode_conversion_valid(*f),
{
    crate::field::is_numeric_enum(&f.config, &f.parsed) || opt_path_ok(&f.config.into_fn)
}

/// Whether the piece of kind `kind` of the field is code (see `piece_valid`).
pub(crate) fn piece_valid_exec(kind: u8, f: &FieldInfo, use_getters: bool) -> (r: bool)
    ensures
        r == piece_valid(kind as nat, *f, use_getters),
{
    if kind == 1 {
        f.tag.is_none() || (conversion_ok(f) && (!use_getters || getter_ok_exec(f)))
    } else if kind == 6 {
        !f.config.skip || opt_path_ok(&f.config.skip_deser_fn)
    } else if kind == 7 {
        f.tag.is_none() || opt_path_ok(&f.config.validator)
    } else if kind == 8 {
        conversion_ok(f) && getter_ok_exec(f)
    } else if kind == 9 {
        let numeric = crate::field::is_numeric_enum(&f.config, &f.parsed);
        let assign_ok = numeric || (opt_path_ok(&f.config.from_fn) && (f.config.from_fn.is_some()
            || opt_path_ok(&f.config.try_from_fn)));
        f.tag.is_none() || (opt_path_ok(&f.config.validator) && (!needs_decode_conversion(&f.config, &f.parsed)
            || assign_ok))
    } else {
        true
    }
}

} // verus!
