//! The options of a field, read from its `#[proto(...)]` attributes.

use vstd::prelude::*;

use crate::field::{FieldConfig, ProtoRename, TypeText};
use crate::meta::{AttrModel, MetaExpr, MetaItem, MetaValue, path_is, path_is_ident};
use crate::proto_type::{rename_from_text, rename_from_text_spec, rename_from_type, rename_from_type_spec};
use crate::subst::{copy_type, opt_type_eq, type_eq, type_text_copy};
use crate::text::{join, join_spec, parse_usize, parse_usize_spec, str_eq, string_of, views};
use crate::types::RustType;

verus! {

/// The option's name: its path when that is a single identifier.
pub open spec fn option_name(m: MetaItem) -> Seq<char> {
    if m.path@.len() == 1 {
        m.path@[0]@
    } else {
        Seq::empty()
    }
}

/// The string literal given with `= "..."`.
pub open spec fn eq_str_of(v: MetaValue) -> Option<String> {
    match v {
        MetaValue::Eq(e) => match e.expr {
            Some(MetaExpr::Str(s)) => Some(s),
            _ => None,
        },
        _ => None,
    }
}

/// The text of a string literal given with `=`, read as a type.
pub open spec fn str_type_of(v: MetaValue) -> Option<RustType> {
    match v {
        MetaValue::Eq(e) => match e.expr {
            Some(MetaExpr::Str(_)) => e.str_type,
            _ => None,
        },
        _ => None,
    }
}

/// A type given as a string literal, with its reading.
pub open spec fn type_text_of(v: MetaValue) -> Option<TypeText> {
    match eq_str_of(v) {
        Some(s) => Some(TypeText { text: s, parsed: str_type_of(v) }),
        None => None,
    }
}

/// A tag given as an integer literal, or as a string literal of decimal digits.
pub open spec fn tag_of(v: MetaValue) -> Option<usize> {
    match v {
        MetaValue::Eq(e) => match e.expr {
            Some(MetaExpr::Int(n)) => n,
            Some(MetaExpr::Str(s)) => parse_usize_spec(s@),
            _ => None,
        },
        _ => None,
    }
}

/// The option a name stands for, by number (0 for a name that sets nothing).
pub open spec fn option_kind(n: Seq<char>) -> nat {
    if n == "tag"@ {
        1
    } else if n == "skip"@ {
        2
    } else if n == "into"@ {
        3
    } else if n == "from"@ {
        4
    } else if n == "into_fn"@ {
        5
    } else if n == "from_fn"@ {
        6
    } else if n == "try_from_fn"@ {
        7
    } else if n == "treat_as"@ {
        8
    } else if n == "import_path"@ {
        9
    } else if n == "rust_enum"@ {
        10
    } else if n == "enum"@ {
        10
    } else if n == "proto_enum"@ {
        11
    } else if n == "message"@ {
        12
    } else if n == "getter"@ {
        13
    } else if n == "rename"@ {
        14
    } else if n == "validator"@ {
        15
    } else {
        0
    }
}

/// The options one item sets, on the options before it (all but `rename` and `validator`,
/// whose text is read apart).
pub open spec fn apply_option(c: FieldConfig, m: MetaItem) -> FieldConfig {
    let k = option_kind(option_name(m));
    let v = m.value;
    if k == 1 {
        FieldConfig { custom_tag: tag_of(v), ..c }
    } else if k == 2 {
        FieldConfig { skip: true, skip_deser_fn: eq_str_of(v), ..c }
    } else if k == 3 {
        FieldConfig { into_type: type_text_of(v), ..c }
    } else if k == 4 {
        FieldConfig { from_type: type_text_of(v), ..c }
    } else if k == 5 {
        FieldConfig { into_fn: eq_str_of(v), ..c }
    } else if k == 6 {
        FieldConfig { from_fn: eq_str_of(v), ..c }
    } else if k == 7 {
        FieldConfig { try_from_fn: eq_str_of(v), ..c }
    } else if k == 8 {
        FieldConfig { treat_as: str_type_of(v), ..c }
    } else if k == 9 {
        FieldConfig { import_path: eq_str_of(v), ..c }
    } else if k == 10 {
        FieldConfig { is_rust_enum: true, ..c }
    } else if k == 11 {
        FieldConfig { is_proto_enum: true, ..c }
    } else if k == 12 {
        FieldConfig { is_message: true, ..c }
    } else if k == 13 {
        FieldConfig { getter: eq_str_of(v), ..c }
    } else {
        c
    }
}

/// What a `rename` option makes of the field's rename: a string gives its text's reading, a type
/// gives the type's; any other value clears it.
pub open spec fn apply_rename(r: Option<(Seq<char>, Option<bool>, Option<bool>)>, m: MetaItem) -> Option<(Seq<char>, Option<bool>, Option<bool>)> {
    if option_kind(option_name(m)) == 14 {
        match m.value {
            MetaValue::Eq(e) => match e.expr {
                Some(MetaExpr::Str(s)) => Some(rename_from_text_spec(s@)),
                _ => match e.ty {
                    Some(t) => Some(rename_from_type_spec(t)),
                    None => None,
                },
            },
            _ => r,
        }
    } else {
        r
    }
}

/// What a `validator` option makes of the field's validator: a string or a path (its segments
/// joined with `::`); any other value clears it.
pub open spec fn apply_validator(r: Option<Seq<char>>, m: MetaItem) -> Option<Seq<char>> {
    if option_kind(option_name(m)) == 15 {
        match m.value {
            MetaValue::Eq(e) => match e.expr {
                Some(MetaExpr::Str(s)) => Some(s@),
                Some(MetaExpr::Path(p)) => Some(join_spec(views(p@), "::"@)),
                _ => None,
            },
            _ => None,
        }
    } else {
        r
    }
}

/// The options, rename and validator after the items of one attribute, in order.
pub open spec fn items_fold(
    s: (FieldConfig, Option<(Seq<char>, Option<bool>, Option<bool>)>, Option<Seq<char>>),
    items: Seq<MetaItem>,
) -> (FieldConfig, Option<(Seq<char>, Option<bool>, Option<bool>)>, Option<Seq<char>>)
    decreases items.len(),
{
    if items.len() == 0 {
        s
    } else {
        let p = items_fold(s, items.drop_last());
        let m = items.last();
        (apply_option(p.0, m), apply_rename(p.1, m), apply_validator(p.2, m))
    }
}

/// The options after the field's attributes: those of each `#[proto(...)]` attribute apply in
/// order, starting from a field without options.
pub open spec fn attrs_fold(attrs: Seq<AttrModel>) -> (FieldConfig, Option<(Seq<char>, Option<bool>, Option<bool>)>, Option<Seq<char>>)
    decreases attrs.len(),
{
    if attrs.len() == 0 {
        (plain_config(), None, None)
    } else {
        let p = attrs_fold(attrs.drop_last());
        if path_is(attrs.last().path@, "proto"@) {
            items_fold(p, attrs.last().items@)
        } else {
            p
        }
    }
}

/// A field without any option.
pub open spec fn plain_config() -> FieldConfig {
    FieldConfig {
        skip: false,
        skip_deser_fn: None,
        custom_tag: None,
        into_type: None,
        from_type: None,
        into_fn: None,
        from_fn: None,
        try_from_fn: None,
        treat_as: None,
        rename: None,
        import_path: None,
        is_rust_enum: false,
        is_proto_enum: false,
        is_message: false,
        getter: None,
        validator: None,
    }
}

/// `b` holds the options of `a`, types written the same way; `rename` and `validator` aside.
pub open spec fn same_options(a: FieldConfig, b: FieldConfig) -> bool {
    &&& a.skip == b.skip
    &&& a.skip_deser_fn == b.skip_deser_fn
    &&& a.custom_tag == b.custom_tag
    &&& type_text_copy(a.into_type, b.into_type)
    &&& type_text_copy(a.from_type, b.from_type)
    &&& a.into_fn == b.into_fn
    &&& a.from_fn == b.from_fn
    &&& a.try_from_fn == b.try_from_fn
    &&& opt_type_eq(a.treat_as, b.treat_as)
    &&& a.import_path == b.import_path
    &&& a.is_rust_enum == b.is_rust_enum
    &&& a.is_proto_enum == b.is_proto_enum
    &&& a.is_message == b.is_message
    &&& a.getter == b.getter
}

pub open spec fn rename_view(r: Option<ProtoRename>) -> Option<(Seq<char>, Option<bool>, Option<bool>)> {
    match r {
        Some(x) => Some((x.proto_type@, x.is_optional, x.is_repeated)),
        None => None,
    }
}

pub open spec fn validator_view(v: Option<String>) -> Option<Seq<char>> {
    match v {
        Some(x) => Some(x@),
        None => None,
    }
}

/// The fold's state holds in `c`.
pub open spec fn reads(c: FieldConfig, s: (FieldConfig, Option<(Seq<char>, Option<bool>, Option<bool>)>, Option<Seq<char>>)) -> bool {
    &&& same_options(s.0, c)
    &&& rename_view(c.rename) == s.1
    &&& validator_view(c.validator) == s.2
}

fn eq_str(v: &MetaValue) -> (r: Option<String>)
    ensures
        r == eq_str_of(*v),
{
    match v {
        MetaValue::Eq(e) => match &e.expr {
            Some(MetaExpr::Str(s)) => Some(s.clone()),
            _ => None,
        },
        _ => None,
    }
}

fn str_type(v: &MetaValue) -> (r: Option<RustType>)
    ensures
        opt_type_eq(str_type_of(*v), r),
{
    match v {
        MetaValue::Eq(e) => match &e.expr {
            Some(MetaExpr::Str(_)) => match &e.str_type {
                Some(t) => Some(copy_type(t)),
                None => None,
            },
            _ => None,
        },
        _ => None,
    }
}

fn type_text(v: &MetaValue) -> (r: Option<TypeText>)
    ensures
        type_text_copy(type_text_of(*v), r),
{
    match eq_str(v) {
        Some(s) => Some(TypeText { text: s, parsed: str_type(v) }),
        None => None,
    }
}

fn tag_value(v: &MetaValue) -> (r: Option<usize>)
    ensures
        r == tag_of(*v),
{
    match v {
        MetaValue::Eq(e) => match &e.expr {
            Some(MetaExpr::Int(n)) => *n,
            Some(MetaExpr::Str(s)) => parse_usize(s.as_str()),
            _ => None,
        },
        _ => None,
    }
}

fn name_is(m: &MetaItem, name: &str) -> (r: bool)
    ensures
        r == (option_name(*m) == name@),
{
    if m.path.len() == 1 {
        str_eq(m.path[0].as_str(), name)
    } else {
        let empty = name.unicode_len() == 0;
        if empty {
            assert(name@ =~= Seq::<char>::empty());
        }
        empty
    }
}

fn option_kind_exec(m: &MetaItem) -> (r: u8)
    ensures
        r as nat == option_kind(option_name(*m)),
{
    if name_is(m, "tag") {
        1
    } else if name_is(m, "skip") {
        2
    } else if name_is(m, "into") {
        3
    } else if name_is(m, "from") {
        4
    } else if name_is(m, "into_fn") {
        5
    } else if name_is(m, "from_fn") {
        6
    } else if name_is(m, "try_from_fn") {
        7
    } else if name_is(m, "treat_as") {
        8
    } else if name_is(m, "import_path") {
        9
    } else if name_is(m, "rust_enum") {
        10
    } else if name_is(m, "enum") {
        10
    } else if name_is(m, "proto_enum") {
        11
    } else if name_is(m, "message") {
        12
    } else if name_is(m, "getter") {
        13
    } else if name_is(m, "rename") {
        14
    } else if name_is(m, "validator") {
        15
    } else {
        0
    }
}

/// Applies one option to the field's options.
fn apply_item(
    c: &mut FieldConfig,
    m: &MetaItem,
    Ghost(s): Ghost<(FieldConfig, Option<(Seq<char>, Option<bool>, Option<bool>)>, Option<Seq<char>>)>,
)
    requires
        reads(*old(c), s),
    ensures
        reads(*final(c), (apply_option(s.0, *m), apply_rename(s.1, *m), apply_validator(s.2, *m))),
{
    let v = &m.value;
    let k = option_kind_exec(m);
    if k == 1 {
        c.custom_tag = tag_value(v);
    } else if k == 2 {
        c.skip = true;
        c.skip_deser_fn = eq_str(v);
    } else if k == 3 {
        c.into_type = type_text(v);
    } else if k == 4 {
        c.from_type = type_text(v);
    } else if k == 5 {
        c.into_fn = eq_str(v);
    } else if k == 6 {
        c.from_fn = eq_str(v);
    } else if k == 7 {
        c.try_from_fn = eq_str(v);
    } else if k == 8 {
        c.treat_as = str_type(v);
    } else if k == 9 {
        c.import_path = eq_str(v);
    } else if k == 10 {
        c.is_rust_enum = true;
    } else if k == 11 {
        c.is_proto_enum = true;
    } else if k == 12 {
        c.is_message = true;
    } else if k == 13 {
        c.getter = eq_str(v);
    } else if k == 14 {
        match v {
            MetaValue::Eq(e) => {
                c.rename = match &e.expr {
                    Some(MetaExpr::Str(t)) => Some(rename_from_text(t.as_str())),
                    _ => match &e.ty {
                        Some(t) => Some(rename_from_type(t)),
                        None => None,
                    },
                };
            },
            _ => {},
        }
    } else if k == 15 {
        c.validator = match v {
            MetaValue::Eq(e) => match &e.expr {
                Some(MetaExpr::Str(t)) => Some(t.clone()),
                Some(MetaExpr::Path(p)) => Some(join(p, "::")),
                _ => None,
            },
            _ => None,
        };
    }
}

/// The options of a field, read from its attributes (see `attrs_fold`): the `rename` and
/// `validator` options by their text, the others exactly, types written the same way.
pub fn field_options(attrs: &Vec<AttrModel>) -> (r: FieldConfig)
    ensures
        reads(r, attrs_fold(attrs@)),
{
    let mut c = FieldConfig::plain();
    let n = attrs.len();
    let mut i: usize = 0;
    while i < n
        invariant
            n == attrs@.len(),
            i <= n,
            reads(c, attrs_fold(attrs@.subrange(0, i as int))),
        decreases n - i,
    {
        let a = &attrs[i];
        let ghost q = attrs@.subrange(0, i + 1);
        proof {
            assert(q.drop_last() =~= attrs@.subrange(0, i as int));
            assert(q.last() == attrs@[i as int]);
        }
        if path_is_ident(&a.path, "proto") {
            let ghost start = attrs_fold(attrs@.subrange(0, i as int));
            let m = a.items.len();
            let mut k: usize = 0;
            while k < m
                invariant
                    m == a.items@.len(),
                    k <= m,
                    reads(c, items_fold(start, a.items@.subrange(0, k as int))),
                decreases m - k,
            {
                let ghost qi = a.items@.subrange(0, k + 1);
                proof {
                    assert(qi.drop_last() =~= a.items@.subrange(0, k as int));
                    assert(qi.last() == a.items@[k as int]);
                }
                apply_item(&mut c, &a.items[k], Ghost(items_fold(start, a.items@.subrange(0, k as int))));
                k = k + 1;
            }
            assert(a.items@.subrange(0, m as int) =~= a.items@);
        }
        i = i + 1;
    }
    assert(attrs@.subrange(0, n as int) =~= attrs@);
    c
}

proof fn lemma_import_path_kind(n: Seq<char>)
    ensures
        (option_kind(n) == 9) == (n == "import_path"@),
{
    reveal_strlit("import_path");
    reveal_strlit("tag");
    reveal_strlit("skip");
    reveal_strlit("into");
    reveal_strlit("from");
    reveal_strlit("into_fn");
    reveal_strlit("from_fn");
    reveal_strlit("try_from_fn");
    reveal_strlit("treat_as");
    reveal_strlit("rust_enum");
    reveal_strlit("enum");
    reveal_strlit("proto_enum");
    reveal_strlit("message");
    reveal_strlit("getter");
    reveal_strlit("rename");
    reveal_strlit("validator");
    assert("import_path"@.len() == 11 && "try_from_fn"@.len() == 11);
    assert("tag"@.len() == 3 && "skip"@.len() == 4 && "into"@.len() == 4 && "from"@.len() == 4);
    assert("into_fn"@.len() == 7 && "from_fn"@.len() == 7 && "treat_as"@.len() == 8);
    assert("import_path"@[0] != "try_from_fn"@[0]);
    if n == "import_path"@ {
        assert(n != "tag"@ && n != "skip"@ && n != "into"@ && n != "from"@);
        assert(n != "into_fn"@ && n != "from_fn"@ && n != "try_from_fn"@ && n != "treat_as"@);
    }
}

/// An `import_path = "p"` option sets the field's import path to `p`, and no other option
/// changes it.
pub proof fn lemma_import_path_option(c: FieldConfig, m: MetaItem)
    ensures
        option_name(m) == "import_path"@ ==> apply_option(c, m).import_path == eq_str_of(m.value),
        option_name(m) != "import_path"@ ==> apply_option(c, m).import_path == c.import_path,
{
    lemma_import_path_kind(option_name(m));
}

/// The import path read from an attribute's options is that of its last `import_path = "p"`
/// option: when item `k` is `import_path = "p"` and no later item is an `import_path`, the
/// options read are given `p` as their import path, whatever came before.
pub proof fn lemma_last_import_path_wins(
    s: (FieldConfig, Option<(Seq<char>, Option<bool>, Option<bool>)>, Option<Seq<char>>),
    items: Seq<MetaItem>,
    k: int,
    p: String,
)
    requires
        0 <= k < items.len(),
        option_name(items[k]) == "import_path"@,
        eq_str_of(items[k].value) == Some(p),
        forall|j: int| k < j < items.len() ==> option_name(#[trigger] items[j]) != "import_path"@,
    ensures
        items_fold(s, items).0.import_path == Some(p),
    decreases items.len(),
{
    let last = items.last();
    lemma_import_path_option(items_fold(s, items.drop_last()).0, last);
    if k < items.len() - 1 {
        let q = items.drop_last();
        assert forall|j: int| k < j < q.len() implies option_name(#[trigger] q[j]) != "import_path"@ by {
            assert(q[j] == items[j]);
        }
        assert(q[k] == items[k]);
        lemma_last_import_path_wins(s, q, k, p);
        assert(option_name(items[items.len() - 1]) != "import_path"@);
    }
}

/// A field whose last attribute is `#[proto(...)]` holding `import_path = "p"`, with no later
/// `import_path` in it, has import path `p` (see `field_options`, whose result holds the
/// import path of `attrs_fold` exactly).
pub proof fn lemma_field_import_path(attrs: Seq<AttrModel>, k: int, p: String)
    requires
        attrs.len() > 0,
        path_is(attrs.last().path@, "proto"@),
        0 <= k < attrs.last().items@.len(),
        option_name(attrs.last().items@[k]) == "import_path"@,
        eq_str_of(attrs.last().items@[k].value) == Some(p),
        forall|j: int|
            k < j < attrs.last().items@.len() ==> option_name(#[trigger] attrs.last().items@[j]) != "import_path"@,
    ensures
        attrs_fold(attrs).0.import_path == Some(p),
{
    lemma_last_import_path_wins(attrs_fold(attrs.drop_last()), attrs.last().items@, k, p);
}

} // verus!
