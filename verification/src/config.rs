//! The options of an item's attributes: validators, generic instantiations and imports.

use vstd::prelude::*;

use crate::generics::GenericTypeEntry;
use crate::import_map::ImportMap;
use crate::string_set::StringSet;
use crate::meta::{ArrayElem, AttrModel, MetaExpr, MetaItem, MetaValue, path_is, path_is_ident};
use crate::subst::{copy_type, type_eq};
use crate::text::{join, join_spec, views};
use crate::types::RustType;

verus! {

broadcast use vstd::std_specs::vec::group_vec_axioms;

/// The characters of an optional string.
pub open spec fn opt_string(o: Option<String>) -> Option<Seq<char>> {
    match o {
        Some(s) => Some(s@),
        None => None,
    }
}

/// The validator functions named by an item's `#[proto(...)]` attributes.
pub struct ItemValidators {
    pub validator: Option<String>,
    pub validator_with_ext: Option<String>,
}

pub open spec fn is_proto_attr(a: AttrModel) -> bool {
    path_is(a.path@, "proto"@)
}

/// The function a validator option names: a string literal's text, or a path's segments
/// joined by `::`; nothing for other expressions.
pub open spec fn validator_text(e: MetaExpr) -> Option<Seq<char>> {
    match e {
        MetaExpr::Str(s) => Some(s@),
        MetaExpr::Path(segs) => Some(join_spec(views(segs@), "::"@)),
        _ => None,
    }
}

/// The value of an `= expr` option, when its tokens form an expression.
pub open spec fn eq_expr(v: MetaValue) -> Option<MetaExpr> {
    match v {
        MetaValue::Eq(e) => e.expr,
        _ => None,
    }
}

/// An item-level `#[proto(...)]` option that the validator reader accepts: `validator`,
/// `validator_with_ext` or `generic_types`, each with an expression value.
pub open spec fn validator_option_ok(m: MetaItem) -> bool {
    &&& (path_is(m.path@, "validator"@) || path_is(m.path@, "validator_with_ext"@) || path_is(
        m.path@,
        "generic_types"@,
    ))
    &&& eq_expr(m.value) is Some
}

/// Every option of every `#[proto(...)]` attribute is accepted.
pub open spec fn validator_attrs_ok(attrs: Seq<AttrModel>) -> bool {
    forall|i: int, j: int|
        0 <= i < attrs.len() && is_proto_attr(attrs[i]) && 0 <= j < attrs[i].items@.len()
            ==> validator_option_ok(#[trigger] attrs[i].items@[j])
}

/// The validators after one option.
pub open spec fn validators_step(s: (Option<Seq<char>>, Option<Seq<char>>), m: MetaItem) -> (
    Option<Seq<char>>,
    Option<Seq<char>>,
) {
    match eq_expr(m.value) {
        Some(e) => match validator_text(e) {
            Some(t) => if path_is(m.path@, "validator"@) {
                (Some(t), s.1)
            } else if path_is(m.path@, "validator_with_ext"@) {
                (s.0, Some(t))
            } else {
                s
            },
            None => s,
        },
        None => s,
    }
}

pub open spec fn validators_items(
    s: (Option<Seq<char>>, Option<Seq<char>>),
    items: Seq<MetaItem>,
) -> (Option<Seq<char>>, Option<Seq<char>>)
    decreases items.len(),
{
    if items.len() == 0 {
        s
    } else {
        validators_step(validators_items(s, items.drop_last()), items.last())
    }
}

/// The validators the `#[proto(...)]` attributes name, the last option of each kind winning.
pub open spec fn validators_spec(attrs: Seq<AttrModel>) -> (Option<Seq<char>>, Option<Seq<char>>)
    decreases attrs.len(),
{
    if attrs.len() == 0 {
        (None, None)
    } else if is_proto_attr(attrs.last()) {
        validators_items(validators_spec(attrs.drop_last()), attrs.last().items@)
    } else {
        validators_spec(attrs.drop_last())
    }
}

fn validator_text_of(e: &MetaExpr) -> (r: Option<String>)
    ensures
        opt_string(r) == validator_text(*e),
{
    match e {
        MetaExpr::Str(s) => Some(s.clone()),
        MetaExpr::Path(segs) => Some(join(segs, "::")),
        _ => None,
    }
}

/// Whether the attributes can be read for validators (see `validator_attrs_ok`).
pub fn validator_attrs_readable(attrs: &Vec<AttrModel>) -> (r: bool)
    ensures
        r == validator_attrs_ok(attrs@),
{
    let n = attrs.len();
    let mut i: usize = 0;
    while i < n
        invariant
            n == attrs@.len(),
            i <= n,
            forall|a: int, j: int|
                0 <= a < i && is_proto_attr(attrs@[a]) && 0 <= j < attrs@[a].items@.len()
                    ==> validator_option_ok(#[trigger] attrs@[a].items@[j]),
        decreases n - i,
    {
        let attr = &attrs[i];
        if path_is_ident(&attr.path, "proto") {
            let m = attr.items.len();
            let mut j: usize = 0;
            while j < m
                invariant
                    n == attrs@.len(),
                    i < n,
                    *attr == attrs@[i as int],
                    is_proto_attr(attrs@[i as int]),
                    m == attr.items@.len(),
                    j <= m,
                    forall|k: int| 0 <= k < j ==> validator_option_ok(#[trigger] attr.items@[k]),
                decreases m - j,
            {
                let item = &attr.items[j];
                let known = path_is_ident(&item.path, "validator") || path_is_ident(
                    &item.path,
                    "validator_with_ext",
                ) || path_is_ident(&item.path, "generic_types");
                let has_expr = match &item.value {
                    MetaValue::Eq(v) => v.expr.is_some(),
                    _ => false,
                };
                if !(known && has_expr) {
                    assert(!validator_option_ok(attrs@[i as int].items@[j as int]));
                    return false;
                }
                j = j + 1;
            }
        }
        i = i + 1;
    }
    true
}

/// The validators named by an item's `#[proto(validator = ..., validator_with_ext = ...)]`
/// attributes (see `validators_spec`).
pub fn extract_item_validators(attrs: &Vec<AttrModel>) -> (r: ItemValidators)
    requires
        validator_attrs_ok(attrs@),
    ensures
        (opt_string(r.validator), opt_string(r.validator_with_ext)) == validators_spec(attrs@),
{
    let mut validators = ItemValidators { validator: None, validator_with_ext: None };
    let n = attrs.len();
    let mut i: usize = 0;
    assert(attrs@.take(0) =~= Seq::<AttrModel>::empty());
    while i < n
        invariant
            n == attrs@.len(),
            i <= n,
            (opt_string(validators.validator), opt_string(validators.validator_with_ext))
                == validators_spec(attrs@.take(i as int)),
        decreases n - i,
    {
        let ghost q = attrs@.take(i + 1);
        assert(q.drop_last() =~= attrs@.take(i as int));
        assert(q.last() == attrs@[i as int]);
        let attr = &attrs[i];
        if path_is_ident(&attr.path, "proto") {
            let ghost start = validators_spec(attrs@.take(i as int));
            let m = attr.items.len();
            let mut j: usize = 0;
            assert(attr.items@.take(0) =~= Seq::<MetaItem>::empty());
            while j < m
                invariant
                    m == attr.items@.len(),
                    j <= m,
                    (opt_string(validators.validator), opt_string(validators.validator_with_ext))
                        == validators_items(start, attr.items@.take(j as int)),
                decreases m - j,
            {
                let ghost p = attr.items@.take(j + 1);
                assert(p.drop_last() =~= attr.items@.take(j as int));
                assert(p.last() == attr.items@[j as int]);
                let item = &attr.items[j];
                if let MetaValue::Eq(v) = &item.value {
                    if let Some(e) = &v.expr {
                        if let Some(t) = validator_text_of(e) {
                            if path_is_ident(&item.path, "validator") {
                                validators.validator = Some(t);
                            } else if path_is_ident(&item.path, "validator_with_ext") {
                                validators.validator_with_ext = Some(t);
                            }
                        }
                    }
                }
                j = j + 1;
            }
            assert(attr.items@.take(m as int) =~= attr.items@);
        }
        i = i + 1;
    }
    assert(attrs@.take(n as int) =~= attrs@);
    validators
}

/// An entry `P = [T1, T2, ...]` of a `generic_types` option: a single identifier assigned an array
/// whose elements all read as types.
pub open spec fn entry_ok(a: ArrayElem) -> bool {
    match a.expr {
        MetaExpr::Assign(l, r) => {
            &&& (match *l {
                MetaExpr::Path(segs) => segs@.len() == 1,
                _ => false,
            })
            &&& (match *r {
                MetaExpr::Array(vals) => forall|j: int|
                    0 <= j < vals@.len() ==> (#[trigger] vals@[j]).as_type is Some,
                _ => false,
            })
        },
        _ => false,
    }
}

/// The type parameter an entry names.
pub open spec fn entry_param(a: ArrayElem) -> Seq<char> {
    match a.expr {
        MetaExpr::Assign(l, _) => match *l {
            MetaExpr::Path(segs) => segs@[0]@,
            _ => Seq::empty(),
        },
        _ => Seq::empty(),
    }
}

pub open spec fn elem_type(v: ArrayElem) -> RustType {
    v.as_type->Some_0
}

/// The types an entry lists.
pub open spec fn entry_types(a: ArrayElem) -> Seq<RustType> {
    match a.expr {
        MetaExpr::Assign(_, r) => match *r {
            MetaExpr::Array(vals) => vals@.map_values(|v: ArrayElem| elem_type(v)),
            _ => Seq::empty(),
        },
        _ => Seq::empty(),
    }
}

pub open spec fn entry_of(a: ArrayElem) -> (Seq<char>, Seq<RustType>) {
    (entry_param(a), entry_types(a))
}

/// An item-level `#[proto(...)]` option that the `generic_types` reader accepts: a
/// `generic_types` option whose value is an array of well-formed entries, or any other option
/// that is a flag or has an expression value.
pub open spec fn generic_option_ok(m: MetaItem) -> bool {
    if path_is(m.path@, "generic_types"@) {
        match eq_expr(m.value) {
            Some(MetaExpr::Array(elems)) => forall|k: int|
                0 <= k < elems@.len() ==> entry_ok(#[trigger] elems@[k]),
            _ => false,
        }
    } else {
        m.value is Flag || eq_expr(m.value) is Some
    }
}

/// Every option of every `#[proto(...)]` attribute is accepted.
pub open spec fn generic_attrs_ok(attrs: Seq<AttrModel>) -> bool {
    forall|i: int, j: int|
        0 <= i < attrs.len() && is_proto_attr(attrs[i]) && 0 <= j < attrs[i].items@.len()
            ==> generic_option_ok(#[trigger] attrs[i].items@[j])
}

/// The entries one option lists.
pub open spec fn option_entries(m: MetaItem) -> Seq<(Seq<char>, Seq<RustType>)> {
    if path_is(m.path@, "generic_types"@) {
        match eq_expr(m.value) {
            Some(MetaExpr::Array(elems)) => elems@.map_values(|a: ArrayElem| entry_of(a)),
            _ => Seq::empty(),
        }
    } else {
        Seq::empty()
    }
}

pub open spec fn items_entries(items: Seq<MetaItem>) -> Seq<(Seq<char>, Seq<RustType>)>
    decreases items.len(),
{
    if items.len() == 0 {
        Seq::empty()
    } else {
        items_entries(items.drop_last()) + option_entries(items.last())
    }
}

/// The entries of all `generic_types` options of the `#[proto(...)]` attributes, in order.
pub open spec fn generic_entries_spec(attrs: Seq<AttrModel>) -> Seq<(Seq<char>, Seq<RustType>)>
    decreases attrs.len(),
{
    if attrs.len() == 0 {
        Seq::empty()
    } else if is_proto_attr(attrs.last()) {
        generic_entries_spec(attrs.drop_last()) + items_entries(attrs.last().items@)
    } else {
        generic_entries_spec(attrs.drop_last())
    }
}

/// An entry holds a parameter and copies of its types.
pub open spec fn entry_rel(e: GenericTypeEntry, s: (Seq<char>, Seq<RustType>)) -> bool {
    &&& e.param@ == s.0
    &&& e.types@.len() == s.1.len()
    &&& forall|j: int| 0 <= j < s.1.len() ==> type_eq(s.1[j], #[trigger] e.types@[j])
}

pub open spec fn entries_match(r: Seq<GenericTypeEntry>, s: Seq<(Seq<char>, Seq<RustType>)>) -> bool {
    &&& r.len() == s.len()
    &&& forall|k: int| 0 <= k < r.len() ==> entry_rel(#[trigger] r[k], s[k])
}

fn read_entry(a: &ArrayElem) -> (r: GenericTypeEntry)
    requires
        entry_ok(*a),
    ensures
        entry_rel(r, entry_of(*a)),
{
    match &a.expr {
        MetaExpr::Assign(l, rhs) => {
            let param = match &**l {
                MetaExpr::Path(segs) => segs[0].clone(),
                _ => String::new(),
            };
            let mut types: Vec<RustType> = Vec::new();
            match &**rhs {
                MetaExpr::Array(vals) => {
                    let n = vals.len();
                    let mut j: usize = 0;
                    while j < n
                        invariant
                            n == vals@.len(),
                            j <= n,
                            forall|k: int| 0 <= k < n ==> (#[trigger] vals@[k]).as_type is Some,
                            types@.len() == j,
                            forall|k: int|
                                0 <= k < j ==> type_eq(
                                    elem_type(vals@[k]),
                                    #[trigger] types@[k],
                                ),
                        decreases n - j,
                    {
                        let t = copy_type(vals[j].as_type.as_ref().unwrap());
                        types.push(t);
                        j = j + 1;
                    }
                },
                _ => {},
            }
            GenericTypeEntry { param, types }
        },
        _ => GenericTypeEntry { param: String::new(), types: Vec::new() },
    }
}

fn read_option_entries(m: &MetaItem, out: &mut Vec<GenericTypeEntry>)
    requires
        generic_option_ok(*m),
    ensures
        final(out)@.len() == old(out)@.len() + option_entries(*m).len(),
        forall|k: int| 0 <= k < old(out)@.len() ==> final(out)@[k] == old(out)@[k],
        forall|k: int|
            0 <= k < option_entries(*m).len() ==> entry_rel(
                #[trigger] final(out)@[old(out)@.len() + k],
                option_entries(*m)[k],
            ),
{
    if !path_is_ident(&m.path, "generic_types") {
        return;
    }
    if let MetaValue::Eq(v) = &m.value {
        if let Some(MetaExpr::Array(elems)) = &v.expr {
            let ghost base = old(out)@;
            let n = elems.len();
            let mut k: usize = 0;
            while k < n
                invariant
                    n == elems@.len(),
                    k <= n,
                    forall|x: int| 0 <= x < n ==> entry_ok(#[trigger] elems@[x]),
                    out@.len() == base.len() + k,
                    forall|x: int| 0 <= x < base.len() ==> out@[x] == base[x],
                    forall|x: int|
                        0 <= x < k ==> entry_rel(#[trigger] out@[base.len() + x], entry_of(elems@[x])),
                decreases n - k,
            {
                let e = read_entry(&elems[k]);
                out.push(e);
                proof {
                    assert forall|x: int| 0 <= x < k + 1 implies entry_rel(
                        #[trigger] out@[base.len() + x],
                        entry_of(elems@[x]),
                    ) by {
                        if x == k {
                            assert(out@[base.len() + x] == e);
                        }
                    }
                }
                k = k + 1;
            }
        }
    }
}

/// Whether the attributes can be read for `generic_types` (see `generic_attrs_ok`).
pub fn generic_attrs_readable(attrs: &Vec<AttrModel>) -> (r: bool)
    ensures
        r == generic_attrs_ok(attrs@),
{
    let n = attrs.len();
    let mut i: usize = 0;
    while i < n
        invariant
            n == attrs@.len(),
            i <= n,
            forall|a: int, j: int|
                0 <= a < i && is_proto_attr(attrs@[a]) && 0 <= j < attrs@[a].items@.len()
                    ==> generic_option_ok(#[trigger] attrs@[a].items@[j]),
        decreases n - i,
    {
        let attr = &attrs[i];
        if path_is_ident(&attr.path, "proto") {
            let m = attr.items.len();
            let mut j: usize = 0;
            while j < m
                invariant
                    n == attrs@.len(),
                    i < n,
                    *attr == attrs@[i as int],
                    is_proto_attr(attrs@[i as int]),
                    m == attr.items@.len(),
                    j <= m,
                    forall|k: int| 0 <= k < j ==> generic_option_ok(#[trigger] attr.items@[k]),
                decreases m - j,
            {
                if !generic_option_readable(&attr.items[j]) {
                    assert(!generic_option_ok(attrs@[i as int].items@[j as int]));
                    return false;
                }
                j = j + 1;
            }
        }
        i = i + 1;
    }
    true
}

#[verifier::loop_isolation(false)]
fn entry_readable(a: &ArrayElem) -> (r: bool)
    ensures
        r == entry_ok(*a),
{
    match &a.expr {
        MetaExpr::Assign(l, rhs) => {
            let left_ok = match &**l {
                MetaExpr::Path(segs) => segs.len() == 1,
                _ => false,
            };
            if !left_ok {
                return false;
            }
            match &**rhs {
                MetaExpr::Array(vals) => {
                    let n = vals.len();
                    let mut j: usize = 0;
                    while j < n
                        invariant
                            n == vals@.len(),
                            j <= n,
                            forall|k: int| 0 <= k < j ==> (#[trigger] vals@[k]).as_type is Some,
                        decreases n - j,
                    {
                        if vals[j].as_type.is_none() {
                            assert(!((vals@[j as int]).as_type is Some));
                            return false;
                        }
                        j = j + 1;
                    }
                    true
                },
                _ => false,
            }
        },
        _ => false,
    }
}

#[verifier::loop_isolation(false)]
fn generic_option_readable(m: &MetaItem) -> (r: bool)
    ensures
        r == generic_option_ok(*m),
{
    if path_is_ident(&m.path, "generic_types") {
        match &m.value {
            MetaValue::Eq(v) => match &v.expr {
                Some(MetaExpr::Array(elems)) => {
                    let n = elems.len();
                    let mut k: usize = 0;
                    while k < n
                        invariant
                            n == elems@.len(),
                            k <= n,
                            forall|x: int| 0 <= x < k ==> entry_ok(#[trigger] elems@[x]),
                        decreases n - k,
                    {
                        if !entry_readable(&elems[k]) {
                            assert(!entry_ok(elems@[k as int]));
                            return false;
                        }
                        k = k + 1;
                    }
                    true
                },
                _ => false,
            },
            _ => false,
        }
    } else {
        match &m.value {
            MetaValue::Flag => true,
            MetaValue::Eq(v) => v.expr.is_some(),
            _ => false,
        }
    }
}

/// The entries of an item's `#[proto(generic_types = [P = [T, ...], ...])]` options, in order
/// (see `generic_entries_spec`); each type is a copy of the one written.
pub fn extract_item_generic_types(attrs: &Vec<AttrModel>) -> (r: Vec<GenericTypeEntry>)
    requires
        generic_attrs_ok(attrs@),
    ensures
        entries_match(r@, generic_entries_spec(attrs@)),
{
    let mut entries: Vec<GenericTypeEntry> = Vec::new();
    let n = attrs.len();
    let mut i: usize = 0;
    assert(attrs@.take(0) =~= Seq::<AttrModel>::empty());
    while i < n
        invariant
            n == attrs@.len(),
            i <= n,
            generic_attrs_ok(attrs@),
            entries_match(entries@, generic_entries_spec(attrs@.take(i as int))),
        decreases n - i,
    {
        let ghost q = attrs@.take(i + 1);
        assert(q.drop_last() =~= attrs@.take(i as int));
        assert(q.last() == attrs@[i as int]);
        let attr = &attrs[i];
        if path_is_ident(&attr.path, "proto") {
            let ghost start = generic_entries_spec(attrs@.take(i as int));
            let m = attr.items.len();
            let mut j: usize = 0;
            assert(attr.items@.take(0) =~= Seq::<MetaItem>::empty());
            assert(start + items_entries(attr.items@.take(0)) =~= start);
            while j < m
                invariant
                    n == attrs@.len(),
                    i < n,
                    *attr == attrs@[i as int],
                    is_proto_attr(attrs@[i as int]),
                    generic_attrs_ok(attrs@),
                    m == attr.items@.len(),
                    j <= m,
                    entries_match(entries@, start + items_entries(attr.items@.take(j as int))),
                decreases m - j,
            {
                let ghost p = attr.items@.take(j + 1);
                assert(p.drop_last() =~= attr.items@.take(j as int));
                assert(p.last() == attr.items@[j as int]);
                let ghost before = entries@;
                let ghost s0 = start + items_entries(attr.items@.take(j as int));
                assert(generic_option_ok(attrs@[i as int].items@[j as int]));
                read_option_entries(&attr.items[j], &mut entries);
                proof {
                    let oe = option_entries(attr.items@[j as int]);
                    assert(start + items_entries(p) =~= s0 + oe);
                    assert forall|k: int| 0 <= k < entries@.len() implies entry_rel(
                        #[trigger] entries@[k],
                        (s0 + oe)[k],
                    ) by {
                        if k < before.len() {
                            assert(entries@[k] == before[k]);
                        } else {
                            assert(entries@[before.len() + (k - before.len())] == entries@[k]);
                        }
                    }
                }
                j = j + 1;
            }
            assert(attr.items@.take(m as int) =~= attr.items@);
        } else {
            assert(generic_entries_spec(q) == generic_entries_spec(attrs@.take(i as int)));
        }
        i = i + 1;
    }
    assert(attrs@.take(n as int) =~= attrs@);
    entries
}
/// The text of a string-literal element.
pub open spec fn str_value(a: ArrayElem) -> Option<Seq<char>> {
    match a.expr {
        MetaExpr::Str(s) => Some(s@),
        _ => None,
    }
}

/// The texts of the string literals among an array's elements.
pub open spec fn string_values(elems: Seq<ArrayElem>) -> Set<Seq<char>> {
    Set::new(|s: Seq<char>| exists|i: int| 0 <= i < elems.len() && str_value(#[trigger] elems[i]) == Some(s))
}

/// Some element is a string literal.
pub open spec fn has_string(elems: Seq<ArrayElem>) -> bool {
    exists|i: int| 0 <= i < elems.len() && (#[trigger] str_value(elems[i])) is Some
}

/// The set of the string literals in an array, other elements being ignored.
pub fn extract_string_array(elems: &Vec<ArrayElem>) -> (r: StringSet)
    ensures
        r.wf(),
        r@ == string_values(elems@),
{
    let mut set = StringSet::new();
    let n = elems.len();
    let mut i: usize = 0;
    while i < n
        invariant
            n == elems@.len(),
            i <= n,
            set.wf(),
            set@ == string_values(elems@.take(i as int)),
        decreases n - i,
    {
        let ghost before = set@;
        if let MetaExpr::Str(s) = &elems[i].expr {
            set.insert(s.clone());
        }
        proof {
            let p = elems@.take(i + 1);
            assert forall|x: Seq<char>| #[trigger] string_values(p).contains(x) <==> set@.contains(x) by {
                if string_values(p).contains(x) {
                    let k = choose|k: int| 0 <= k < p.len() && str_value(#[trigger] p[k]) == Some(x);
                    if k < i {
                        assert(elems@.take(i as int)[k] == p[k]);
                        assert(string_values(elems@.take(i as int)).contains(x));
                    }
                }
                if before.contains(x) {
                    let k = choose|k: int|
                        0 <= k < i && str_value(#[trigger] elems@.take(i as int)[k]) == Some(x);
                    assert(p[k] == elems@.take(i as int)[k]);
                }
                if set@.contains(x) && !before.contains(x) {
                    assert(p[i as int] == elems@[i as int]);
                }
            }
            assert(string_values(p) =~= set@);
        }
        i = i + 1;
    }
    assert(elems@.take(n as int) =~= elems@);
    set
}

/// The package an import option names: its path's identifier, or nothing for a longer path.
pub open spec fn option_package(m: MetaItem) -> Seq<char> {
    if m.path@.len() == 1 {
        m.path@[0]@
    } else {
        Seq::empty()
    }
}

/// Reading a `#[proto_imports(...)]` list stops at an option that has no expression value.
pub open spec fn import_option_stops(m: MetaItem) -> bool {
    eq_expr(m.value) is None
}

/// An option `package = ["A", "B"]` sets the package's types to the strings listed, when there
/// is any; other options leave the imports as they are.
pub open spec fn import_step(map: Map<Seq<char>, Set<Seq<char>>>, m: MetaItem) -> Map<
    Seq<char>,
    Set<Seq<char>>,
> {
    match eq_expr(m.value) {
        Some(MetaExpr::Array(elems)) => if has_string(elems@) {
            map.insert(option_package(m), string_values(elems@))
        } else {
            map
        },
        _ => map,
    }
}

pub open spec fn import_items(map: Map<Seq<char>, Set<Seq<char>>>, items: Seq<MetaItem>) -> Map<
    Seq<char>,
    Set<Seq<char>>,
>
    decreases items.len(),
{
    if items.len() == 0 {
        map
    } else if import_option_stops(items[0]) {
        map
    } else {
        import_items(import_step(map, items[0]), items.drop_first())
    }
}

pub open spec fn is_imports_attr(a: AttrModel) -> bool {
    path_is(a.path@, "proto_imports"@)
}

/// The imports an item's `#[proto_imports(package = ["Type", ...], ...)]` attributes declare.
pub open spec fn item_imports_spec(attrs: Seq<AttrModel>) -> Map<Seq<char>, Set<Seq<char>>>
    decreases attrs.len(),
{
    if attrs.len() == 0 {
        Map::empty()
    } else if is_imports_attr(attrs.last()) {
        import_items(item_imports_spec(attrs.drop_last()), attrs.last().items@)
    } else {
        item_imports_spec(attrs.drop_last())
    }
}

fn read_import_items(items: &Vec<MetaItem>, map: &mut ImportMap)
    requires
        old(map).wf(),
    ensures
        final(map).wf(),
        final(map)@ == import_items(old(map)@, items@),
{
    let ghost start = map@;
    let n = items.len();
    let mut i: usize = 0;
    let mut stop = false;
    assert(items@.skip(0) =~= items@);
    while i < n && !stop
        invariant
            n == items@.len(),
            i <= n,
            map.wf(),
            import_items(start, items@) == import_items(map@, items@.skip(i as int)),
            stop ==> i < n && import_option_stops(items@[i as int]),
        decreases n - i + (if stop { 0int } else { 1int }),
    {
        let ghost rest = items@.skip(i as int);
        assert(rest[0] == items@[i as int]);
        assert(rest.drop_first() =~= items@.skip(i + 1));
        let item = &items[i];
        let ghost before = map@;
        match &item.value {
            MetaValue::Eq(v) => match &v.expr {
                Some(e) => {
                    if let MetaExpr::Array(elems) = e {
                        let set = extract_string_array(elems);
                        if set.len() > 0 {
                            proof {
                                let x = set@.choose();
                                assert(set@.contains(x));
                                let k = choose|k: int| 0 <= k < elems@.len() && str_value(#[trigger] elems@[k]) == Some(x);
                            }
                            let package = if item.path.len() == 1 {
                                item.path[0].clone()
                            } else {
                                String::new()
                            };
                            assert(has_string(elems@));
                            assert(package@ == option_package(*item));
                            map.insert(package, set);
                        } else {
                            proof {
                                if has_string(elems@) {
                                    let k = choose|k: int| 0 <= k < elems@.len() && (#[trigger] str_value(elems@[k])) is Some;
                                    assert(set@.contains(str_value(elems@[k])->Some_0));
                                    set.lemma_elems();
                                    set@.lemma_len0_is_empty();
                                }
                            }
                        }
                    }
                    assert(map@ == import_step(before, items@[i as int]));
                    i = i + 1;
                },
                None => {
                    stop = true;
                },
            },
            _ => {
                stop = true;
            },
        }
    }
    proof {
        if !stop {
            assert(items@.skip(i as int).len() == 0);
        }
    }
}

/// The imports declared by an item's `#[proto_imports(...)]` attributes (see
/// `item_imports_spec`).
pub fn extract_item_imports(attrs: &Vec<AttrModel>) -> (r: ImportMap)
    ensures
        r.wf(),
        r@ == item_imports_spec(attrs@),
{
    let mut map = ImportMap::new();
    let n = attrs.len();
    let mut i: usize = 0;
    assert(attrs@.take(0) =~= Seq::<AttrModel>::empty());
    while i < n
        invariant
            n == attrs@.len(),
            i <= n,
            map.wf(),
            map@ == item_imports_spec(attrs@.take(i as int)),
        decreases n - i,
    {
        let ghost q = attrs@.take(i + 1);
        assert(q.drop_last() =~= attrs@.take(i as int));
        assert(q.last() == attrs@[i as int]);
        if path_is_ident(&attrs[i].path, "proto_imports") {
            read_import_items(&attrs[i].items, &mut map);
        }
        i = i + 1;
    }
    assert(attrs@.take(n as int) =~= attrs@);
    map
}

/// The package of a path: its segments joined by `.`.
pub open spec fn proto_package_spec(segs: Seq<Seq<char>>) -> Seq<char> {
    join_spec(segs, "."@)
}

/// The protobuf package named by a Rust path: `a::b::c` gives `a.b.c`.
pub fn path_to_proto_package(segs: &Vec<String>) -> (r: String)
    ensures
        r@ == proto_package_spec(views(segs@)),
{
    join(segs, ".")
}

/// The package a `#[proto_import_all_from(...)]` attribute names: a string literal's text, or
/// a path as a package.
pub open spec fn import_all_arg(a: AttrModel) -> Option<Seq<char>> {
    match a.args {
        MetaExpr::Str(s) => Some(s@),
        MetaExpr::Path(segs) => Some(proto_package_spec(views(segs@))),
        _ => None,
    }
}

/// The package of the first `#[proto_import_all_from(...)]` attribute that names one.
pub open spec fn import_all_from_spec(attrs: Seq<AttrModel>) -> Option<Seq<char>>
    decreases attrs.len(),
{
    if attrs.len() == 0 {
        None
    } else if path_is(attrs[0].path@, "proto_import_all_from"@) && import_all_arg(attrs[0]) is Some {
        import_all_arg(attrs[0])
    } else {
        import_all_from_spec(attrs.drop_first())
    }
}

/// The package every type is imported from when an item has `#[proto_import_all_from(...)]`
/// (see `import_all_from_spec`).
pub fn extract_import_all_from(attrs: &Vec<AttrModel>) -> (r: Option<String>)
    ensures
        opt_string(r) == import_all_from_spec(attrs@),
{
    let n = attrs.len();
    let mut i: usize = 0;
    assert(attrs@.skip(0) =~= attrs@);
    while i < n
        invariant
            n == attrs@.len(),
            i <= n,
            import_all_from_spec(attrs@) == import_all_from_spec(attrs@.skip(i as int)),
        decreases n - i,
    {
        let ghost rest = attrs@.skip(i as int);
        assert(rest[0] == attrs@[i as int]);
        assert(rest.drop_first() =~= attrs@.skip(i + 1));
        let attr = &attrs[i];
        if path_is_ident(&attr.path, "proto_import_all_from") {
            match &attr.args {
                MetaExpr::Str(s) => {
                    return Some(s.clone());
                },
                MetaExpr::Path(segs) => {
                    return Some(path_to_proto_package(segs));
                },
                _ => {},
            }
        }
        i = i + 1;
    }
    None
}
} // verus!
