//! The packages that fields import their types from (`#[proto(import_path = "...")]`).

use vstd::prelude::*;

use crate::import_map::ImportMap;
use crate::model::{DataModel, FieldModel, FieldsModel, ImportGroup, TraitModel, VariantModel, field_seq};
use crate::text::{str_eq, string_of, views};
use crate::types::{GenericArg, RustType, path_ident_spec, rust_type_path_ident};

verus! {

broadcast use vstd::std_specs::vec::group_vec_axioms;

/// The type argument in first position, if the first argument is a type.
pub open spec fn first_type_arg(args: Seq<GenericArg>) -> Option<RustType> {
    if args.len() > 0 && args[0] is Type {
        Some(args[0]->Type_0)
    } else {
        None
    }
}

/// The type arguments, in order, without lifetimes and other arguments.
pub open spec fn type_args(args: Seq<GenericArg>) -> Seq<RustType>
    decreases args.len(),
{
    if args.len() == 0 {
        Seq::empty()
    } else {
        type_args(args.drop_last()) + match args.last() {
            GenericArg::Type(t) => seq![t],
            _ => Seq::empty(),
        }
    }
}

/// Wrappers whose element type names an imported field: `Option`, `Vec`, `ArcSwap`,
/// `ArcSwapOption`.
pub open spec fn is_element_wrapper(id: Seq<char>) -> bool {
    id == "Option"@ || id == "Vec"@ || id == "ArcSwap"@ || id == "ArcSwapOption"@
}

pub open spec fn is_map_ident(id: Seq<char>) -> bool {
    id == "HashMap"@ || id == "BTreeMap"@
}

pub open spec fn is_set_ident(id: Seq<char>) -> bool {
    id == "HashSet"@ || id == "BTreeSet"@
}

/// The name an imported field's type is listed under: the element type of a wrapper or set, the
/// value type of a map, the type's own last identifier otherwise, and `Unknown` for a type that
/// is not a path.
pub open spec fn field_type_name_spec(t: RustType) -> Seq<char> {
    match t {
        RustType::Path(p) => if p.segments@.len() > 0 {
            let seg = p.segments@.last();
            let id = seg.ident@;
            if is_element_wrapper(id) && first_type_arg(seg.args@) is Some {
                path_ident_spec(first_type_arg(seg.args@)->Some_0)
            } else if is_map_ident(id) {
                if type_args(seg.args@).len() > 1 {
                    path_ident_spec(type_args(seg.args@)[1])
                } else {
                    id
                }
            } else if is_set_ident(id) && first_type_arg(seg.args@) is Some {
                path_ident_spec(first_type_arg(seg.args@)->Some_0)
            } else {
                id
            }
        } else {
            "Unknown"@
        },
        _ => "Unknown"@,
    }
}

/// A map field is listed under its value type, whichever map it is: for a path type whose last
/// segment is `HashMap` or `BTreeMap` with at least two type arguments, the name is the identifier
/// of the second type argument. So a `HashMap` and a `BTreeMap` over the same arguments give the
/// same name.
pub proof fn lemma_map_field_named_by_value(t: RustType)
    ensures
        match t {
            RustType::Path(p) => p.segments@.len() > 0 && (p.segments@.last().ident@ == "HashMap"@
                || p.segments@.last().ident@ == "BTreeMap"@) && type_args(p.segments@.last().args@).len() > 1
                ==> field_type_name_spec(t) == path_ident_spec(type_args(p.segments@.last().args@)[1]),
            _ => true,
        },
{
    reveal_strlit("HashMap");
    reveal_strlit("BTreeMap");
    reveal_strlit("Option");
    reveal_strlit("Vec");
    reveal_strlit("ArcSwap");
    reveal_strlit("ArcSwapOption");
    assert("HashMap"@.len() == 7 && "BTreeMap"@.len() == 8 && "Option"@.len() == 6);
    assert("Vec"@.len() == 3 && "ArcSwap"@.len() == 7 && "ArcSwapOption"@.len() == 13);
    assert("HashMap"@[0] != "ArcSwap"@[0]);
    assert(!is_element_wrapper("HashMap"@));
    assert(!is_element_wrapper("BTreeMap"@));
}

/// A wrapped or collected field is listed under its element type: for a path type whose last
/// segment is `Option`, `Vec`, `ArcSwap`, `ArcSwapOption`, `HashSet` or `BTreeSet` with a type as
/// its first argument, the name is the identifier of that type.
pub proof fn lemma_element_field_named_by_element(t: RustType)
    ensures
        match t {
            RustType::Path(p) => p.segments@.len() > 0 && first_type_arg(p.segments@.last().args@) is Some && {
                let id = p.segments@.last().ident@;
                id == "Option"@ || id == "Vec"@ || id == "ArcSwap"@ || id == "ArcSwapOption"@ || id == "HashSet"@
                    || id == "BTreeSet"@
            } ==> field_type_name_spec(t) == path_ident_spec(first_type_arg(p.segments@.last().args@)->Some_0),
            _ => true,
        },
{
    reveal_strlit("HashMap");
    reveal_strlit("BTreeMap");
    reveal_strlit("HashSet");
    reveal_strlit("BTreeSet");
    reveal_strlit("Option");
    reveal_strlit("Vec");
    reveal_strlit("ArcSwap");
    reveal_strlit("ArcSwapOption");
    assert("HashMap"@.len() == 7 && "BTreeMap"@.len() == 8 && "HashSet"@.len() == 7 && "BTreeSet"@.len() == 8);
    assert("Option"@.len() == 6 && "Vec"@.len() == 3 && "ArcSwap"@.len() == 7 && "ArcSwapOption"@.len() == 13);
    assert("HashSet"@[4] != "HashMap"@[4] && "BTreeSet"@[5] != "BTreeMap"@[5] && "HashSet"@[0] != "ArcSwap"@[0]);
    assert(!is_element_wrapper("HashSet"@) && !is_map_ident("HashSet"@));
    assert(!is_element_wrapper("BTreeSet"@) && !is_map_ident("BTreeSet"@));
}

/// Two map fields over the same type arguments, one a `HashMap` and one a `BTreeMap`, are listed
/// under the same name.
pub proof fn lemma_map_kinds_agree(a: RustType, b: RustType)
    requires
        a matches RustType::Path(pa) && pa.segments@.len() > 0 && pa.segments@.last().ident@ == "HashMap"@,
        b matches RustType::Path(pb) && pb.segments@.len() > 0 && pb.segments@.last().ident@ == "BTreeMap"@,
        a->Path_0.segments@.last().args@ == b->Path_0.segments@.last().args@,
        type_args(a->Path_0.segments@.last().args@).len() > 1,
    ensures
        field_type_name_spec(a) == field_type_name_spec(b),
{
    lemma_map_field_named_by_value(a);
    lemma_map_field_named_by_value(b);
}

/// The second type argument, if there are two.
fn second_type_arg(args: &Vec<GenericArg>) -> (r: Option<&RustType>)
    ensures
        match r {
            Some(t) => type_args(args@).len() > 1 && *t == type_args(args@)[1],
            None => type_args(args@).len() <= 1,
        },
{
    let mut seen: usize = 0;
    let mut i: usize = 0;
    let n = args.len();
    while i < n
        invariant
            n == args@.len(),
            i <= n,
            seen == type_args(args@.take(i as int)).len(),
            seen <= 1,
            seen == 1 ==> type_args(args@.take(i as int)).len() == 1,
        decreases n - i,
    {
        let ghost q = args@.take(i + 1);
        assert(q.drop_last() =~= args@.take(i as int));
        assert(q.last() == args@[i as int]);
        match &args[i] {
            GenericArg::Type(t) => {
                if seen == 1 {
                    proof {
                        assert(type_args(q) == type_args(args@.take(i as int)).push(*t));
                        lemma_type_args_prefix(args@, i + 1);
                    }
                    return Some(t);
                }
                seen = seen + 1;
            },
            _ => {},
        }
        i = i + 1;
    }
    assert(args@.take(n as int) =~= args@);
    None
}

/// The type arguments of a prefix start the type arguments of the whole.
proof fn lemma_type_args_prefix(args: Seq<GenericArg>, k: int)
    requires
        0 <= k <= args.len(),
    ensures
        type_args(args.take(k)).len() <= type_args(args).len(),
        forall|j: int|
            0 <= j < type_args(args.take(k)).len() ==> type_args(args)[j] == type_args(
                args.take(k),
            )[j],
    decreases args.len() - k,
{
    if k < args.len() {
        let q = args.take(k + 1);
        assert(q.drop_last() =~= args.take(k));
        lemma_type_args_prefix(args, k + 1);
    } else {
        assert(args.take(k) =~= args);
    }
}

/// The name a field's type is listed under in the imports of its package.
pub fn extract_field_type_name(t: &RustType) -> (r: String)
    ensures
        r@ == field_type_name_spec(*t),
{
    match t {
        RustType::Path(p) => {
            let n = p.segments.len();
            if n == 0 {
                return string_of("Unknown");
            }
            let seg = &p.segments[n - 1];
            let id = seg.ident.as_str();
            let wrapper = str_eq(id, "Option") || str_eq(id, "Vec") || str_eq(id, "ArcSwap")
                || str_eq(id, "ArcSwapOption");
            let first: Option<&RustType> = if seg.args.len() > 0 {
                match &seg.args[0] {
                    GenericArg::Type(inner) => Some(inner),
                    _ => None,
                }
            } else {
                None
            };
            if wrapper && first.is_some() {
                return rust_type_path_ident(first.unwrap());
            }
            if str_eq(id, "HashMap") || str_eq(id, "BTreeMap") {
                return match second_type_arg(&seg.args) {
                    Some(v) => rust_type_path_ident(v),
                    None => seg.ident.clone(),
                };
            }
            if (str_eq(id, "HashSet") || str_eq(id, "BTreeSet")) && first.is_some() {
                return rust_type_path_ident(first.unwrap());
            }
            seg.ident.clone()
        },
        _ => string_of("Unknown"),
    }
}

/// The package a field imports its type from.
pub open spec fn import_path_of(f: FieldModel) -> Option<Seq<char>> {
    match f.config.import_path {
        Some(s) => Some(s@),
        None => None,
    }
}

/// Some field imports from package `p`.
pub open spec fn has_import(fs: Seq<FieldModel>, p: Seq<char>) -> bool {
    exists|i: int| 0 <= i < fs.len() && import_path_of(#[trigger] fs[i]) == Some(p)
}

/// The type names of the fields that import from `p`, in field order.
pub open spec fn names_for(fs: Seq<FieldModel>, p: Seq<char>) -> Seq<Seq<char>>
    decreases fs.len(),
{
    if fs.len() == 0 {
        Seq::empty()
    } else {
        names_for(fs.drop_last(), p) + if import_path_of(fs.last()) == Some(p) {
            seq![field_type_name_spec(fs.last().ty)]
        } else {
            Seq::empty()
        }
    }
}

/// The groups hold each package once.
pub open spec fn distinct_packages(gs: Seq<ImportGroup>) -> bool {
    forall|a: int, b: int|
        0 <= a < gs.len() && 0 <= b < gs.len() && a != b ==> (#[trigger] gs[a]).package@ != (
        #[trigger] gs[b]).package@
}

/// The groups list, for each package some field imports from, the type names of those fields in
/// order, and nothing else.
pub open spec fn groups_of_fields(gs: Seq<ImportGroup>, fs: Seq<FieldModel>) -> bool {
    &&& distinct_packages(gs)
    &&& forall|g: int|
        0 <= g < gs.len() ==> has_import(fs, (#[trigger] gs[g]).package@) && views(gs[g].types@)
            == names_for(fs, gs[g].package@)
    &&& forall|p: Seq<char>|
        #[trigger] has_import(fs, p) ==> exists|g: int| 0 <= g < gs.len() && gs[g].package@ == p
}

proof fn lemma_names_for_push_other(fs: Seq<FieldModel>, f: FieldModel, p: Seq<char>)
    requires
        import_path_of(f) != Some(p),
    ensures
        names_for(fs.push(f), p) == names_for(fs, p),
{
    assert(fs.push(f).drop_last() =~= fs);
    assert(names_for(fs, p) + Seq::<Seq<char>>::empty() =~= names_for(fs, p));
}

/// The imports declared by the fields of a struct or variant: each package some field imports
/// from, with the type names of the fields that import from it, in field order.
pub fn extract_field_imports(fields: &FieldsModel) -> (r: Vec<ImportGroup>)
    ensures
        groups_of_fields(r@, field_seq(*fields)),
{
    let empty: Vec<FieldModel> = Vec::new();
    let fs: &Vec<FieldModel> = match fields {
        FieldsModel::Named(v) => v,
        FieldsModel::Unnamed(v) => v,
        FieldsModel::Unit => &empty,
    };
    assert(fs@ == field_seq(*fields)) by {
        if fields is Unit {
            assert(fs@ =~= Seq::<FieldModel>::empty());
        }
    }
    let mut groups: Vec<ImportGroup> = Vec::new();
    let n = fs.len();
    let mut i: usize = 0;
    while i < n
        invariant
            n == fs@.len(),
            i <= n,
            groups_of_fields(groups@, fs@.take(i as int)),
        decreases n - i,
    {
        let ghost pre = fs@.take(i as int);
        let ghost post = fs@.take(i + 1);
        let ghost f = fs@[i as int];
        assert(post =~= pre.push(f));
        assert(post.drop_last() =~= pre);
        let field = &fs[i];
        match &field.config.import_path {
            None => {
                proof {
                    assert forall|p: Seq<char>| has_import(post, p) implies has_import(pre, p) by {
                        let k = choose|k: int| 0 <= k < post.len() && import_path_of(post[k]) == Some(p);
                        assert(pre[k] == post[k]);
                    }
                    assert forall|p: Seq<char>| has_import(pre, p) implies has_import(post, p) by {
                        let k = choose|k: int| 0 <= k < pre.len() && import_path_of(pre[k]) == Some(p);
                        assert(pre[k] == post[k]);
                    }
                    assert forall|p: Seq<char>| true implies names_for(post, p) == names_for(pre, p) by {
                        lemma_names_for_push_other(pre, f, p);
                    }
                }
            },
            Some(path) => {
                let name = extract_field_type_name(&field.ty);
                let ghost pv = path@;
                // Look for the group of this package.
                let mut g: usize = 0;
                let mut found = false;
                while g < groups.len() && !found
                    invariant
                        pv == path@,
                        g <= groups@.len(),
                        forall|h: int| 0 <= h < g ==> (#[trigger] groups@[h]).package@ != pv,
                        found ==> g < groups@.len() && groups@[g as int].package@ == pv,
                    decreases groups@.len() - g + (if found { 0int } else { 1int }),
                {
                    if str_eq(groups[g].package.as_str(), path.as_str()) {
                        found = true;
                    } else {
                        g = g + 1;
                    }
                }
                proof {
                    assert forall|p: Seq<char>| p != pv implies names_for(post, p) == names_for(
                        pre,
                        p,
                    ) by {
                        lemma_names_for_push_other(pre, f, p);
                    }
                    assert(names_for(post, pv) =~= names_for(pre, pv).push(name@));
                    assert(has_import(post, pv)) by {
                        assert(post[i as int] == f);
                    }
                    assert forall|p: Seq<char>| has_import(pre, p) implies has_import(post, p) by {
                        let k = choose|k: int| 0 <= k < pre.len() && import_path_of(pre[k]) == Some(p);
                        assert(pre[k] == post[k]);
                    }
                    assert forall|p: Seq<char>| #[trigger] has_import(post, p) && p != pv implies has_import(
                        pre,
                        p,
                    ) by {
                        let k = choose|k: int| 0 <= k < post.len() && import_path_of(post[k]) == Some(p);
                        assert(k < i);
                        assert(pre[k] == post[k]);
                    }
                }
                if found {
                    let ghost old_groups = groups@;
                    let mut grp = groups.remove(g);
                    grp.types.push(name);
                    groups.insert(g, grp);
                    proof {
                        let ng = groups@;
                        assert forall|h: int| 0 <= h < ng.len() && h != g implies ng[h] == old_groups[h] by {
                            if h < g {
                                assert(ng[h] == old_groups[h]);
                            } else {
                                assert(ng[h] == old_groups[h]);
                            }
                        }
                        assert(views(ng[g as int].types@) =~= views(old_groups[g as int].types@).push(
                            name@,
                        ));
                        assert forall|p: Seq<char>| #[trigger] has_import(post, p) implies exists|
                            h: int,
                        | 0 <= h < ng.len() && ng[h].package@ == p by {
                            if p != pv {
                                let h = choose|h: int|
                                    0 <= h < old_groups.len() && old_groups[h].package@ == p;
                                assert(ng[h].package@ == p);
                            } else {
                                assert(ng[g as int].package@ == p);
                            }
                        }
                    }
                } else {
                    let ghost old_groups = groups@;
                    let mut types: Vec<String> = Vec::new();
                    types.push(name);
                    groups.push(ImportGroup { package: path.clone(), types });
                    proof {
                        let ng = groups@;
                        assert(names_for(pre, pv) =~= Seq::<Seq<char>>::empty()) by {
                            if names_for(pre, pv).len() > 0 {
                                lemma_names_nonempty(pre, pv);
                                let h = choose|h: int|
                                    0 <= h < old_groups.len() && old_groups[h].package@ == pv;
                            }
                        }
                        assert(views(ng.last().types@) =~= seq![name@]);
                        assert forall|p: Seq<char>| #[trigger] has_import(post, p) implies exists|
                            h: int,
                        | 0 <= h < ng.len() && ng[h].package@ == p by {
                            if p != pv {
                                let h = choose|h: int|
                                    0 <= h < old_groups.len() && old_groups[h].package@ == p;
                                assert(ng[h].package@ == p);
                            } else {
                                assert(ng[old_groups.len() as int].package@ == p);
                            }
                        }
                    }
                }
            },
        }
        i = i + 1;
    }
    assert(fs@.take(n as int) =~= fs@);
    groups
}

proof fn lemma_names_nonempty(fs: Seq<FieldModel>, p: Seq<char>)
    requires
        names_for(fs, p).len() > 0,
    ensures
        has_import(fs, p),
    decreases fs.len(),
{
    if import_path_of(fs.last()) == Some(p) {
        assert(import_path_of(fs[fs.len() - 1]) == Some(p));
    } else {
        lemma_names_nonempty(fs.drop_last(), p);
        let k = choose|k: int| 0 <= k < fs.len() - 1 && import_path_of(fs.drop_last()[k]) == Some(p);
        assert(fs[k] == fs.drop_last()[k]);
    }
}

/// The types of a package in an import map; none when the package is absent.
pub open spec fn or_empty(m: Map<Seq<char>, Set<Seq<char>>>, p: Seq<char>) -> Set<Seq<char>> {
    if m.contains_key(p) {
        m[p]
    } else {
        Set::empty()
    }
}

/// Two import maps together: every package of either, with the types of both.
pub open spec fn union_imports(
    a: Map<Seq<char>, Set<Seq<char>>>,
    b: Map<Seq<char>, Set<Seq<char>>>,
) -> Map<Seq<char>, Set<Seq<char>>> {
    Map::new(
        |p: Seq<char>| a.contains_key(p) || b.contains_key(p),
        |p: Seq<char>| or_empty(a, p).union(or_empty(b, p)),
    )
}

/// The import map a list of groups stands for: each package to the types of all its groups.
pub open spec fn groups_map(gs: Seq<ImportGroup>) -> Map<Seq<char>, Set<Seq<char>>> {
    Map::new(
        |p: Seq<char>| exists|g: int| 0 <= g < gs.len() && (#[trigger] gs[g]).package@ == p,
        |p: Seq<char>|
            Set::new(
                |t: Seq<char>|
                    exists|g: int, j: int|
                        0 <= g < gs.len() && gs[g].package@ == p && 0 <= j
                            < gs[g].types@.len() && (#[trigger] gs[g].types@[j])@ == t,
            ),
    )
}

/// The imports that the fields of a struct or variant declare.
pub open spec fn fields_imports(fs: Seq<FieldModel>) -> Map<Seq<char>, Set<Seq<char>>> {
    Map::new(|p: Seq<char>| has_import(fs, p), |p: Seq<char>| names_for(fs, p).to_set())
}

/// The imports that the fields of all variants declare.
pub open spec fn variants_imports(vs: Seq<VariantModel>) -> Map<Seq<char>, Set<Seq<char>>>
    decreases vs.len(),
{
    if vs.len() == 0 {
        Map::empty()
    } else {
        union_imports(variants_imports(vs.drop_last()), fields_imports(field_seq(vs.last().fields)))
    }
}

/// Joining import maps is associative.
pub proof fn lemma_union_imports_assoc(
    a: Map<Seq<char>, Set<Seq<char>>>,
    b: Map<Seq<char>, Set<Seq<char>>>,
    c: Map<Seq<char>, Set<Seq<char>>>,
)
    ensures
        union_imports(union_imports(a, b), c) == union_imports(a, union_imports(b, c)),
{
    let l = union_imports(union_imports(a, b), c);
    let r = union_imports(a, union_imports(b, c));
    assert forall|p: Seq<char>| #[trigger] l.contains_key(p) implies l[p] == r[p] by {
        assert(l[p] =~= r[p]);
    }
    assert(l =~= r);
}

/// Joining import maps does not depend on their order.
pub proof fn lemma_union_imports_commutative(
    a: Map<Seq<char>, Set<Seq<char>>>,
    b: Map<Seq<char>, Set<Seq<char>>>,
)
    ensures
        union_imports(a, b) == union_imports(b, a),
{
    let l = union_imports(a, b);
    let r = union_imports(b, a);
    assert forall|p: Seq<char>| #[trigger] l.contains_key(p) implies l[p] == r[p] by {
        assert(l[p] =~= r[p]);
    }
    assert(l =~= r);
}

/// Joining with an empty import map changes nothing.
pub proof fn lemma_union_imports_empty(a: Map<Seq<char>, Set<Seq<char>>>)
    ensures
        union_imports(a, Map::empty()) == a,
{
    let l = union_imports(a, Map::empty());
    assert forall|p: Seq<char>| #[trigger] l.contains_key(p) implies l[p] == a[p] by {
        assert(l[p] =~= a[p]);
    }
    assert(l =~= a);
}

proof fn lemma_groups_map_push(gs: Seq<ImportGroup>, g: ImportGroup)
    ensures
        groups_map(gs.push(g)) == union_imports(
            groups_map(gs),
            Map::empty().insert(g.package@, views(g.types@).to_set()),
        ),
{
    let hs = gs.push(g);
    let single = Map::<Seq<char>, Set<Seq<char>>>::empty().insert(g.package@, views(g.types@).to_set());
    let l = groups_map(hs);
    let r = union_imports(groups_map(gs), single);
    assert forall|p: Seq<char>| l.contains_key(p) <==> r.contains_key(p) by {
        if l.contains_key(p) {
            let k = choose|k: int| 0 <= k < hs.len() && (#[trigger] hs[k]).package@ == p;
            if k < gs.len() {
                assert(gs[k] == hs[k]);
            }
        }
        if groups_map(gs).contains_key(p) {
            let k = choose|k: int| 0 <= k < gs.len() && (#[trigger] gs[k]).package@ == p;
            assert(hs[k] == gs[k]);
        }
        if p == g.package@ {
            assert(hs[gs.len() as int] == g);
        }
    }
    assert forall|p: Seq<char>| #[trigger] l.contains_key(p) implies l[p] == r[p] by {
        assert forall|t: Seq<char>| l[p].contains(t) <==> r[p].contains(t) by {
            if l[p].contains(t) {
                let (k, j) = choose|k: int, j: int|
                    0 <= k < hs.len() && hs[k].package@ == p && 0 <= j
                        < hs[k].types@.len() && (#[trigger] hs[k].types@[j])@ == t;
                if k < gs.len() {
                    assert(gs[k] == hs[k]);
                    assert(groups_map(gs).contains_key(p));
                    assert(groups_map(gs)[p].contains(t));
                } else {
                    assert(views(g.types@)[j] == t);
                }
            }
            if groups_map(gs).contains_key(p) && groups_map(gs)[p].contains(t) {
                let (k, j) = choose|k: int, j: int|
                    0 <= k < gs.len() && gs[k].package@ == p && 0 <= j
                        < gs[k].types@.len() && (#[trigger] gs[k].types@[j])@ == t;
                assert(hs[k] == gs[k]);
            }
            if p == g.package@ && views(g.types@).to_set().contains(t) {
                let j = choose|j: int| 0 <= j < views(g.types@).len() && views(g.types@)[j] == t;
                assert(hs[gs.len() as int] == g);
                assert(g.types@[j]@ == t);
            }
        }
        assert(l[p] =~= r[p]);
    }
    assert(l =~= r);
}

proof fn lemma_union_single(m: Map<Seq<char>, Set<Seq<char>>>, p: Seq<char>, s: Set<Seq<char>>)
    ensures
        union_imports(m, Map::empty().insert(p, s)) == m.insert(p, or_empty(m, p).union(s)),
{
    let l = union_imports(m, Map::empty().insert(p, s));
    let r = m.insert(p, or_empty(m, p).union(s));
    assert forall|q: Seq<char>| #[trigger] l.contains_key(q) implies l[q] == r[q] by {
        if q != p {
            assert(l[q] =~= r[q]);
        }
    }
    assert(l =~= r);
}

/// Adds the groups of a field-import list to an import map: each group's types join its
/// package's set, creating the package when absent.
pub fn merge_field_imports(dest: &mut ImportMap, src: Vec<ImportGroup>)
    requires
        old(dest).wf(),
    ensures
        final(dest).wf(),
        final(dest)@ == union_imports(old(dest)@, groups_map(src@)),
{
    let ghost start = dest@;
    let n = src.len();
    let mut i: usize = 0;
    proof {
        assert(groups_map(src@.take(0)) =~= Map::empty());
        lemma_union_imports_empty(start);
    }
    while i < n
        invariant
            n == src@.len(),
            i <= n,
            dest.wf(),
            dest@ == union_imports(start, groups_map(src@.take(i as int))),
        decreases n - i,
    {
        let g = &src[i];
        let ghost before = dest@;
        dest.extend(g.package.clone(), &g.types);
        proof {
            let s = views(g.types@).to_set();
            assert(src@.take(i + 1) =~= src@.take(i as int).push(*g));
            lemma_groups_map_push(src@.take(i as int), *g);
            let single = Map::<Seq<char>, Set<Seq<char>>>::empty().insert(g.package@, s);
            lemma_union_imports_assoc(start, groups_map(src@.take(i as int)), single);
            lemma_union_single(before, g.package@, s);
        }
        i = i + 1;
    }
    assert(src@.take(n as int) =~= src@);
}

/// A list of groups that lists the imports of some fields stands for those fields' imports.
proof fn lemma_groups_of_fields_map(gs: Seq<ImportGroup>, fs: Seq<FieldModel>)
    requires
        groups_of_fields(gs, fs),
    ensures
        groups_map(gs) == fields_imports(fs),
{
    let l = groups_map(gs);
    let r = fields_imports(fs);
    assert forall|p: Seq<char>| l.contains_key(p) <==> r.contains_key(p) by {
        if l.contains_key(p) {
            let k = choose|k: int| 0 <= k < gs.len() && (#[trigger] gs[k]).package@ == p;
        }
        if r.contains_key(p) {
            assert(has_import(fs, p));
        }
    }
    assert forall|p: Seq<char>| #[trigger] l.contains_key(p) implies l[p] == r[p] by {
        let k = choose|k: int| 0 <= k < gs.len() && (#[trigger] gs[k]).package@ == p;
        assert(views(gs[k].types@) == names_for(fs, p));
        assert forall|t: Seq<char>| l[p].contains(t) <==> r[p].contains(t) by {
            if l[p].contains(t) {
                let (k2, j) = choose|k2: int, j: int|
                    0 <= k2 < gs.len() && gs[k2].package@ == p && 0 <= j
                        < gs[k2].types@.len() && (#[trigger] gs[k2].types@[j])@ == t;
                assert(k2 == k);
                assert(views(gs[k].types@)[j] == t);
            }
            if r[p].contains(t) {
                let j = choose|j: int| 0 <= j < names_for(fs, p).len() && names_for(fs, p)[j] == t;
                assert(views(gs[k].types@)[j] == t);
            }
        }
        assert(l[p] =~= r[p]);
    }
    assert(l =~= r);
}

/// Items whose fields may declare imports.
pub trait ParseFieldAttr {
    /// The imports the item's fields declare.
    spec fn declared_imports(&self) -> Map<Seq<char>, Set<Seq<char>>>;

    /// Adds the imports the item's fields declare to `map`.
    fn extract_field_imports(&self, map: &mut ImportMap)
        requires
            old(map).wf(),
        ensures
            final(map).wf(),
            final(map)@ == union_imports(old(map)@, self.declared_imports()),
    ;
}

impl ParseFieldAttr for DataModel {
    /// A struct's fields, every variant's fields for an enum, nothing for a union.
    open spec fn declared_imports(&self) -> Map<Seq<char>, Set<Seq<char>>> {
        match self {
            DataModel::Struct(f) => fields_imports(field_seq(*f)),
            DataModel::Enum(vs) => variants_imports(vs@),
            DataModel::Union => Map::empty(),
        }
    }

    fn extract_field_imports(&self, map: &mut ImportMap) {
        match self {
            DataModel::Struct(f) => {
                let groups = extract_field_imports(f);
                proof {
                    lemma_groups_of_fields_map(groups@, field_seq(*f));
                }
                merge_field_imports(map, groups);
            },
            DataModel::Enum(vs) => {
                let ghost start = map@;
                let n = vs.len();
                let mut i: usize = 0;
                proof {
                    assert(vs@.take(0) =~= Seq::<VariantModel>::empty());
                    lemma_union_imports_empty(start);
                }
                while i < n
                    invariant
                        n == vs@.len(),
                        i <= n,
                        map.wf(),
                        map@ == union_imports(start, variants_imports(vs@.take(i as int))),
                    decreases n - i,
                {
                    let groups = extract_field_imports(&vs[i].fields);
                    proof {
                        lemma_groups_of_fields_map(groups@, field_seq(vs@[i as int].fields));
                        let q = vs@.take(i + 1);
                        assert(q.drop_last() =~= vs@.take(i as int));
                        lemma_union_imports_assoc(
                            start,
                            variants_imports(vs@.take(i as int)),
                            fields_imports(field_seq(vs@[i as int].fields)),
                        );
                    }
                    merge_field_imports(map, groups);
                    i = i + 1;
                }
                assert(vs@.take(n as int) =~= vs@);
            },
            DataModel::Union => {
                proof {
                    lemma_union_imports_empty(map@);
                }
            },
        }
    }
}

impl ParseFieldAttr for TraitModel {
    /// A service declares its imports at trait level, none through fields.
    open spec fn declared_imports(&self) -> Map<Seq<char>, Set<Seq<char>>> {
        Map::empty()
    }

    fn extract_field_imports(&self, map: &mut ImportMap) {
        proof {
            lemma_union_imports_empty(map@);
        }
    }
}

impl ParseFieldAttr for () {
    /// Nothing has no fields.
    open spec fn declared_imports(&self) -> Map<Seq<char>, Set<Seq<char>>> {
        Map::empty()
    }

    fn extract_field_imports(&self, map: &mut ImportMap) {
        proof {
            lemma_union_imports_empty(map@);
        }
    }
}

} // verus!
