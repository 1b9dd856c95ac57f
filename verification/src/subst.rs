//! Replacing generic type parameters by the concrete types of an instantiation.

use vstd::prelude::*;

use crate::generics::{GenericTypeEntry, Substitution};
use crate::field::{FieldConfig, ProtoRename, TypeText};
use crate::model::{FieldModel, FieldsModel, TagLiteral, VariantModel};
use crate::text::str_eq;
use crate::types::{GenericArg, PathSegment, RustType, TypePath, bare_ident, bare_ident_spec};

verus! {

broadcast use vstd::std_specs::vec::group_vec_axioms;

/// Two types are written the same way.
pub open spec fn type_eq(a: RustType, b: RustType) -> bool
    decreases a,
{
    match a {
        RustType::Path(p) => match b {
            RustType::Path(q) => {
                &&& p.qself == q.qself
                &&& p.segments@.len() == q.segments@.len()
                &&& forall|i: int|
                    0 <= i < p.segments@.len() ==> seg_eq(#[trigger] p.segments@[i], q.segments@[i])
            },
            _ => false,
        },
        RustType::Reference(x) => match b {
            RustType::Reference(y) => type_eq(*x, *y),
            _ => false,
        },
        RustType::Paren(x) => match b {
            RustType::Paren(y) => type_eq(*x, *y),
            _ => false,
        },
        RustType::Array(x) => match b {
            RustType::Array(y) => type_eq(*x, *y),
            _ => false,
        },
        RustType::Slice(x) => match b {
            RustType::Slice(y) => type_eq(*x, *y),
            _ => false,
        },
        RustType::Tuple(xs) => match b {
            RustType::Tuple(ys) => {
                &&& xs@.len() == ys@.len()
                &&& forall|i: int| 0 <= i < xs@.len() ==> type_eq(#[trigger] xs@[i], ys@[i])
            },
            _ => false,
        },
        RustType::Ptr(x) => match b {
            RustType::Ptr(y) => type_eq(*x, *y),
            _ => false,
        },
        RustType::BareFn(xs) => match b {
            RustType::BareFn(ys) => {
                &&& xs@.len() == ys@.len()
                &&& forall|i: int| 0 <= i < xs@.len() ==> type_eq(#[trigger] xs@[i], ys@[i])
            },
            _ => false,
        },
        RustType::TraitObject(ss) => match b {
            RustType::TraitObject(ts) => {
                &&& ss@.len() == ts@.len()
                &&& forall|i: int| 0 <= i < ss@.len() ==> seg_eq(#[trigger] ss@[i], ts@[i])
            },
            _ => false,
        },
        RustType::Other => b is Other,
    }
}

/// Two path segments are written the same way.
pub open spec fn seg_eq(a: PathSegment, b: PathSegment) -> bool
    decreases a,
{
    &&& a.ident@ == b.ident@
    &&& a.args@.len() == b.args@.len()
    &&& forall|i: int| 0 <= i < a.args@.len() ==> arg_eq(#[trigger] a.args@[i], b.args@[i])
}

/// Two generic arguments are written the same way.
pub open spec fn arg_eq(a: GenericArg, b: GenericArg) -> bool
    decreases a,
{
    match a {
        GenericArg::Type(x) => match b {
            GenericArg::Type(y) => type_eq(x, y),
            _ => false,
        },
        GenericArg::Binding(x) => match b {
            GenericArg::Binding(y) => type_eq(x, y),
            _ => false,
        },
        GenericArg::Constraint(ss) => match b {
            GenericArg::Constraint(ts) => {
                &&& ss@.len() == ts@.len()
                &&& forall|i: int| 0 <= i < ss@.len() ==> seg_eq(#[trigger] ss@[i], ts@[i])
            },
            _ => false,
        },
        GenericArg::Paren(x) => match b {
            GenericArg::Paren(y) => type_eq(x, y),
            _ => false,
        },
        GenericArg::Other => b is Other,
    }
}

/// A copy of a type.
pub fn copy_type(t: &RustType) -> (r: RustType)
    ensures
        type_eq(*t, r),
    decreases t,
{
    match t {
        RustType::Path(p) => {
            proof {
                assert(decreases_to!(*t => (*t)->Path_0));
                assert(decreases_to!(*p => p.segments));
            }
            RustType::Path(TypePath { qself: p.qself, segments: copy_segments(&p.segments) })
        },
        RustType::Reference(e) => RustType::Reference(Box::new(copy_type(e))),
        RustType::Paren(e) => RustType::Paren(Box::new(copy_type(e))),
        RustType::Array(e) => RustType::Array(Box::new(copy_type(e))),
        RustType::Slice(e) => RustType::Slice(Box::new(copy_type(e))),
        RustType::Tuple(xs) => {
            proof {
                assert(decreases_to!(*t => (*t)->Tuple_0));
            }
            RustType::Tuple(copy_types(xs))
        },
        RustType::Ptr(e) => RustType::Ptr(Box::new(copy_type(e))),
        RustType::BareFn(xs) => {
            proof {
                assert(decreases_to!(*t => (*t)->BareFn_0));
            }
            RustType::BareFn(copy_types(xs))
        },
        RustType::TraitObject(ss) => {
            proof {
                assert(decreases_to!(*t => (*t)->TraitObject_0));
            }
            RustType::TraitObject(copy_segments(ss))
        },
        RustType::Other => RustType::Other,
    }
}

fn copy_types(xs: &Vec<RustType>) -> (r: Vec<RustType>)
    ensures
        xs@.len() == r@.len(),
        forall|j: int| 0 <= j < xs@.len() ==> type_eq(#[trigger] xs@[j], r@[j]),
    decreases xs,
{
    let mut ys: Vec<RustType> = Vec::new();
    let n = xs.len();
    let mut i: usize = 0;
    while i < n
        invariant
            n == xs@.len(),
            i <= n,
            ys@.len() == i,
            forall|j: int| 0 <= j < i ==> type_eq(#[trigger] xs@[j], ys@[j]),
        decreases n - i,
    {
        proof {
            assert(decreases_to!(*xs => xs[i as int]));
        }
        let y = copy_type(&xs[i]);
        ys.push(y);
        i = i + 1;
    }
    ys
}

fn copy_segments(ss: &Vec<PathSegment>) -> (r: Vec<PathSegment>)
    ensures
        ss@.len() == r@.len(),
        forall|j: int| 0 <= j < ss@.len() ==> seg_eq(#[trigger] ss@[j], r@[j]),
    decreases ss,
{
    let mut ts: Vec<PathSegment> = Vec::new();
    let n = ss.len();
    let mut i: usize = 0;
    while i < n
        invariant
            n == ss@.len(),
            i <= n,
            ts@.len() == i,
            forall|j: int| 0 <= j < i ==> seg_eq(#[trigger] ss@[j], ts@[j]),
        decreases n - i,
    {
        proof {
            assert(decreases_to!(*ss => ss[i as int]));
        }
        let x = copy_segment(&ss[i]);
        ts.push(x);
        i = i + 1;
    }
    ts
}

fn copy_segment(s: &PathSegment) -> (r: PathSegment)
    ensures
        seg_eq(*s, r),
    decreases s,
{
    let mut args: Vec<GenericArg> = Vec::new();
    let n = s.args.len();
    let mut i: usize = 0;
    while i < n
        invariant
            n == s.args@.len(),
            i <= n,
            args@.len() == i,
            forall|j: int| 0 <= j < i ==> arg_eq(#[trigger] s.args@[j], args@[j]),
        decreases n - i,
    {
        proof {
            assert(decreases_to!(*s => s.args));
            assert(decreases_to!(s.args => s.args[i as int]));
        }
        let a = copy_arg(&s.args[i]);
        args.push(a);
        i = i + 1;
    }
    PathSegment { ident: s.ident.clone(), args }
}

fn copy_arg(a: &GenericArg) -> (r: GenericArg)
    ensures
        arg_eq(*a, r),
    decreases a,
{
    match a {
        GenericArg::Type(x) => GenericArg::Type(copy_type(x)),
        GenericArg::Binding(x) => GenericArg::Binding(copy_type(x)),
        GenericArg::Constraint(ss) => {
            proof {
                assert(decreases_to!(*a => (*a)->Constraint_0));
            }
            GenericArg::Constraint(copy_segments(ss))
        },
        GenericArg::Paren(x) => GenericArg::Paren(copy_type(x)),
        GenericArg::Other => GenericArg::Other,
    }
}

/// The substitution that applies to a type parameter: the last one that names it.
pub open spec fn sub_index(subs: Seq<Substitution>, param: Seq<char>) -> Option<int>
    decreases subs.len(),
{
    if subs.len() == 0 {
        None
    } else if subs.last().param@ == param {
        Some(subs.len() - 1)
    } else {
        sub_index(subs.drop_last(), param)
    }
}

proof fn lemma_sub_index_range(subs: Seq<Substitution>, param: Seq<char>)
    ensures
        sub_index(subs, param) matches Some(k) ==> 0 <= k < subs.len() && subs[k].param@ == param,
    decreases subs.len(),
{
    if subs.len() > 0 {
        lemma_sub_index_range(subs.drop_last(), param);
    }
}

/// Every substitution names a type of the entries.
pub open spec fn subs_valid(entries: Seq<GenericTypeEntry>, subs: Seq<Substitution>) -> bool {
    forall|k: int|
        0 <= k < subs.len() ==> {
            &&& (#[trigger] subs[k]).entry < entries.len()
            &&& subs[k].choice < entries[subs[k].entry as int].types@.len()
        }
}

/// The type a substitution stands for.
pub open spec fn sub_target(entries: Seq<GenericTypeEntry>, s: Substitution) -> RustType {
    entries[s.entry as int].types@[s.choice as int]
}

/// `r` is `t` with its type parameters replaced: a bare identifier that a substitution names
/// becomes that substitution's type; otherwise the replacement reaches the generic arguments of a
/// path's last segment, the element of a reference, parenthesis or array, and the elements of a
/// tuple, and leaves everything else as written.
pub open spec fn is_subst(
    entries: Seq<GenericTypeEntry>,
    subs: Seq<Substitution>,
    t: RustType,
    r: RustType,
) -> bool
    decreases t,
{
    if bare_ident_spec(t) is Some && sub_index(subs, bare_ident_spec(t)->Some_0) is Some {
        type_eq(sub_target(entries, subs[sub_index(subs, bare_ident_spec(t)->Some_0)->Some_0]), r)
    } else {
        match t {
            RustType::Path(p) => match r {
                RustType::Path(q) => {
                    let n = p.segments@.len();
                    &&& p.qself == q.qself
                    &&& q.segments@.len() == n
                    &&& forall|i: int|
                        0 <= i < n - 1 ==> seg_eq(#[trigger] p.segments@[i], q.segments@[i])
                    &&& n > 0 ==> seg_subst(entries, subs, p.segments@[n - 1], q.segments@[n - 1])
                },
                _ => false,
            },
            RustType::Reference(x) => match r {
                RustType::Reference(y) => is_subst(entries, subs, *x, *y),
                _ => false,
            },
            RustType::Paren(x) => match r {
                RustType::Paren(y) => is_subst(entries, subs, *x, *y),
                _ => false,
            },
            RustType::Array(x) => match r {
                RustType::Array(y) => is_subst(entries, subs, *x, *y),
                _ => false,
            },
            RustType::Slice(_) => type_eq(t, r),
            RustType::Ptr(_) => type_eq(t, r),
            RustType::BareFn(_) => type_eq(t, r),
            RustType::TraitObject(_) => type_eq(t, r),
            RustType::Tuple(xs) => match r {
                RustType::Tuple(ys) => {
                    &&& xs@.len() == ys@.len()
                    &&& forall|i: int|
                        0 <= i < xs@.len() ==> is_subst(entries, subs, #[trigger] xs@[i], ys@[i])
                },
                _ => false,
            },
            RustType::Other => r is Other,
        }
    }
}

/// `b` is the segment `a` with its generic type arguments substituted.
pub open spec fn seg_subst(
    entries: Seq<GenericTypeEntry>,
    subs: Seq<Substitution>,
    a: PathSegment,
    b: PathSegment,
) -> bool
    decreases a,
{
    &&& a.ident@ == b.ident@
    &&& a.args@.len() == b.args@.len()
    &&& forall|i: int|
        0 <= i < a.args@.len() ==> arg_subst(entries, subs, #[trigger] a.args@[i], b.args@[i])
}

/// `b` is the generic argument `a` with its type substituted.
pub open spec fn arg_subst(
    entries: Seq<GenericTypeEntry>,
    subs: Seq<Substitution>,
    a: GenericArg,
    b: GenericArg,
) -> bool
    decreases a,
{
    match a {
        GenericArg::Type(x) => match b {
            GenericArg::Type(y) => is_subst(entries, subs, x, y),
            _ => false,
        },
        _ => arg_eq(a, b),
    }
}

fn find_substitution(subs: &Vec<Substitution>, param: &str) -> (r: Option<usize>)
    ensures
        match r {
            Some(k) => sub_index(subs@, param@) == Some(k as int),
            None => sub_index(subs@, param@) is None,
        },
{
    let mut i = subs.len();
    assert(subs@.take(i as int) =~= subs@);
    while i > 0
        invariant
            i <= subs@.len(),
            sub_index(subs@, param@) == sub_index(subs@.take(i as int), param@),
        decreases i,
    {
        let ghost q = subs@.take(i as int);
        assert(q.drop_last() =~= subs@.take(i - 1));
        assert(q.last() == subs@[i - 1]);
        if str_eq(subs[i - 1].param.as_str(), param) {
            return Some(i - 1);
        }
        i = i - 1;
    }
    None
}

/// Replaces the type parameters that `subs` names in a type (see `is_subst`).
pub fn apply_generic_substitutions_type(
    t: &RustType,
    entries: &Vec<GenericTypeEntry>,
    subs: &Vec<Substitution>,
) -> (r: RustType)
    requires
        subs_valid(entries@, subs@),
    ensures
        is_subst(entries@, subs@, *t, r),
    decreases t,
{
    if let Some(id) = bare_ident(t) {
        if let Some(k) = find_substitution(subs, id.as_str()) {
            proof {
                lemma_sub_index_range(subs@, id@);
            }
            let s = &subs[k];
            return copy_type(&entries[s.entry].types[s.choice]);
        }
    }
    match t {
        RustType::Path(p) => {
            let mut segs: Vec<PathSegment> = Vec::new();
            let n = p.segments.len();
            let mut i: usize = 0;
            while i < n
                invariant
                    *t == RustType::Path(*p),
                    subs_valid(entries@, subs@),
                    n == p.segments@.len(),
                    i <= n,
                    segs@.len() == i,
                    forall|j: int|
                        0 <= j < i && j < n - 1 ==> seg_eq(#[trigger] p.segments@[j], segs@[j]),
                    i == n && n > 0 ==> seg_subst(
                        entries@,
                        subs@,
                        p.segments@[n - 1],
                        segs@[n - 1],
                    ),
                decreases n - i,
            {
                proof {
                    assert(decreases_to!(*t => (*t)->Path_0));
                    assert(decreases_to!(*p => p.segments));
                    assert(decreases_to!(p.segments => p.segments[i as int]));
                }
                if i + 1 == n {
                    let s = subst_segment(&p.segments[i], entries, subs);
                    segs.push(s);
                } else {
                    let s = copy_segment(&p.segments[i]);
                    segs.push(s);
                }
                i = i + 1;
            }
            RustType::Path(TypePath { qself: p.qself, segments: segs })
        },
        RustType::Reference(e) => RustType::Reference(
            Box::new(apply_generic_substitutions_type(e, entries, subs)),
        ),
        RustType::Paren(e) => RustType::Paren(
            Box::new(apply_generic_substitutions_type(e, entries, subs)),
        ),
        RustType::Array(e) => RustType::Array(
            Box::new(apply_generic_substitutions_type(e, entries, subs)),
        ),
        RustType::Slice(_) => copy_type(t),
        RustType::Ptr(_) => copy_type(t),
        RustType::BareFn(_) => copy_type(t),
        RustType::TraitObject(_) => copy_type(t),
        RustType::Tuple(xs) => {
            let mut ys: Vec<RustType> = Vec::new();
            let n = xs.len();
            let mut i: usize = 0;
            while i < n
                invariant
                    *t == RustType::Tuple(*xs),
                    subs_valid(entries@, subs@),
                    n == xs@.len(),
                    i <= n,
                    ys@.len() == i,
                    forall|j: int|
                        0 <= j < i ==> is_subst(entries@, subs@, #[trigger] xs@[j], ys@[j]),
                decreases n - i,
            {
                proof {
                    assert(decreases_to!(*t => (*t)->Tuple_0));
                    assert(decreases_to!(*xs => xs[i as int]));
                }
                let y = apply_generic_substitutions_type(&xs[i], entries, subs);
                ys.push(y);
                i = i + 1;
            }
            RustType::Tuple(ys)
        },
        RustType::Other => RustType::Other,
    }
}

fn subst_segment(s: &PathSegment, entries: &Vec<GenericTypeEntry>, subs: &Vec<Substitution>) -> (r:
    PathSegment)
    requires
        subs_valid(entries@, subs@),
    ensures
        seg_subst(entries@, subs@, *s, r),
    decreases s,
{
    let mut args: Vec<GenericArg> = Vec::new();
    let n = s.args.len();
    let mut i: usize = 0;
    while i < n
        invariant
            subs_valid(entries@, subs@),
            n == s.args@.len(),
            i <= n,
            args@.len() == i,
            forall|j: int| 0 <= j < i ==> arg_subst(entries@, subs@, #[trigger] s.args@[j], args@[j]),
        decreases n - i,
    {
        proof {
            assert(decreases_to!(*s => s.args));
            assert(decreases_to!(s.args => s.args[i as int]));
        }
        let a = match &s.args[i] {
            GenericArg::Type(x) => {
                proof {
                    assert(decreases_to!(s.args[i as int] => s.args[i as int]->Type_0));
                }
                GenericArg::Type(apply_generic_substitutions_type(x, entries, subs))
            },
            _ => copy_arg(&s.args[i]),
        };
        args.push(a);
        i = i + 1;
    }
    PathSegment { ident: s.ident.clone(), args }
}

/// Every type is written the same way as itself.
pub proof fn lemma_type_eq_reflexive(t: RustType)
    ensures
        type_eq(t, t),
    decreases t,
{
    match t {
        RustType::Path(p) => {
            assert forall|i: int| 0 <= i < p.segments@.len() implies seg_eq(
                #[trigger] p.segments@[i],
                p.segments@[i],
            ) by {
                assert(decreases_to!(t => p.segments@[i]));
                lemma_seg_eq_reflexive(p.segments@[i]);
            }
        },
        RustType::Reference(x) => lemma_type_eq_reflexive(*x),
        RustType::Paren(x) => lemma_type_eq_reflexive(*x),
        RustType::Array(x) => lemma_type_eq_reflexive(*x),
        RustType::Slice(x) => lemma_type_eq_reflexive(*x),
        RustType::Ptr(x) => lemma_type_eq_reflexive(*x),
        RustType::Tuple(xs) => {
            assert forall|i: int| 0 <= i < xs@.len() implies type_eq(#[trigger] xs@[i], xs@[i]) by {
                assert(decreases_to!(t => xs@[i]));
                lemma_type_eq_reflexive(xs@[i]);
            }
        },
        RustType::BareFn(xs) => {
            assert forall|i: int| 0 <= i < xs@.len() implies type_eq(#[trigger] xs@[i], xs@[i]) by {
                assert(decreases_to!(t => xs@[i]));
                lemma_type_eq_reflexive(xs@[i]);
            }
        },
        RustType::TraitObject(ss) => {
            assert forall|i: int| 0 <= i < ss@.len() implies seg_eq(#[trigger] ss@[i], ss@[i]) by {
                assert(decreases_to!(t => ss@[i]));
                lemma_seg_eq_reflexive(ss@[i]);
            }
        },
        RustType::Other => {},
    }
}

pub proof fn lemma_seg_eq_reflexive(s: PathSegment)
    ensures
        seg_eq(s, s),
    decreases s,
{
    assert forall|i: int| 0 <= i < s.args@.len() implies arg_eq(#[trigger] s.args@[i], s.args@[i]) by {
        assert(decreases_to!(s => s.args@[i]));
        lemma_arg_eq_reflexive(s.args@[i]);
    }
}

pub proof fn lemma_arg_eq_reflexive(a: GenericArg)
    ensures
        arg_eq(a, a),
    decreases a,
{
    match a {
        GenericArg::Type(x) => lemma_type_eq_reflexive(x),
        GenericArg::Binding(x) => lemma_type_eq_reflexive(x),
        GenericArg::Paren(x) => lemma_type_eq_reflexive(x),
        GenericArg::Constraint(ss) => {
            assert forall|i: int| 0 <= i < ss@.len() implies seg_eq(#[trigger] ss@[i], ss@[i]) by {
                assert(decreases_to!(a => ss@[i]));
                lemma_seg_eq_reflexive(ss@[i]);
            }
        },
        GenericArg::Other => {},
    }
}

/// With no substitutions, a substituted type is written as the type itself.
pub proof fn lemma_subst_without_substitutions(
    entries: Seq<GenericTypeEntry>,
    t: RustType,
    r: RustType,
)
    requires
        is_subst(entries, Seq::empty(), t, r),
    ensures
        type_eq(t, r),
    decreases t,
{
    let subs = Seq::<Substitution>::empty();
    match t {
        RustType::Path(p) => {
            match r {
                RustType::Path(q) => {
                    let n = p.segments@.len();
                    assert forall|i: int| 0 <= i < n implies seg_eq(
                        #[trigger] p.segments@[i],
                        q.segments@[i],
                    ) by {
                        if i == n - 1 {
                            assert(decreases_to!(t => p.segments@[i]));
                            lemma_seg_subst_without_substitutions(entries, p.segments@[i], q.segments@[i]);
                        }
                    }
                },
                _ => {},
            }
        },
        RustType::Reference(x) => match r {
            RustType::Reference(y) => lemma_subst_without_substitutions(entries, *x, *y),
            _ => {},
        },
        RustType::Paren(x) => match r {
            RustType::Paren(y) => lemma_subst_without_substitutions(entries, *x, *y),
            _ => {},
        },
        RustType::Array(x) => match r {
            RustType::Array(y) => lemma_subst_without_substitutions(entries, *x, *y),
            _ => {},
        },
        RustType::Tuple(xs) => match r {
            RustType::Tuple(ys) => {
                assert forall|i: int| 0 <= i < xs@.len() implies type_eq(#[trigger] xs@[i], ys@[i]) by {
                    assert(decreases_to!(t => xs@[i]));
                    lemma_subst_without_substitutions(entries, xs@[i], ys@[i]);
                }
            },
            _ => {},
        },
        _ => {},
    }
}

proof fn lemma_seg_subst_without_substitutions(
    entries: Seq<GenericTypeEntry>,
    a: PathSegment,
    b: PathSegment,
)
    requires
        seg_subst(entries, Seq::empty(), a, b),
    ensures
        seg_eq(a, b),
    decreases a,
{
    assert forall|i: int| 0 <= i < a.args@.len() implies arg_eq(#[trigger] a.args@[i], b.args@[i]) by {
        match a.args@[i] {
            GenericArg::Type(x) => match b.args@[i] {
                GenericArg::Type(y) => {
                    assert(decreases_to!(a => a.args@[i]));
                    lemma_subst_without_substitutions(entries, x, y);
                },
                _ => {},
            },
            _ => {},
        }
    }
}

/// Optional types written the same way.
pub open spec fn opt_type_eq(a: Option<RustType>, b: Option<RustType>) -> bool {
    match a {
        Some(x) => b matches Some(y) && type_eq(x, y),
        None => b is None,
    }
}

/// Optional type texts with the same text and the same reading.
pub open spec fn type_text_copy(a: Option<TypeText>, b: Option<TypeText>) -> bool {
    match a {
        Some(x) => b matches Some(y) && x.text@ == y.text@ && opt_type_eq(x.parsed, y.parsed),
        None => b is None,
    }
}

/// `b` holds the same options as `a`, its types written the same way.
pub open spec fn config_copy(a: FieldConfig, b: FieldConfig) -> bool {
    &&& a.skip == b.skip
    &&& a.skip_deser_fn == b.skip_deser_fn
    &&& a.custom_tag == b.custom_tag
    &&& type_text_copy(a.into_type, b.into_type)
    &&& type_text_copy(a.from_type, b.from_type)
    &&& a.into_fn == b.into_fn
    &&& a.from_fn == b.from_fn
    &&& a.try_from_fn == b.try_from_fn
    &&& opt_type_eq(a.treat_as, b.treat_as)
    &&& a.rename == b.rename
    &&& a.import_path == b.import_path
    &&& a.is_rust_enum == b.is_rust_enum
    &&& a.is_proto_enum == b.is_proto_enum
    &&& a.is_message == b.is_message
    &&& a.getter == b.getter
    &&& a.validator == b.validator
}

fn copy_opt_string(o: &Option<String>) -> (r: Option<String>)
    ensures
        r == *o,
{
    match o {
        Some(s) => Some(s.clone()),
        None => None,
    }
}

fn copy_opt_type(o: &Option<RustType>) -> (r: Option<RustType>)
    ensures
        opt_type_eq(*o, r),
{
    match o {
        Some(t) => Some(copy_type(t)),
        None => None,
    }
}

fn copy_type_text(o: &Option<TypeText>) -> (r: Option<TypeText>)
    ensures
        type_text_copy(*o, r),
{
    match o {
        Some(tt) => Some(TypeText { text: tt.text.clone(), parsed: copy_opt_type(&tt.parsed) }),
        None => None,
    }
}

/// A copy of a field's options.
pub fn copy_field_config(c: &FieldConfig) -> (r: FieldConfig)
    ensures
        config_copy(*c, r),
{
    FieldConfig {
        skip: c.skip,
        skip_deser_fn: copy_opt_string(&c.skip_deser_fn),
        custom_tag: c.custom_tag,
        into_type: copy_type_text(&c.into_type),
        from_type: copy_type_text(&c.from_type),
        into_fn: copy_opt_string(&c.into_fn),
        from_fn: copy_opt_string(&c.from_fn),
        try_from_fn: copy_opt_string(&c.try_from_fn),
        treat_as: copy_opt_type(&c.treat_as),
        rename: match &c.rename {
            Some(r) => Some(
                ProtoRename {
                    proto_type: r.proto_type.clone(),
                    is_optional: r.is_optional,
                    is_repeated: r.is_repeated,
                },
            ),
            None => None,
        },
        import_path: copy_opt_string(&c.import_path),
        is_rust_enum: c.is_rust_enum,
        is_proto_enum: c.is_proto_enum,
        is_message: c.is_message,
        getter: copy_opt_string(&c.getter),
        validator: copy_opt_string(&c.validator),
    }
}

/// `b` is the field list `a` with every field's type substituted; names and options kept.
pub open spec fn field_list_subst(
    entries: Seq<GenericTypeEntry>,
    subs: Seq<Substitution>,
    a: Seq<FieldModel>,
    b: Seq<FieldModel>,
) -> bool {
    &&& a.len() == b.len()
    &&& forall|i: int|
        0 <= i < a.len() ==> {
            &&& (#[trigger] b[i]).name == a[i].name
            &&& config_copy(a[i].config, b[i].config)
            &&& is_subst(entries, subs, a[i].ty, b[i].ty)
        }
}

/// `r` is `f` with the type of every field substituted.
pub open spec fn fields_subst(
    entries: Seq<GenericTypeEntry>,
    subs: Seq<Substitution>,
    f: FieldsModel,
    r: FieldsModel,
) -> bool {
    match f {
        FieldsModel::Named(a) => match r {
            FieldsModel::Named(b) => field_list_subst(entries, subs, a@, b@),
            _ => false,
        },
        FieldsModel::Unnamed(a) => match r {
            FieldsModel::Unnamed(b) => field_list_subst(entries, subs, a@, b@),
            _ => false,
        },
        FieldsModel::Unit => r is Unit,
    }
}

fn subst_field_list(
    fields: &Vec<FieldModel>,
    entries: &Vec<GenericTypeEntry>,
    subs: &Vec<Substitution>,
) -> (r: Vec<FieldModel>)
    requires
        subs_valid(entries@, subs@),
    ensures
        field_list_subst(entries@, subs@, fields@, r@),
{
    let n = fields.len();
    let mut out: Vec<FieldModel> = Vec::new();
    let mut i: usize = 0;
    while i < n
        invariant
            subs_valid(entries@, subs@),
            n == fields@.len(),
            i <= n,
            out@.len() == i,
            forall|k: int|
                0 <= k < i ==> {
                    &&& (#[trigger] out@[k]).name == fields@[k].name
                    &&& config_copy(fields@[k].config, out@[k].config)
                    &&& is_subst(entries@, subs@, fields@[k].ty, out@[k].ty)
                },
        decreases n - i,
    {
        let f = &fields[i];
        let ty = apply_generic_substitutions_type(&f.ty, entries, subs);
        out.push(FieldModel { name: f.name.clone(), ty, config: copy_field_config(&f.config) });
        i = i + 1;
    }
    out
}

/// The fields of a struct or variant with their type parameters replaced (see `is_subst`).
pub fn apply_generic_substitutions_fields(
    fields: &FieldsModel,
    entries: &Vec<GenericTypeEntry>,
    subs: &Vec<Substitution>,
) -> (r: FieldsModel)
    requires
        subs_valid(entries@, subs@),
    ensures
        fields_subst(entries@, subs@, *fields, r),
{
    match fields {
        FieldsModel::Named(v) => FieldsModel::Named(subst_field_list(v, entries, subs)),
        FieldsModel::Unnamed(v) => FieldsModel::Unnamed(subst_field_list(v, entries, subs)),
        FieldsModel::Unit => FieldsModel::Unit,
    }
}

fn copy_tag_attrs(v: &Vec<TagLiteral>) -> (r: Vec<TagLiteral>)
    ensures
        r@ == v@,
{
    let mut out: Vec<TagLiteral> = Vec::new();
    let n = v.len();
    let mut i: usize = 0;
    while i < n
        invariant
            n == v@.len(),
            i <= n,
            out@ == v@.take(i as int),
        decreases n - i,
    {
        let t = match &v[i] {
            TagLiteral::Int(x) => TagLiteral::Int(*x),
            TagLiteral::Str(s) => TagLiteral::Str(s.clone()),
            TagLiteral::Other => TagLiteral::Other,
        };
        out.push(t);
        assert(out@ =~= v@.take(i + 1));
        i = i + 1;
    }
    assert(v@.take(n as int) =~= v@);
    out
}

/// `b` is the variant `a` with the types of its fields substituted; everything else is kept.
pub open spec fn variant_subst(
    entries: Seq<GenericTypeEntry>,
    subs: Seq<Substitution>,
    a: VariantModel,
    b: VariantModel,
) -> bool {
    &&& b.ident == a.ident
    &&& b.discriminant == a.discriminant
    &&& b.is_default == a.is_default
    &&& b.tag_attrs@ == a.tag_attrs@
    &&& fields_subst(entries, subs, a.fields, b.fields)
}

/// The variants of an enum with the types of their fields substituted (see `variant_subst`).
pub fn apply_generic_substitutions_enum(
    variants: &Vec<VariantModel>,
    entries: &Vec<GenericTypeEntry>,
    subs: &Vec<Substitution>,
) -> (r: Vec<VariantModel>)
    requires
        subs_valid(entries@, subs@),
    ensures
        r@.len() == variants@.len(),
        forall|i: int|
            0 <= i < r@.len() ==> variant_subst(entries@, subs@, variants@[i], #[trigger] r@[i]),
{
    let n = variants.len();
    let mut out: Vec<VariantModel> = Vec::new();
    let mut i: usize = 0;
    while i < n
        invariant
            subs_valid(entries@, subs@),
            n == variants@.len(),
            i <= n,
            out@.len() == i,
            forall|k: int|
                0 <= k < i ==> variant_subst(entries@, subs@, variants@[k], #[trigger] out@[k]),
        decreases n - i,
    {
        let v = &variants[i];
        let fields = apply_generic_substitutions_fields(&v.fields, entries, subs);
        out.push(
            VariantModel {
                ident: v.ident.clone(),
                fields,
                discriminant: v.discriminant,
                is_default: v.is_default,
                tag_attrs: copy_tag_attrs(&v.tag_attrs),
            },
        );
        i = i + 1;
    }
    out
}

} // verus!
