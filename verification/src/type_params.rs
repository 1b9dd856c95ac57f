//! The type parameters that a type mentions.

use vstd::prelude::*;

use crate::string_set::StringSet;
use crate::text::{str_eq, views};
use crate::types::{GenericArg, PathSegment, RustType};

verus! {

broadcast use vstd::std_specs::vec::group_vec_axioms;

// ---------------------------------------------------------------------------------------------
// Identifiers given as generic arguments (for `impl_proto_ident!`).
// ---------------------------------------------------------------------------------------------

/// The identifiers given as generic arguments anywhere in a type's paths, in order: an argument
/// that is a single identifier without arguments is taken; any other path argument is searched
/// in turn. References and parentheses are looked through; other types give nothing.
pub open spec fn angle_params_type(t: RustType) -> Seq<Seq<char>>
    decreases t,
{
    match t {
        RustType::Path(p) => angle_params_segs(p.segments@),
        RustType::Reference(e) => angle_params_type(*e),
        RustType::Paren(e) => angle_params_type(*e),
        _ => Seq::empty(),
    }
}

pub open spec fn angle_params_segs(segs: Seq<PathSegment>) -> Seq<Seq<char>>
    decreases segs,
{
    if segs.len() == 0 {
        Seq::empty()
    } else {
        angle_params_segs(segs.drop_last()) + angle_params_args(segs.last().args@)
    }
}

pub open spec fn angle_params_args(args: Seq<GenericArg>) -> Seq<Seq<char>>
    decreases args,
{
    if args.len() == 0 {
        Seq::empty()
    } else {
        angle_params_args(args.drop_last()) + angle_params_arg(args.last())
    }
}

pub open spec fn angle_params_arg(a: GenericArg) -> Seq<Seq<char>>
    decreases a,
{
    match a {
        GenericArg::Type(t) => angle_params_arg_type(t),
        _ => Seq::empty(),
    }
}

pub open spec fn angle_params_arg_type(t: RustType) -> Seq<Seq<char>>
    decreases t,
{
    match t {
        RustType::Path(p) => if p.segments@.len() == 1 && p.segments@[0].args@.len() == 0 {
            seq![p.segments@[0].ident@]
        } else {
            angle_params_segs(p.segments@)
        },
        _ => Seq::empty(),
    }
}

fn push_angle_params_segs(segs: &Vec<PathSegment>, out: &mut Vec<String>)
    ensures
        views(final(out)@) == views(old(out)@) + angle_params_segs(segs@),
    decreases segs@,
{
    let ghost start = views(out@);
    let n = segs.len();
    let mut i: usize = 0;
    assert(segs@.subrange(0, 0) =~= Seq::<PathSegment>::empty());
    assert(start + angle_params_segs(segs@.subrange(0, 0)) =~= start);
    while i < n
        invariant
            n == segs@.len(),
            i <= n,
            views(out@) == start + angle_params_segs(segs@.subrange(0, i as int)),
        decreases n - i,
    {
        let ghost q = segs@.subrange(0, i + 1);
        assert(q.drop_last() =~= segs@.subrange(0, i as int));
        assert(q.last() == segs@[i as int]);
        proof {
            assert(decreases_to!(segs@ => segs@[i as int]));
            assert(decreases_to!(segs@[i as int] => segs@[i as int].args));
            assert(decreases_to!(segs@[i as int].args => segs@[i as int].args@));
        }
        push_angle_params_args(&segs[i].args, out);
        assert(views(out@) =~= start + angle_params_segs(q));
        i = i + 1;
    }
    assert(segs@.subrange(0, n as int) =~= segs@);
}

fn push_angle_params_args(args: &Vec<GenericArg>, out: &mut Vec<String>)
    ensures
        views(final(out)@) == views(old(out)@) + angle_params_args(args@),
    decreases args@,
{
    let ghost start = views(out@);
    let n = args.len();
    let mut i: usize = 0;
    assert(args@.subrange(0, 0) =~= Seq::<GenericArg>::empty());
    assert(start + angle_params_args(args@.subrange(0, 0)) =~= start);
    while i < n
        invariant
            n == args@.len(),
            i <= n,
            views(out@) == start + angle_params_args(args@.subrange(0, i as int)),
        decreases n - i,
    {
        let ghost q = args@.subrange(0, i + 1);
        assert(q.drop_last() =~= args@.subrange(0, i as int));
        assert(q.last() == args@[i as int]);
        let ghost before = views(out@);
        match &args[i] {
            GenericArg::Type(t) => {
                proof {
                    assert(decreases_to!(args@ => args@[i as int]));
                    assert(decreases_to!(args@[i as int] => args@[i as int]->Type_0));
                }
                match t {
                    RustType::Path(p) => {
                        if p.segments.len() == 1 && p.segments[0].args.len() == 0 {
                            out.push(p.segments[0].ident.clone());
                            assert(views(out@) =~= before + seq![p.segments@[0].ident@]);
                        } else {
                            proof {
                                assert(decreases_to!(*t => (*t)->Path_0));
                                assert(decreases_to!(*p => p.segments));
                                assert(decreases_to!(p.segments => p.segments@));
                            }
                            push_angle_params_segs(&p.segments, out);
                        }
                    },
                    _ => {
                        assert(views(out@) =~= before + Seq::<Seq<char>>::empty());
                    },
                }
            },
            _ => {
                assert(views(out@) =~= before + Seq::<Seq<char>>::empty());
            },
        }
        assert(views(out@) == before + angle_params_arg(args@[i as int]));
        assert(angle_params_args(q) == angle_params_args(args@.subrange(0, i as int)) + angle_params_arg(args@[i as int]));
        assert(views(out@) =~= start + angle_params_args(q));
        i = i + 1;
    }
    assert(args@.subrange(0, n as int) =~= args@);
}

fn push_angle_params_type(t: &RustType, out: &mut Vec<String>)
    ensures
        views(final(out)@) == views(old(out)@) + angle_params_type(*t),
    decreases t,
{
    match t {
        RustType::Path(p) => {
            proof {
                assert(decreases_to!(*t => (*t)->Path_0));
                assert(decreases_to!(*p => p.segments));
                assert(decreases_to!(p.segments => p.segments@));
            }
            push_angle_params_segs(&p.segments, out);
        },
        RustType::Reference(e) => push_angle_params_type(e, out),
        RustType::Paren(e) => push_angle_params_type(e, out),
        _ => {
            assert(views(out@) =~= views(out@) + Seq::<Seq<char>>::empty());
        },
    }
}

/// The elements of a sequence without repetition, each at its first occurrence.
pub open spec fn dedup_spec(s: Seq<Seq<char>>) -> Seq<Seq<char>>
    decreases s.len(),
{
    if s.len() == 0 {
        Seq::empty()
    } else {
        let prev = dedup_spec(s.drop_last());
        if prev.contains(s.last()) {
            prev
        } else {
            prev.push(s.last())
        }
    }
}

/// Deduplication keeps exactly the elements, each once.
pub proof fn lemma_dedup(s: Seq<Seq<char>>)
    ensures
        dedup_spec(s).no_duplicates(),
        forall|x: Seq<char>| #[trigger] dedup_spec(s).contains(x) <==> s.contains(x),
    decreases s.len(),
{
    if s.len() > 0 {
        let p = s.drop_last();
        lemma_dedup(p);
        let prev = dedup_spec(p);
        let last = s.last();
        assert forall|x: Seq<char>| #[trigger] dedup_spec(s).contains(x) <==> s.contains(x) by {
            if s.contains(x) {
                let k = choose|k: int| 0 <= k < s.len() && s[k] == x;
                if k < s.len() - 1 {
                    assert(p[k] == x);
                    assert(p.contains(x));
                    assert(prev.contains(x));
                    let j = choose|j: int| 0 <= j < prev.len() && prev[j] == x;
                    if !prev.contains(last) {
                        assert(prev.push(last)[j] == x);
                    }
                } else {
                    assert(x == last);
                    if !prev.contains(last) {
                        assert(prev.push(last)[prev.len() as int] == x);
                    }
                }
            }
            if dedup_spec(s).contains(x) {
                let j = choose|j: int| 0 <= j < dedup_spec(s).len() && dedup_spec(s)[j] == x;
                if prev.contains(last) || j < prev.len() {
                    assert(prev[j] == x);
                    assert(prev.contains(x));
                    assert(p.contains(x));
                    let k = choose|k: int| 0 <= k < p.len() && p[k] == x;
                    assert(s[k] == x);
                } else {
                    assert(x == last);
                    assert(s[s.len() - 1] == x);
                }
            }
        }
    }
}

/// The generic parameters of an `impl_proto_ident!` type: the identifiers given as generic
/// arguments (see `angle_params_type`), each once, in order of first appearance.
pub fn impl_ident_params(t: &RustType) -> (r: Vec<String>)
    ensures
        views(r@) == dedup_spec(angle_params_type(*t)),
{
    let mut params: Vec<String> = Vec::new();
    push_angle_params_type(t, &mut params);
    assert(views(params@) =~= angle_params_type(*t));
    let mut dedup: Vec<String> = Vec::new();
    let n = params.len();
    let mut i: usize = 0;
    while i < n
        invariant
            n == params@.len(),
            i <= n,
            views(dedup@) == dedup_spec(views(params@).take(i as int)),
        decreases n - i,
    {
        let ghost q = views(params@).take(i + 1);
        assert(q.drop_last() =~= views(params@).take(i as int));
        assert(q.last() == params@[i as int]@);
        if !contains_string(&dedup, params[i].as_str()) {
            dedup.push(params[i].clone());
            assert(views(dedup@) =~= dedup_spec(q));
        }
        i = i + 1;
    }
    assert(views(params@).take(n as int) =~= views(params@));
    dedup
}

fn contains_string(v: &Vec<String>, s: &str) -> (r: bool)
    ensures
        r == views(v@).contains(s@),
{
    let mut i: usize = 0;
    while i < v.len()
        invariant
            i <= v@.len(),
            forall|j: int| 0 <= j < i ==> v@[j]@ != s@,
        decreases v.len() - i,
    {
        if str_eq(v[i].as_str(), s) {
            assert(views(v@)[i as int] == s@);
            return true;
        }
        i = i + 1;
    }
    proof {
        if views(v@).contains(s@) {
            let k = choose|k: int| 0 <= k < views(v@).len() && views(v@)[k] == s@;
            assert(v@[k]@ == s@);
        }
    }
    false
}

// ---------------------------------------------------------------------------------------------
// Type parameters used by a type (for where-clause bounds).
// ---------------------------------------------------------------------------------------------

/// The parameters among `params` that a type mentions: a path that is a single segment naming a
/// parameter, and everything reachable through path arguments, references, arrays, slices,
/// tuples, parentheses, pointers, function pointers and trait bounds.
pub open spec fn used_params_type(t: RustType, params: Set<Seq<char>>) -> Set<Seq<char>>
    decreases t,
{
    match t {
        RustType::Path(p) => (if !p.qself && p.segments@.len() == 1 && params.contains(
            p.segments@[0].ident@,
        ) {
            set![p.segments@[0].ident@]
        } else {
            Set::empty()
        }).union(used_params_segs(p.segments@, params)),
        RustType::Reference(e) => used_params_type(*e, params),
        RustType::Paren(e) => used_params_type(*e, params),
        RustType::Array(e) => used_params_type(*e, params),
        RustType::Slice(e) => used_params_type(*e, params),
        RustType::Ptr(e) => used_params_type(*e, params),
        RustType::Tuple(xs) => used_params_types(xs@, params),
        RustType::BareFn(xs) => used_params_types(xs@, params),
        RustType::TraitObject(ss) => used_params_bounds(ss@, params),
        RustType::Other => Set::empty(),
    }
}

pub open spec fn used_params_types(xs: Seq<RustType>, params: Set<Seq<char>>) -> Set<Seq<char>>
    decreases xs,
{
    if xs.len() == 0 {
        Set::empty()
    } else {
        used_params_types(xs.drop_last(), params).union(used_params_type(xs.last(), params))
    }
}

/// The parameters mentioned by the arguments of path segments.
pub open spec fn used_params_segs(segs: Seq<PathSegment>, params: Set<Seq<char>>) -> Set<
    Seq<char>,
>
    decreases segs,
{
    if segs.len() == 0 {
        Set::empty()
    } else {
        used_params_segs(segs.drop_last(), params).union(
            used_params_args(segs.last().args@, params),
        )
    }
}

pub open spec fn used_params_args(args: Seq<GenericArg>, params: Set<Seq<char>>) -> Set<Seq<char>>
    decreases args,
{
    if args.len() == 0 {
        Set::empty()
    } else {
        used_params_args(args.drop_last(), params).union(used_params_arg(args.last(), params))
    }
}

pub open spec fn used_params_arg(a: GenericArg, params: Set<Seq<char>>) -> Set<Seq<char>>
    decreases a,
{
    match a {
        GenericArg::Type(t) => used_params_type(t, params),
        GenericArg::Binding(t) => used_params_type(t, params),
        GenericArg::Constraint(ss) => used_params_bounds(ss@, params),
        GenericArg::Paren(t) => used_params_type(t, params),
        GenericArg::Other => Set::empty(),
    }
}

/// The parameters mentioned by the type arguments of trait-bound path segments.
pub open spec fn used_params_bounds(segs: Seq<PathSegment>, params: Set<Seq<char>>) -> Set<
    Seq<char>,
>
    decreases segs,
{
    if segs.len() == 0 {
        Set::empty()
    } else {
        used_params_bounds(segs.drop_last(), params).union(
            used_params_bound_args(segs.last().args@, params),
        )
    }
}

pub open spec fn used_params_bound_args(args: Seq<GenericArg>, params: Set<Seq<char>>) -> Set<
    Seq<char>,
>
    decreases args,
{
    if args.len() == 0 {
        Set::empty()
    } else {
        used_params_bound_args(args.drop_last(), params).union(
            match args.last() {
                GenericArg::Type(t) => used_params_type(t, params),
                _ => Set::empty(),
            },
        )
    }
}

/// Adds to `used` the parameters among `params` that a type mentions (see `used_params_type`).
pub fn collect_type_params(t: &RustType, params: &StringSet, used: &mut StringSet)
    requires
        params.wf(),
        old(used).wf(),
    ensures
        final(used).wf(),
        final(used)@ == old(used)@.union(used_params_type(*t, params@)),
    decreases t,
{
    let ghost start = used@;
    match t {
        RustType::Path(p) => {
            if !p.qself && p.segments.len() == 1 && params.contains(p.segments[0].ident.as_str()) {
                used.insert(p.segments[0].ident.clone());
            }
            let ghost mid = used@;
            proof {
                assert(decreases_to!(*t => (*t)->Path_0));
                assert(decreases_to!(*p => p.segments));
            }
            collect_in_segments(&p.segments, params, used);
            proof {
                let own = if !p.qself && p.segments@.len() == 1 && params@.contains(
                    p.segments@[0].ident@,
                ) {
                    set![p.segments@[0].ident@]
                } else {
                    Set::empty()
                };
                assert(mid =~= start.union(own));
                assert(used@ =~= start.union(own.union(used_params_segs(p.segments@, params@))));
            }
        },
        RustType::Reference(e) => collect_type_params(e, params, used),
        RustType::Paren(e) => collect_type_params(e, params, used),
        RustType::Array(e) => collect_type_params(e, params, used),
        RustType::Slice(e) => collect_type_params(e, params, used),
        RustType::Ptr(e) => collect_type_params(e, params, used),
        RustType::Tuple(xs) => {
            proof {
                assert(decreases_to!(*t => (*t)->Tuple_0));
            }
            collect_in_types(xs, params, used);
        },
        RustType::BareFn(xs) => {
            proof {
                assert(decreases_to!(*t => (*t)->BareFn_0));
            }
            collect_in_types(xs, params, used);
        },
        RustType::TraitObject(ss) => {
            proof {
                assert(decreases_to!(*t => (*t)->TraitObject_0));
            }
            collect_in_bounds(ss, params, used);
        },
        RustType::Other => {
            assert(used@ =~= start.union(Set::empty()));
        },
    }
}

fn collect_in_types(xs: &Vec<RustType>, params: &StringSet, used: &mut StringSet)
    requires
        params.wf(),
        old(used).wf(),
    ensures
        final(used).wf(),
        final(used)@ == old(used)@.union(used_params_types(xs@, params@)),
    decreases xs,
{
    let ghost start = used@;
    let n = xs.len();
    let mut i: usize = 0;
    assert(xs@.subrange(0, 0) =~= Seq::<RustType>::empty());
    assert(start =~= start.union(Set::empty()));
    while i < n
        invariant
            n == xs@.len(),
            i <= n,
            params.wf(),
            used.wf(),
            used@ == start.union(used_params_types(xs@.subrange(0, i as int), params@)),
        decreases n - i,
    {
        let ghost q = xs@.subrange(0, i + 1);
        assert(q.drop_last() =~= xs@.subrange(0, i as int));
        assert(q.last() == xs@[i as int]);
        proof {
            assert(decreases_to!(*xs => xs[i as int]));
        }
        collect_type_params(&xs[i], params, used);
        assert(used@ =~= start.union(used_params_types(q, params@)));
        i = i + 1;
    }
    assert(xs@.subrange(0, n as int) =~= xs@);
}

fn collect_in_segments(segs: &Vec<PathSegment>, params: &StringSet, used: &mut StringSet)
    requires
        params.wf(),
        old(used).wf(),
    ensures
        final(used).wf(),
        final(used)@ == old(used)@.union(used_params_segs(segs@, params@)),
    decreases segs,
{
    let ghost start = used@;
    let n = segs.len();
    let mut i: usize = 0;
    assert(segs@.subrange(0, 0) =~= Seq::<PathSegment>::empty());
    assert(start =~= start.union(Set::empty()));
    while i < n
        invariant
            n == segs@.len(),
            i <= n,
            params.wf(),
            used.wf(),
            used@ == start.union(used_params_segs(segs@.subrange(0, i as int), params@)),
        decreases n - i,
    {
        let ghost q = segs@.subrange(0, i + 1);
        assert(q.drop_last() =~= segs@.subrange(0, i as int));
        assert(q.last() == segs@[i as int]);
        proof {
            assert(decreases_to!(*segs => segs[i as int]));
            assert(decreases_to!(segs[i as int] => segs[i as int].args));
        }
        collect_in_args(&segs[i].args, params, used);
        assert(used@ =~= start.union(used_params_segs(q, params@)));
        i = i + 1;
    }
    assert(segs@.subrange(0, n as int) =~= segs@);
}

fn collect_in_args(args: &Vec<GenericArg>, params: &StringSet, used: &mut StringSet)
    requires
        params.wf(),
        old(used).wf(),
    ensures
        final(used).wf(),
        final(used)@ == old(used)@.union(used_params_args(args@, params@)),
    decreases args,
{
    let ghost start = used@;
    let n = args.len();
    let mut i: usize = 0;
    assert(args@.subrange(0, 0) =~= Seq::<GenericArg>::empty());
    assert(start =~= start.union(Set::empty()));
    while i < n
        invariant
            n == args@.len(),
            i <= n,
            params.wf(),
            used.wf(),
            used@ == start.union(used_params_args(args@.subrange(0, i as int), params@)),
        decreases n - i,
    {
        let ghost q = args@.subrange(0, i + 1);
        assert(q.drop_last() =~= args@.subrange(0, i as int));
        assert(q.last() == args@[i as int]);
        let ghost before = used@;
        proof {
            assert(decreases_to!(*args => args[i as int]));
        }
        match &args[i] {
            GenericArg::Type(t) => {
                proof {
                    assert(decreases_to!(args[i as int] => args[i as int]->Type_0));
                }
                collect_type_params(t, params, used);
            },
            GenericArg::Binding(t) => {
                proof {
                    assert(decreases_to!(args[i as int] => args[i as int]->Binding_0));
                }
                collect_type_params(t, params, used);
            },
            GenericArg::Constraint(ss) => {
                proof {
                    assert(decreases_to!(args[i as int] => args[i as int]->Constraint_0));
                }
                collect_in_bounds(ss, params, used);
            },
            GenericArg::Paren(t) => {
                proof {
                    assert(decreases_to!(args[i as int] => args[i as int]->Paren_0));
                }
                collect_type_params(t, params, used);
            },
            GenericArg::Other => {
                assert(used@ =~= before.union(Set::empty()));
            },
        }
        assert(used@ == before.union(used_params_arg(args@[i as int], params@)));
        assert(used@ =~= start.union(used_params_args(q, params@)));
        i = i + 1;
    }
    assert(args@.subrange(0, n as int) =~= args@);
}

fn collect_in_bounds(segs: &Vec<PathSegment>, params: &StringSet, used: &mut StringSet)
    requires
        params.wf(),
        old(used).wf(),
    ensures
        final(used).wf(),
        final(used)@ == old(used)@.union(used_params_bounds(segs@, params@)),
    decreases segs,
{
    let ghost start = used@;
    let n = segs.len();
    let mut i: usize = 0;
    assert(segs@.subrange(0, 0) =~= Seq::<PathSegment>::empty());
    assert(start =~= start.union(Set::empty()));
    while i < n
        invariant
            n == segs@.len(),
            i <= n,
            params.wf(),
            used.wf(),
            used@ == start.union(used_params_bounds(segs@.subrange(0, i as int), params@)),
        decreases n - i,
    {
        let ghost q = segs@.subrange(0, i + 1);
        assert(q.drop_last() =~= segs@.subrange(0, i as int));
        assert(q.last() == segs@[i as int]);
        let ghost mid_start = used@;
        let args = &segs[i].args;
        let m = args.len();
        let mut j: usize = 0;
        assert(args@.subrange(0, 0) =~= Seq::<GenericArg>::empty());
        assert(mid_start =~= mid_start.union(Set::empty()));
        while j < m
            invariant
                m == args@.len(),
                j <= m,
                n == segs@.len(),
                i < n,
                *args == segs@[i as int].args,
                params.wf(),
                used.wf(),
                used@ == mid_start.union(used_params_bound_args(args@.subrange(0, j as int), params@)),
            decreases m - j,
        {
            let ghost r = args@.subrange(0, j + 1);
            assert(r.drop_last() =~= args@.subrange(0, j as int));
            assert(r.last() == args@[j as int]);
            let ghost before = used@;
            match &args[j] {
                GenericArg::Type(t) => {
                    proof {
                        assert(decreases_to!(*segs => segs[i as int]));
                        assert(decreases_to!(segs[i as int] => segs[i as int].args));
                        assert(decreases_to!(segs[i as int].args => segs[i as int].args[j as int]));
                        assert(decreases_to!(args[j as int] => args[j as int]->Type_0));
                    }
                    collect_type_params(t, params, used);
                },
                _ => {
                    assert(used@ =~= before.union(Set::empty()));
                },
            }
            assert(used@ =~= mid_start.union(used_params_bound_args(r, params@)));
            j = j + 1;
        }
        assert(args@.subrange(0, m as int) =~= args@);
        assert(used@ =~= start.union(used_params_bounds(q, params@)));
        i = i + 1;
    }
    assert(segs@.subrange(0, n as int) =~= segs@);
}

/// The parameters of an item that a type mentions, as a set (see `used_params_type`).
pub fn used_type_params(params: &Vec<String>, t: &RustType) -> (r: StringSet)
    ensures
        r.wf(),
        r@ == used_params_type(*t, views(params@).to_set()),
{
    let mut set = StringSet::new();
    let n = params.len();
    let mut i: usize = 0;
    while i < n
        invariant
            n == params@.len(),
            i <= n,
            set.wf(),
            set@ == views(params@).take(i as int).to_set(),
        decreases n - i,
    {
        set.insert(params[i].clone());
        proof {
            let q = views(params@).take(i + 1);
            assert(q =~= views(params@).take(i as int).push(params@[i as int]@));
            views(params@).take(i as int).lemma_push_to_set_commute(params@[i as int]@);
            if i == 0 {
                assert(views(params@).take(0).to_set() =~= Set::<Seq<char>>::empty());
            }
        }
        i = i + 1;
    }
    assert(views(params@).take(n as int) =~= views(params@));
    let mut used = StringSet::new();
    collect_type_params(t, &set, &mut used);
    assert(used@ =~= used_params_type(*t, views(params@).to_set()));
    used
}

} // verus!
