//! A model of the Rust types that appear in message fields, and the names derived from them.

use vstd::prelude::*;

use crate::text::{
    capitalize, capitalize_spec, push_str, str_eq, strip_proto_suffix, strip_proto_suffix_spec, views,
};

verus! {

broadcast use vstd::std_specs::vec::group_vec_axioms;

/// A Rust type as written in a field, a generic argument or an attribute.
pub enum RustType {
    /// A path such as `std::collections::HashMap<String, u32>`.
    Path(TypePath),
    /// `&T` or `&mut T`.
    Reference(Box<RustType>),
    /// `(T)`, or an invisible group around `T`.
    Paren(Box<RustType>),
    /// `[T; N]`.
    Array(Box<RustType>),
    /// `[T]`.
    Slice(Box<RustType>),
    /// `(A, B, ...)`, and `()` when empty.
    Tuple(Vec<RustType>),
    /// `*const T` or `*mut T`.
    Ptr(Box<RustType>),
    /// A function pointer `fn(A, B) -> C`: its input types, then its output type if it has one.
    BareFn(Vec<RustType>),
    /// `impl Trait + ...` or `dyn Trait + ...`: the segments of the paths of its trait bounds.
    TraitObject(Vec<PathSegment>),
    /// Any other form (macros, `_`, `!`, ...).
    Other,
}

pub struct TypePath {
    /// Whether the path has a qualified self, as in `<T as Trait>::Assoc`.
    pub qself: bool,
    pub segments: Vec<PathSegment>,
}

pub struct PathSegment {
    pub ident: String,
    /// The arguments: those in angle brackets, or the inputs and output of `Fn(A) -> B`; empty
    /// when there are none.
    pub args: Vec<GenericArg>,
}

pub enum GenericArg {
    /// A type argument in angle brackets.
    Type(RustType),
    /// An associated type binding `Item = T`, by its type.
    Binding(RustType),
    /// An associated type constraint `Item: Bound<...>`: the segments of its bounds' paths.
    Constraint(Vec<PathSegment>),
    /// An input or the output of parenthesized arguments `Fn(A) -> B`.
    Paren(RustType),
    /// A lifetime, a const value or an associated const binding.
    Other,
}

/// The last segment of a path type, if the type is a path with segments.
pub open spec fn last_segment_spec(t: RustType) -> Option<PathSegment> {
    match t {
        RustType::Path(p) => if p.segments@.len() > 0 {
            Some(p.segments@.last())
        } else {
            None
        },
        _ => None,
    }
}

pub fn last_segment(t: &RustType) -> (r: Option<&PathSegment>)
    ensures
        match r {
            Some(s) => last_segment_spec(*t) == Some(*s),
            None => last_segment_spec(*t) is None,
        },
{
    match t {
        RustType::Path(p) => {
            let n = p.segments.len();
            if n > 0 {
                Some(&p.segments[n - 1])
            } else {
                None
            }
        },
        _ => None,
    }
}

/// Whether the type is a single path segment without generic arguments or qualified self,
/// that is, a bare identifier such as `T`.
pub open spec fn bare_ident_spec(t: RustType) -> Option<Seq<char>> {
    match t {
        RustType::Path(p) => if !p.qself && p.segments@.len() == 1 && p.segments@[0].args@.len()
            == 0 {
            Some(p.segments@[0].ident@)
        } else {
            None
        },
        _ => None,
    }
}

pub fn bare_ident(t: &RustType) -> (r: Option<&String>)
    ensures
        match r {
            Some(s) => bare_ident_spec(*t) == Some(s@),
            None => bare_ident_spec(*t) is None,
        },
{
    match t {
        RustType::Path(p) => {
            if !p.qself && p.segments.len() == 1 && p.segments[0].args.len() == 0 {
                Some(&p.segments[0].ident)
            } else {
                None
            }
        },
        _ => None,
    }
}

/// The identifier of the last path segment, looking through references and parentheses.
pub open spec fn type_ident_spec(t: RustType) -> Option<Seq<char>>
    decreases t,
{
    match t {
        RustType::Path(p) => if p.segments@.len() > 0 {
            Some(p.segments@.last().ident@)
        } else {
            None
        },
        RustType::Reference(e) => type_ident_spec(*e),
        RustType::Paren(e) => type_ident_spec(*e),
        _ => None,
    }
}

pub fn extract_type_ident(t: &RustType) -> (r: Option<String>)
    ensures
        match r {
            Some(s) => type_ident_spec(*t) == Some(s@),
            None => type_ident_spec(*t) is None,
        },
    decreases t,
{
    match t {
        RustType::Path(p) => {
            let n = p.segments.len();
            if n > 0 {
                Some(p.segments[n - 1].ident.clone())
            } else {
                None
            }
        },
        RustType::Reference(e) => extract_type_ident(e),
        RustType::Paren(e) => extract_type_ident(e),
        _ => None,
    }
}

/// The identifier that names a type in generated code: the last path segment's identifier, or
/// nothing for types without one.
pub open spec fn path_ident_spec(t: RustType) -> Seq<char> {
    match type_ident_spec(t) {
        Some(s) => s,
        None => Seq::empty(),
    }
}

pub fn rust_type_path_ident(t: &RustType) -> (r: String)
    ensures
        r@ == path_ident_spec(*t),
{
    match extract_type_ident(t) {
        Some(s) => s,
        None => String::new(),
    }
}

/// The type a `sun` attribute names: one reference is removed, and parentheses are looked
/// through.
pub open spec fn normalize_sun_spec(t: RustType) -> RustType
    decreases t,
{
    match t {
        RustType::Reference(e) => *e,
        RustType::Paren(e) => normalize_sun_spec(*e),
        _ => t,
    }
}

pub fn normalize_sun_type(t: &RustType) -> (r: &RustType)
    ensures
        *r == normalize_sun_spec(*t),
    decreases t,
{
    match t {
        RustType::Reference(e) => e,
        RustType::Paren(e) => normalize_sun_type(e),
        _ => t,
    }
}

/// Whether a `sun` type is a reference, looking through parentheses.
pub open spec fn is_reference_sun_spec(t: RustType) -> bool
    decreases t,
{
    match t {
        RustType::Reference(_) => true,
        RustType::Paren(e) => is_reference_sun_spec(*e),
        _ => false,
    }
}

pub fn is_reference_sun(t: &RustType) -> (r: bool)
    ensures
        r == is_reference_sun_spec(*t),
    decreases t,
{
    match t {
        RustType::Reference(_) => true,
        RustType::Paren(e) => is_reference_sun(e),
        _ => false,
    }
}

/// Whether the type is one of the generic parameters, looking through references and parentheses.
pub open spec fn is_generic_param_spec(t: RustType, params: Seq<Seq<char>>) -> bool
    decreases t,
{
    match t {
        RustType::Path(_) => match bare_ident_spec(t) {
            Some(id) => params.contains(id),
            None => false,
        },
        RustType::Reference(e) => is_generic_param_spec(*e, params),
        RustType::Paren(e) => is_generic_param_spec(*e, params),
        _ => false,
    }
}

/// Whether `name` is one of `params`.
pub fn contains_name(params: &Vec<String>, name: &str) -> (r: bool)
    ensures
        r == views(params@).contains(name@),
{
    let mut i: usize = 0;
    while i < params.len()
        invariant
            i <= params@.len(),
            forall|j: int| 0 <= j < i ==> params@[j]@ != name@,
        decreases params.len() - i,
    {
        if str_eq(params[i].as_str(), name) {
            assert(views(params@)[i as int] == name@);
            return true;
        }
        i = i + 1;
    }
    proof {
        if views(params@).contains(name@) {
            let k = choose|k: int| 0 <= k < views(params@).len() && views(params@)[k] == name@;
            assert(params@[k]@ == name@);
        }
    }
    false
}

pub fn is_generic_param(t: &RustType, params: &Vec<String>) -> (r: bool)
    ensures
        r == is_generic_param_spec(*t, views(params@)),
    decreases t,
{
    match t {
        RustType::Path(_) => match bare_ident(t) {
            Some(id) => contains_name(params, id.as_str()),
            None => false,
        },
        RustType::Reference(e) => is_generic_param(e, params),
        RustType::Paren(e) => is_generic_param(e, params),
        _ => false,
    }
}

/// The name a type contributes to a generated identifier: every path segment capitalized and
/// followed by the names of its generic type arguments; references and parentheses are looked
/// through; other forms contribute nothing. `std::hash::RandomState` gives
/// `StdHashRandomState`, `IdGeneric<u64>` gives `IdGenericU64`.
pub open spec fn type_name_spec(t: RustType) -> Seq<char>
    decreases t,
{
    match t {
        RustType::Path(p) => segs_name_spec(p.segments@),
        RustType::Reference(e) => type_name_spec(*e),
        RustType::Paren(e) => type_name_spec(*e),
        _ => Seq::empty(),
    }
}

pub open spec fn segs_name_spec(s: Seq<PathSegment>) -> Seq<char>
    decreases s,
{
    if s.len() == 0 {
        Seq::empty()
    } else {
        segs_name_spec(s.drop_last()) + seg_name_spec(s.last())
    }
}

pub open spec fn seg_name_spec(seg: PathSegment) -> Seq<char>
    decreases seg,
{
    capitalize_spec(seg.ident@) + args_name_spec(seg.args@)
}

pub open spec fn args_name_spec(a: Seq<GenericArg>) -> Seq<char>
    decreases a,
{
    if a.len() == 0 {
        Seq::empty()
    } else {
        args_name_spec(a.drop_last()) + arg_name_spec(a.last())
    }
}

pub open spec fn arg_name_spec(a: GenericArg) -> Seq<char>
    decreases a,
{
    match a {
        GenericArg::Type(t) => type_name_spec(t),
        _ => Seq::empty(),
    }
}

pub fn type_name_with_generics_for_path(t: &RustType) -> (r: String)
    ensures
        r@ == type_name_spec(*t),
    decreases t,
{
    match t {
        RustType::Path(p) => {
            let mut r = String::new();
            let n = p.segments.len();
            let mut i: usize = 0;
            while i < n
                invariant
                    *t == RustType::Path(*p),
                    n == p.segments@.len(),
                    i <= n,
                    r@ == segs_name_spec(p.segments@.subrange(0, i as int)),
                decreases n - i,
            {
                proof {
                    assert(decreases_to!(*t => (*t)->Path_0));
                    assert(decreases_to!(*p => p.segments));
                    assert(decreases_to!(p.segments => p.segments[i as int]));
                }
                let part = segment_name(&p.segments[i]);
                push_str(&mut r, part.as_str());
                assert(p.segments@.subrange(0, i + 1).drop_last() =~= p.segments@.subrange(
                    0,
                    i as int,
                ));
                i = i + 1;
            }
            assert(p.segments@.subrange(0, n as int) =~= p.segments@);
            r
        },
        RustType::Reference(e) => type_name_with_generics_for_path(e),
        RustType::Paren(e) => type_name_with_generics_for_path(e),
        _ => String::new(),
    }
}

fn segment_name(seg: &PathSegment) -> (r: String)
    ensures
        r@ == seg_name_spec(*seg),
    decreases seg,
{
    let mut r = capitalize(seg.ident.as_str());
    let n = seg.args.len();
    let mut i: usize = 0;
    while i < n
        invariant
            n == seg.args@.len(),
            i <= n,
            r@ == capitalize_spec(seg.ident@) + args_name_spec(seg.args@.subrange(0, i as int)),
        decreases n - i,
    {
        let ghost q = seg.args@.subrange(0, i + 1);
        assert(args_name_spec(q) == args_name_spec(q.drop_last()) + arg_name_spec(q.last()));
        match &seg.args[i] {
            GenericArg::Type(inner) => {
                let part = type_name_with_generics_for_path(inner);
                assert(arg_name_spec(seg.args@[i as int]) == type_name_spec(*inner));
                push_str(&mut r, part.as_str());
            },
            _ => {},
        }
        assert(seg.args@.subrange(0, i + 1).drop_last() =~= seg.args@.subrange(0, i as int));
        assert(seg.args@.subrange(0, i + 1).last() == seg.args@[i as int]);
        assert(r@ =~= capitalize_spec(seg.ident@) + args_name_spec(
            seg.args@.subrange(0, i + 1),
        ));
        i = i + 1;
    }
    assert(seg.args@.subrange(0, n as int) =~= seg.args@);
    r
}

/// The protobuf message name of a Rust type: the last path segment's identifier without a
/// trailing `Proto`, followed by the names of its generic type arguments; references and
/// parentheses are looked through; other forms have an empty name.
pub open spec fn proto_type_name_spec(t: RustType) -> Seq<char>
    decreases t,
{
    match t {
        RustType::Path(p) => if p.segments@.len() > 0 {
            strip_proto_suffix_spec(p.segments@.last().ident@) + args_name_spec(
                p.segments@.last().args@,
            )
        } else {
            Seq::empty()
        },
        RustType::Reference(e) => proto_type_name_spec(*e),
        RustType::Paren(e) => proto_type_name_spec(*e),
        _ => Seq::empty(),
    }
}

pub fn proto_type_name(t: &RustType) -> (r: String)
    ensures
        r@ == proto_type_name_spec(*t),
    decreases t,
{
    match t {
        RustType::Path(p) => {
            let n = p.segments.len();
            if n == 0 {
                return String::new();
            }
            let seg = &p.segments[n - 1];
            let mut r = strip_proto_suffix(seg.ident.as_str());
            let m = seg.args.len();
            let mut i: usize = 0;
            while i < m
                invariant
                    m == seg.args@.len(),
                    i <= m,
                    r@ == strip_proto_suffix_spec(seg.ident@) + args_name_spec(
                        seg.args@.subrange(0, i as int),
                    ),
                decreases m - i,
            {
                let ghost q = seg.args@.subrange(0, i + 1);
                assert(args_name_spec(q) == args_name_spec(q.drop_last()) + arg_name_spec(
                    q.last(),
                ));
                match &seg.args[i] {
                    GenericArg::Type(inner) => {
                        let part = type_name_with_generics_for_path(inner);
                        assert(arg_name_spec(seg.args@[i as int]) == type_name_spec(*inner));
                        push_str(&mut r, part.as_str());
                    },
                    _ => {},
                }
                assert(seg.args@.subrange(0, i + 1).drop_last() =~= seg.args@.subrange(
                    0,
                    i as int,
                ));
                assert(seg.args@.subrange(0, i + 1).last() == seg.args@[i as int]);
                assert(r@ =~= strip_proto_suffix_spec(seg.ident@) + args_name_spec(
                    seg.args@.subrange(0, i + 1),
                ));
                i = i + 1;
            }
            assert(seg.args@.subrange(0, m as int) =~= seg.args@);
            r
        },
        RustType::Reference(e) => proto_type_name(e),
        RustType::Paren(e) => proto_type_name(e),
        _ => String::new(),
    }
}

/// The last segment's identifier of a path type, without a trailing `Proto`.
pub open spec fn base_type_name_spec(t: RustType) -> Option<Seq<char>> {
    match t {
        RustType::Path(p) => if p.segments@.len() > 0 {
            Some(strip_proto_suffix_spec(p.segments@.last().ident@))
        } else {
            None
        },
        _ => None,
    }
}

pub fn extract_base_type_name(t: &RustType) -> (r: Option<String>)
    ensures
        match r {
            Some(s) => base_type_name_spec(*t) == Some(s@),
            None => base_type_name_spec(*t) is None,
        },
{
    match last_segment(t) {
        Some(seg) => Some(strip_proto_suffix(seg.ident.as_str())),
        None => None,
    }
}

} // verus!
