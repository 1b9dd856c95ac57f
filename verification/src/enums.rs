//! Simple (unit-only) enums: discriminant values, the `#[default]` variant, and their `.proto`
//! definition.

use vstd::prelude::*;

use crate::model::{Discriminant, VariantModel};
use crate::text::{int_text, join, join_spec, push_i64, push_str, string_of, to_upper_snake_case,
    upper_snake_spec, views};

verus! {

broadcast use vstd::std_specs::vec::group_vec_axioms;

/// Why the discriminants of an enum could not be computed; each names the variant's position.
pub enum DiscriminantError {
    /// The discriminant is not an integer literal.
    Unsupported(usize),
    /// The literal does not fit in `i32`.
    OutOfRange(usize),
    /// The implicit value after `i32::MAX`.
    Overflow(usize),
}

/// The discriminants of the variants, in order: an explicit literal gives its value, an implicit
/// one is the previous value plus one (0 for the first variant). Values are `i32`.
pub open spec fn discriminants_spec(ds: Seq<Discriminant>) -> Result<Seq<i32>, DiscriminantError>
    decreases ds.len(),
{
    if ds.len() == 0 {
        Ok(Seq::empty())
    } else {
        match discriminants_spec(ds.drop_last()) {
            Err(e) => Err(e),
            Ok(prev) => {
                let idx = (ds.len() - 1) as usize;
                match ds.last() {
                    Discriminant::Implicit => {
                        let v: int = if prev.len() == 0 {
                            0
                        } else {
                            prev.last() + 1
                        };
                        if v > i32::MAX {
                            Err(DiscriminantError::Overflow(idx))
                        } else {
                            Ok(prev.push(v as i32))
                        }
                    },
                    Discriminant::Literal(x) => if i32::MIN <= x <= i32::MAX {
                        Ok(prev.push(x as i32))
                    } else {
                        Err(DiscriminantError::OutOfRange(idx))
                    },
                    Discriminant::Unsupported => Err(DiscriminantError::Unsupported(idx)),
                }
            },
        }
    }
}

proof fn lemma_discriminants_error_extends(ds: Seq<Discriminant>, k: int)
    requires
        0 <= k <= ds.len(),
        discriminants_spec(ds.take(k)) is Err,
    ensures
        discriminants_spec(ds) == discriminants_spec(ds.take(k)),
    decreases ds.len() - k,
{
    if k < ds.len() {
        assert(ds.take(k + 1).drop_last() =~= ds.take(k));
        lemma_discriminants_error_extends(ds, k + 1);
    } else {
        assert(ds.take(k) =~= ds);
    }
}

/// Computes the discriminants (see `discriminants_spec`).
pub fn collect_discriminants(ds: &Vec<Discriminant>) -> (r: Result<Vec<i32>, DiscriminantError>)
    ensures
        match r {
            Ok(v) => discriminants_spec(ds@) == Ok::<_, DiscriminantError>(v@),
            Err(e) => discriminants_spec(ds@) == Err::<Seq<i32>, _>(e),
        },
{
    let mut out: Vec<i32> = Vec::new();
    let n = ds.len();
    let mut i: usize = 0;
    assert(ds@.take(0) =~= Seq::<Discriminant>::empty());
    while i < n
        invariant
            n == ds@.len(),
            i <= n,
            discriminants_spec(ds@.take(i as int)) == Ok::<_, DiscriminantError>(out@),
            out@.len() == i,
        decreases n - i,
    {
        let ghost q = ds@.take(i + 1);
        assert(q.drop_last() =~= ds@.take(i as int));
        assert(q.last() == ds@[i as int]);
        match ds[i] {
            Discriminant::Implicit => {
                let v: i64 = if i == 0 {
                    0
                } else {
                    out[i - 1] as i64 + 1
                };
                if v > 0x7FFF_FFFF {
                    proof {
                        lemma_discriminants_error_extends(ds@, i + 1);
                    }
                    return Err(DiscriminantError::Overflow(i));
                }
                out.push(v as i32);
            },
            Discriminant::Literal(x) => {
                if x < -0x8000_0000 || x > 0x7FFF_FFFF {
                    proof {
                        lemma_discriminants_error_extends(ds@, i + 1);
                    }
                    return Err(DiscriminantError::OutOfRange(i));
                }
                out.push(x as i32);
            },
            Discriminant::Unsupported => {
                proof {
                    lemma_discriminants_error_extends(ds@, i + 1);
                }
                return Err(DiscriminantError::Unsupported(i));
            },
        }
        i = i + 1;
    }
    assert(ds@.take(n as int) =~= ds@);
    Ok(out)
}

/// The discriminants as written on the variants.
pub open spec fn variant_discriminants(vs: Seq<VariantModel>) -> Seq<Discriminant> {
    vs.map_values(|v: VariantModel| v.discriminant)
}

fn discriminants_of(vs: &Vec<VariantModel>) -> (r: Vec<Discriminant>)
    ensures
        r@ == variant_discriminants(vs@),
{
    let mut r: Vec<Discriminant> = Vec::new();
    let mut i: usize = 0;
    while i < vs.len()
        invariant
            i <= vs@.len(),
            r@ =~= variant_discriminants(vs@.take(i as int)),
        decreases vs.len() - i,
    {
        r.push(vs[i].discriminant);
        i = i + 1;
    }
    assert(vs@.take(vs@.len() as int) =~= vs@);
    r
}

/// The variant marked `#[default]`: none, the only one, or a refusal when several are marked.
#[verifier::opaque]
pub open spec fn marked_default_spec(vs: Seq<VariantModel>) -> Result<Option<usize>, ()> {
    if forall|i: int| 0 <= i < vs.len() ==> !(#[trigger] vs[i]).is_default {
        Ok(None)
    } else if exists|k: int|
        0 <= k < vs.len() && (#[trigger] vs[k]).is_default && forall|j: int|
            0 <= j < vs.len() && j != k ==> !(#[trigger] vs[j]).is_default {
        Ok(
            Some(
                (choose|k: int|
                    0 <= k < vs.len() && (#[trigger] vs[k]).is_default && forall|j: int|
                        0 <= j < vs.len() && j != k ==> !(#[trigger] vs[j]).is_default) as usize,
            ),
        )
    } else {
        Err(())
    }
}

pub fn find_marked_default_variant(vs: &Vec<VariantModel>) -> (r: Result<Option<usize>, ()>)
    ensures
        r == marked_default_spec(vs@),
{
    let mut found: Option<usize> = None;
    let mut i: usize = 0;
    while i < vs.len()
        invariant
            i <= vs@.len(),
            match found {
                None => forall|j: int| 0 <= j < i ==> !(#[trigger] vs@[j]).is_default,
                Some(k) => k < i && vs@[k as int].is_default && forall|j: int|
                    0 <= j < i && j != k ==> !(#[trigger] vs@[j]).is_default,
            },
        decreases vs.len() - i,
    {
        if vs[i].is_default {
            match found {
                Some(k) => {
                    proof {
                        reveal(marked_default_spec);
                        assert(vs@[k as int].is_default && vs@[i as int].is_default);
                        assert forall|m: int|
                            0 <= m < vs@.len() && (#[trigger] vs@[m]).is_default implies !forall|
                            j: int,
                        |
                            0 <= j < vs@.len() && j != m ==> !(#[trigger] vs@[j]).is_default by {
                            if m != k {
                                assert(vs@[k as int].is_default);
                            } else {
                                assert(vs@[i as int].is_default);
                            }
                        }
                    }
                    return Err(());
                },
                None => {
                    found = Some(i);
                },
            }
        }
        i = i + 1;
    }
    proof {
        reveal(marked_default_spec);
        match found {
            Some(k) => {
                let c = choose|m: int|
                    0 <= m < vs@.len() && (#[trigger] vs@[m]).is_default && forall|j: int|
                        0 <= j < vs@.len() && j != m ==> !(#[trigger] vs@[j]).is_default;
                assert(vs@[k as int].is_default);
                if c != k {
                    assert(!vs@[c].is_default);
                }
            },
            None => {},
        }
    }
    Ok(found)
}

/// Why a simple enum was refused.
pub enum SimpleEnumError {
    Discriminant(DiscriminantError),
    /// More than one variant is marked `#[default]`.
    MultipleDefaults,
    /// No variant has discriminant 0.
    NoZero,
    /// The `#[default]` variant's discriminant is not 0.
    DefaultNotZero,
}

/// The position of the first 0 in a list of values.
#[verifier::opaque]
pub open spec fn first_zero(d: Seq<i32>) -> Option<int> {
    if exists|i: int| 0 <= i < d.len() && d[i] == 0 {
        Some(choose|i: int| 0 <= i < d.len() && d[i] == 0 && forall|j: int| 0 <= j < i ==> d[j] != 0)
    } else {
        None
    }
}

proof fn lemma_first_zero(d: Seq<i32>)
    ensures
        first_zero(d) matches Some(z) ==> 0 <= z < d.len() && d[z] == 0,
        first_zero(d) is None ==> !d.contains(0i32),
{
    reveal(first_zero);
    if exists|i: int| 0 <= i < d.len() && d[i] == 0 {
        let c = choose|i: int| 0 <= i < d.len() && d[i] == 0;
        assert(0 <= c < d.len() && d[c] == 0);
        lemma_first_zero_exists(d, c);
    }
}

proof fn lemma_first_zero_exists(d: Seq<i32>, c: int)
    requires
        0 <= c < d.len(),
        d[c] == 0,
    ensures
        exists|i: int| 0 <= i < d.len() && d[i] == 0 && forall|j: int| 0 <= j < i ==> d[j] != 0,
    decreases c,
{
    if exists|j: int| 0 <= j < c && d[j] == 0 {
        let j = choose|j: int| 0 <= j < c && d[j] == 0;
        lemma_first_zero_exists(d, j);
    } else {
        assert(forall|j: int| 0 <= j < c ==> d[j] != 0);
    }
}

fn position_of_zero(d: &Vec<i32>) -> (r: Option<usize>)
    ensures
        match r {
            Some(i) => first_zero(d@) == Some(i as int),
            None => first_zero(d@) is None,
        },
{
    let mut i: usize = 0;
    while i < d.len()
        invariant
            i <= d@.len(),
            forall|j: int| 0 <= j < i ==> d@[j] != 0,
        decreases d.len() - i,
    {
        if d[i] == 0 {
            proof {
                reveal(first_zero);
                let c = choose|m: int|
                    0 <= m < d@.len() && d@[m] == 0 && forall|j: int| 0 <= j < m ==> d@[j] != 0;
                assert(!(c < i));
                assert(!(c > i));
            }
            return Some(i);
        }
        i = i + 1;
    }
    proof {
        reveal(first_zero);
    }
    None
}

/// The discriminants a simple enum is given, with the index of its default variant: the
/// variants' own values, except that when the `#[default]` variant is not the first one holding
/// 0, the two exchange their values, so that the default variant holds 0.
pub open spec fn simple_enum_discriminants_spec(vs: Seq<VariantModel>) -> Result<
    (Seq<i32>, usize),
    SimpleEnumError,
> {
    match discriminants_spec(variant_discriminants(vs)) {
        Err(e) => Err(SimpleEnumError::Discriminant(e)),
        Ok(d) => match marked_default_spec(vs) {
            Err(_) => Err(SimpleEnumError::MultipleDefaults),
            Ok(marked) => match first_zero(d) {
                None => Err(SimpleEnumError::NoZero),
                Some(z) => {
                    let def = match marked {
                        Some(m) => m as int,
                        None => z,
                    };
                    if def == z {
                        Ok((d, def as usize))
                    } else {
                        Ok((d.update(z, d[def]).update(def, 0i32), def as usize))
                    }
                },
            },
        },
    }
}

pub fn simple_enum_discriminants(vs: &Vec<VariantModel>) -> (r: Result<
    (Vec<i32>, usize),
    SimpleEnumError,
>)
    ensures
        match r {
            Ok((d, k)) => simple_enum_discriminants_spec(vs@) == Ok::<_, SimpleEnumError>(
                (d@, k),
            ),
            Err(e) => simple_enum_discriminants_spec(vs@) == Err::<(Seq<i32>, usize), _>(e),
        },
{
    let ds = discriminants_of(vs);
    let mut d = match collect_discriminants(&ds) {
        Ok(d) => d,
        Err(e) => {
            return Err(SimpleEnumError::Discriminant(e));
        },
    };
    proof {
        lemma_discriminants_len(ds@);
    }
    let marked = match find_marked_default_variant(vs) {
        Ok(m) => m,
        Err(_) => {
            return Err(SimpleEnumError::MultipleDefaults);
        },
    };
    proof {
        assert(vs@.len() == vs.len());
        lemma_marked_in_range(vs@);
    }
    let zero = match position_of_zero(&d) {
        Some(z) => z,
        None => {
            return Err(SimpleEnumError::NoZero);
        },
    };
    proof {
        lemma_first_zero(d@);
        assert(ds@.len() == vs@.len());
    }
    let def = match marked {
        Some(m) => m,
        None => zero,
    };
    if def != zero {
        let value = d[def];
        d.set(zero, value);
        d.set(def, 0);
    }
    Ok((d, def))
}

proof fn lemma_discriminants_len(ds: Seq<Discriminant>)
    ensures
        discriminants_spec(ds) matches Ok(d) ==> d.len() == ds.len(),
    decreases ds.len(),
{
    if ds.len() > 0 {
        lemma_discriminants_len(ds.drop_last());
    }
}

pub(crate) proof fn lemma_marked_in_range(vs: Seq<VariantModel>)
    requires
        vs.len() <= usize::MAX,
    ensures
        marked_default_spec(vs) matches Ok(Some(k)) ==> k < vs.len() && vs[k as int].is_default,
{
    reveal(marked_default_spec);
    if !(forall|i: int| 0 <= i < vs.len() ==> !(#[trigger] vs[i]).is_default) {
        if exists|k: int|
            0 <= k < vs.len() && (#[trigger] vs[k]).is_default && forall|j: int|
                0 <= j < vs.len() && j != k ==> !(#[trigger] vs[j]).is_default {
            let c = choose|k: int|
                0 <= k < vs.len() && (#[trigger] vs[k]).is_default && forall|j: int|
                    0 <= j < vs.len() && j != k ==> !(#[trigger] vs[j]).is_default;
            assert(c < vs.len() && vs[c].is_default);
            assert(c as usize as int == c);
        }
    }
}

/// A simple enum's values make its default variant hold 0, and every value the variants had is
/// still held by some variant.
pub proof fn lemma_simple_enum_default_zero(vs: Seq<VariantModel>)
    requires
        vs.len() <= usize::MAX,
    ensures
        simple_enum_discriminants_spec(vs) matches Ok((d, k)) ==> {
            &&& d.len() == vs.len()
            &&& k < d.len()
            &&& d[k as int] == 0
            &&& (marked_default_spec(vs) matches Ok(Some(m)) ==> k == m)
            &&& discriminants_spec(variant_discriminants(vs)) matches Ok(orig) && forall|i: int|
                0 <= i < orig.len() ==> #[trigger] d.contains(orig[i])
        },
{
    lemma_discriminants_len(variant_discriminants(vs));
    lemma_marked_in_range(vs);
    if let Ok((d, k)) = simple_enum_discriminants_spec(vs) {
        let orig = discriminants_spec(variant_discriminants(vs))->Ok_0;
        lemma_first_zero(orig);
        let z = first_zero(orig)->0;
        assert forall|i: int| 0 <= i < orig.len() implies #[trigger] d.contains(orig[i]) by {
            if k as int == z {
                assert(d[i] == orig[i]);
            } else if i == k as int {
                assert(d[z] == orig[i]);
            } else if i == z {
                assert(d[k as int] == orig[i]);
            } else {
                assert(d[i] == orig[i]);
            }
        }
    }
}

/// The order in which a simple enum's variants are written in `.proto`: the `#[default]`
/// variant first, then the others in their order.
pub open spec fn proto_order(vs: Seq<VariantModel>, marked: Option<usize>) -> Seq<VariantModel> {
    match marked {
        Some(k) if k < vs.len() => Seq::new(
            vs.len(),
            |i: int|
                vs[if i == 0 {
                    k as int
                } else if i <= k {
                    i - 1
                } else {
                    i
                }],
        ),
        _ => vs,
    }
}

/// A simple enum can be written in `.proto`: at most one default variant, computable
/// discriminants in the written order, a default variant (if marked) at 0, and some variant at 0.
pub open spec fn simple_enum_proto_ok(vs: Seq<VariantModel>) -> bool {
    &&& marked_default_spec(vs) is Ok
    &&& {
        let marked = marked_default_spec(vs)->Ok_0;
        let ordered = proto_order(vs, marked);
        &&& discriminants_spec(variant_discriminants(ordered)) is Ok
        &&& {
            let d = discriminants_spec(variant_discriminants(ordered))->Ok_0;
            &&& (marked is Some ==> d.len() > 0 && d[0] == 0)
            &&& d.contains(0)
        }
    }
}

/// The lines `  NAME = value;` of the variants, in order.
pub open spec fn enum_value_lines(vs: Seq<VariantModel>, d: Seq<i32>) -> Seq<Seq<char>>
    recommends
        vs.len() == d.len(),
{
    Seq::new(
        vs.len(),
        |i: int| "  "@ + upper_snake_spec(vs[i].ident@) + " = "@ + int_text(d[i] as int) + ";"@,
    )
}

/// The `enum` definition of a simple enum, with the default variant first.
pub open spec fn simple_enum_proto_spec(name: Seq<char>, vs: Seq<VariantModel>) -> Seq<char>
    recommends
        simple_enum_proto_ok(vs),
{
    let ordered = proto_order(vs, marked_default_spec(vs)->Ok_0);
    let d = discriminants_spec(variant_discriminants(ordered))->Ok_0;
    "enum "@ + name + " {\n"@ + join_spec(enum_value_lines(ordered, d), "\n"@) + "\n}\n\n"@
}

/// The variants at the given positions.
pub open spec fn pick(vs: Seq<VariantModel>, idx: Seq<usize>) -> Seq<VariantModel> {
    idx.map_values(|j: usize| vs[j as int])
}

fn reorder(vs: &Vec<VariantModel>, marked: Option<usize>) -> (r: Vec<usize>)
    requires
        marked matches Some(k) ==> k < vs@.len(),
    ensures
        pick(vs@, r@) == proto_order(vs@, marked),
        forall|i: int| 0 <= i < r@.len() ==> r@[i] < vs@.len(),
{
    let mut r: Vec<usize> = Vec::new();
    if let Some(k) = marked {
        r.push(k);
    }
    let mut i: usize = 0;
    while i < vs.len()
        invariant
            i <= vs@.len(),
            marked matches Some(k) ==> k < vs@.len(),
            forall|m: int| 0 <= m < r@.len() ==> r@[m] < vs@.len(),
            match marked {
                Some(k) => {
                    &&& r@.len() == (if i <= k {
                        i + 1
                    } else {
                        i as int
                    })
                    &&& forall|m: int|
                        0 <= m < r@.len() ==> r@[m] == (if m == 0 {
                            k as int
                        } else if m <= k {
                            m - 1
                        } else {
                            m
                        })
                },
                None => r@.len() == i && forall|m: int| 0 <= m < r@.len() ==> r@[m] == m,
            },
        decreases vs.len() - i,
    {
        let skip = match marked {
            Some(k) => k == i,
            None => false,
        };
        if !skip {
            r.push(i);
        }
        i = i + 1;
    }
    assert(pick(vs@, r@) =~= proto_order(vs@, marked));
    r
}

fn ordered_discriminants(vs: &Vec<VariantModel>, order: &Vec<usize>) -> (r: Vec<Discriminant>)
    requires
        forall|i: int| 0 <= i < order@.len() ==> order@[i] < vs@.len(),
    ensures
        r@ == variant_discriminants(pick(vs@, order@)),
{
    let mut ds: Vec<Discriminant> = Vec::new();
    let mut i: usize = 0;
    while i < order.len()
        invariant
            i <= order@.len(),
            forall|m: int| 0 <= m < order@.len() ==> order@[m] < vs@.len(),
            ds@ =~= variant_discriminants(pick(vs@, order@).take(i as int)),
        decreases order.len() - i,
    {
        ds.push(vs[order[i]].discriminant);
        i = i + 1;
    }
    assert(pick(vs@, order@).take(order@.len() as int) =~= pick(vs@, order@));
    ds
}

/// Checks that a simple enum can be written in `.proto`.
pub fn check_simple_enum_proto(vs: &Vec<VariantModel>) -> (r: Result<(), SimpleEnumError>)
    ensures
        r is Ok <==> simple_enum_proto_ok(vs@),
{
    let marked = match find_marked_default_variant(vs) {
        Ok(m) => m,
        Err(_) => {
            return Err(SimpleEnumError::MultipleDefaults);
        },
    };
    proof {
        assert(vs@.len() == vs.len());
        lemma_marked_in_range(vs@);
    }
    let order = reorder(vs, marked);
    let ds = ordered_discriminants(vs, &order);
    let d = match collect_discriminants(&ds) {
        Ok(d) => d,
        Err(e) => {
            return Err(SimpleEnumError::Discriminant(e));
        },
    };
    if marked.is_some() && (d.len() == 0 || d[0] != 0) {
        return Err(SimpleEnumError::DefaultNotZero);
    }
    if contains_zero(&d) {
        Ok(())
    } else {
        Err(SimpleEnumError::NoZero)
    }
}

fn contains_zero(d: &Vec<i32>) -> (r: bool)
    ensures
        r == d@.contains(0i32),
{
    let mut j: usize = 0;
    while j < d.len()
        invariant
            j <= d@.len(),
            forall|m: int| 0 <= m < j ==> d@[m] != 0,
        decreases d.len() - j,
    {
        if d[j] == 0 {
            assert(d@[j as int] == 0i32);
            return true;
        }
        j = j + 1;
    }
    false
}

/// The `enum` definition of a simple enum (see `simple_enum_proto_spec`).
pub fn generate_simple_enum_proto(name: &str, vs: &Vec<VariantModel>) -> (r: String)
    requires
        simple_enum_proto_ok(vs@),
    ensures
        r@ == simple_enum_proto_spec(name@, vs@),
{
    let marked = match find_marked_default_variant(vs) {
        Ok(m) => m,
        Err(_) => None,
    };
    proof {
        assert(vs@.len() == vs.len());
        lemma_marked_in_range(vs@);
    }
    let order = reorder(vs, marked);
    let ds = ordered_discriminants(vs, &order);
    let d = match collect_discriminants(&ds) {
        Ok(d) => d,
        Err(_) => Vec::new(),
    };
    proof {
        lemma_discriminants_len(ds@);
    }
    let ghost ordered = pick(vs@, order@);
    let mut lines: Vec<String> = Vec::new();
    let mut k: usize = 0;
    while k < order.len()
        invariant
            k <= order@.len(),
            ordered == pick(vs@, order@),
            forall|m: int| 0 <= m < order@.len() ==> order@[m] < vs@.len(),
            d@.len() == order@.len(),
            views(lines@) =~= enum_value_lines(ordered, d@).take(k as int),
        decreases order.len() - k,
    {
        let mut line = string_of("  ");
        assert(ordered[k as int] == vs@[order@[k as int] as int]);
        let upper = to_upper_snake_case(vs[order[k]].ident.as_str());
        push_str(&mut line, upper.as_str());
        push_str(&mut line, " = ");
        push_i64(&mut line, d[k] as i64);
        push_str(&mut line, ";");
        assert(line@ =~= enum_value_lines(ordered, d@)[k as int]);
        let ghost before = views(lines@);
        lines.push(line);
        assert(views(lines@) =~= before.push(enum_value_lines(ordered, d@)[k as int]));
        k = k + 1;
    }
    assert(enum_value_lines(ordered, d@).take(order@.len() as int) =~= enum_value_lines(
        ordered,
        d@,
    ));
    let mut r = string_of("enum ");
    push_str(&mut r, name);
    push_str(&mut r, " {\n");
    let body = join(&lines, "\n");
    push_str(&mut r, body.as_str());
    push_str(&mut r, "\n}\n\n");
    r
}

} // verus!
