//! Concrete instantiations of generic messages (`generic_types = [T = [u64, i64]]`).

use vstd::prelude::*;

use crate::subst::subs_valid;
use crate::text::{push_str, str_eq, views};
use crate::types::{RustType, type_name_spec, type_name_with_generics_for_path};

verus! {

broadcast use vstd::std_specs::vec::group_vec_axioms;

/// One `P = [T1, T2, ...]` entry of a `generic_types` option.
pub struct GenericTypeEntry {
    pub param: String,
    pub types: Vec<RustType>,
}

/// One type parameter's value in a concrete instantiation: the `choice`-th type of entry `entry`.
pub struct Substitution {
    pub param: String,
    pub entry: usize,
    pub choice: usize,
}

/// A concrete instantiation: its name suffix and the type chosen for each type parameter.
pub struct GenericTypeVariant {
    pub suffix: String,
    pub substitutions: Vec<Substitution>,
}

/// Why the instantiations could not be formed.
pub enum GenericVariantsError {
    /// `generic_types` was given for a type without type parameters.
    NotGeneric,
    /// The type parameter at this position has no entry.
    MissingEntry(usize),
    /// The entry for the type parameter at this position lists no type.
    EmptyEntry(usize),
}

/// The entry that applies to a parameter: the last one that names it.
pub open spec fn entry_for(entries: Seq<GenericTypeEntry>, param: Seq<char>) -> Option<int>
    decreases entries.len(),
{
    if entries.len() == 0 {
        None
    } else if entries.last().param@ == param {
        Some(entries.len() - 1)
    } else {
        entry_for(entries.drop_last(), param)
    }
}

proof fn lemma_entry_for_range(entries: Seq<GenericTypeEntry>, param: Seq<char>)
    ensures
        entry_for(entries, param) matches Some(e) ==> 0 <= e < entries.len() && entries[e].param@
            == param,
    decreases entries.len(),
{
    if entries.len() > 0 {
        lemma_entry_for_range(entries.drop_last(), param);
    }
}

/// One choice vector extended by each choice in `0..n`, in order.
pub open spec fn row(c: Seq<nat>, n: nat) -> Seq<Seq<nat>> {
    Seq::new(n, |j: int| c.push(j as nat))
}

/// Each choice vector of `prev` extended by every choice in `0..n`, in order.
pub open spec fn expand(prev: Seq<Seq<nat>>, n: nat) -> Seq<Seq<nat>>
    decreases prev.len(),
{
    if prev.len() == 0 {
        Seq::empty()
    } else {
        expand(prev.drop_last(), n) + row(prev.last(), n)
    }
}

/// All choice vectors for the given numbers of choices, the first position varying slowest.
pub open spec fn combos(counts: Seq<nat>) -> Seq<Seq<nat>>
    decreases counts.len(),
{
    if counts.len() == 0 {
        seq![Seq::empty()]
    } else {
        expand(combos(counts.drop_last()), counts.last())
    }
}

/// The entries chosen for the type parameters, or the first parameter that has no usable entry.
pub open spec fn param_entries(entries: Seq<GenericTypeEntry>, params: Seq<Seq<char>>) -> Result<
    Seq<int>,
    GenericVariantsError,
>
    decreases params.len(),
{
    if params.len() == 0 {
        Ok(Seq::empty())
    } else {
        match param_entries(entries, params.drop_last()) {
            Err(e) => Err(e),
            Ok(prev) => {
                let p = (params.len() - 1) as usize;
                match entry_for(entries, params.last()) {
                    None => Err(GenericVariantsError::MissingEntry(p)),
                    Some(e) => if entries[e].types@.len() == 0 {
                        Err(GenericVariantsError::EmptyEntry(p))
                    } else {
                        Ok(prev.push(e))
                    },
                }
            },
        }
    }
}

/// The name suffix of a choice vector: the names of the chosen types, in order.
pub open spec fn suffix_spec(
    entries: Seq<GenericTypeEntry>,
    used: Seq<int>,
    choice: Seq<nat>,
) -> Seq<char>
    decreases choice.len(),
{
    if choice.len() == 0 || used.len() < choice.len() {
        Seq::empty()
    } else {
        suffix_spec(entries, used, choice.drop_last()) + type_name_spec(
            entries[used[choice.len() - 1]].types@[choice.last() as int],
        )
    }
}

/// A substitution as plain values.
pub open spec fn sub_view(s: Substitution) -> (Seq<char>, int, nat) {
    (s.param@, s.entry as int, s.choice as nat)
}

pub open spec fn subs_view(v: Seq<Substitution>) -> Seq<(Seq<char>, int, nat)> {
    v.map_values(|s: Substitution| sub_view(s))
}

/// The (suffix, substitutions) of an instantiation, as plain values.
pub open spec fn variant_view(v: GenericTypeVariant) -> (Seq<char>, Seq<(Seq<char>, int, nat)>) {
    (v.suffix@, subs_view(v.substitutions@))
}

pub open spec fn variants_view(v: Seq<GenericTypeVariant>) -> Seq<
    (Seq<char>, Seq<(Seq<char>, int, nat)>),
> {
    v.map_values(|x: GenericTypeVariant| variant_view(x))
}

/// The chosen entries as integers.
pub open spec fn used_ints(v: Seq<usize>) -> Seq<int> {
    v.map_values(|e: usize| e as int)
}

/// The number of types of each chosen entry.
pub open spec fn counts_of(entries: Seq<GenericTypeEntry>, used: Seq<int>) -> Seq<nat> {
    used.map_values(|e: int| entries[e].types@.len())
}

/// The instantiations of a list of choice vectors.
pub open spec fn variant_specs(
    entries: Seq<GenericTypeEntry>,
    params: Seq<Seq<char>>,
    used: Seq<int>,
    cs: Seq<Seq<nat>>,
) -> Seq<(Seq<char>, Seq<(Seq<char>, int, nat)>)> {
    cs.map_values(|c: Seq<nat>| variant_spec(entries, params, used, c))
}

/// The instantiation for one choice vector.
pub open spec fn variant_spec(
    entries: Seq<GenericTypeEntry>,
    params: Seq<Seq<char>>,
    used: Seq<int>,
    choice: Seq<nat>,
) -> (Seq<char>, Seq<(Seq<char>, int, nat)>) {
    (
        suffix_spec(entries, used, choice),
        Seq::new(choice.len(), |p: int| (params[p], used[p], choice[p])),
    )
}

/// The concrete instantiations of a generic type: without `generic_types`, the type itself
/// (empty suffix, no substitution); otherwise one per combination of the listed types, in order,
/// the first parameter varying slowest, each named by the concatenated names of its types.
pub open spec fn generic_variants_spec(
    entries: Seq<GenericTypeEntry>,
    params: Seq<Seq<char>>,
) -> Result<Seq<(Seq<char>, Seq<(Seq<char>, int, nat)>)>, GenericVariantsError> {
    if entries.len() == 0 {
        Ok(seq![(Seq::empty(), Seq::empty())])
    } else if params.len() == 0 {
        Err(GenericVariantsError::NotGeneric)
    } else {
        match param_entries(entries, params) {
            Err(e) => Err(e),
            Ok(used) => Ok(variant_specs(entries, params, used, combos(counts_of(entries, used)))),
        }
    }
}

fn find_entry(entries: &Vec<GenericTypeEntry>, param: &str) -> (r: Option<usize>)
    ensures
        match r {
            Some(e) => entry_for(entries@, param@) == Some(e as int),
            None => entry_for(entries@, param@) is None,
        },
{
    let mut i = entries.len();
    assert(entries@.take(i as int) =~= entries@);
    while i > 0
        invariant
            i <= entries@.len(),
            entry_for(entries@, param@) == entry_for(entries@.take(i as int), param@),
        decreases i,
    {
        let ghost q = entries@.take(i as int);
        assert(q.drop_last() =~= entries@.take(i - 1));
        assert(q.last() == entries@[i - 1]);
        if str_eq(entries[i - 1].param.as_str(), param) {
            return Some(i - 1);
        }
        i = i - 1;
    }
    None
}

/// The entry of each type parameter, in order, or the first parameter without a usable entry.
fn resolve_entries(entries: &Vec<GenericTypeEntry>, params: &Vec<String>) -> (r: Result<
    Vec<usize>,
    GenericVariantsError,
>)
    ensures
        match r {
            Ok(u) => {
                &&& param_entries(entries@, views(params@)) == Ok::<_, GenericVariantsError>(
                    used_ints(u@),
                )
                &&& u@.len() == params@.len()
                &&& forall|k: int| 0 <= k < u@.len() ==> u@[k] < entries@.len()
            },
            Err(e) => param_entries(entries@, views(params@)) == Err::<Seq<int>, _>(e),
        },
{
    let ghost ps = views(params@);
    let mut used: Vec<usize> = Vec::new();
    let mut p: usize = 0;
    assert(ps.take(0) =~= Seq::<Seq<char>>::empty());
    assert(used_ints(used@) =~= Seq::<int>::empty());
    while p < params.len()
        invariant
            ps == views(params@),
            p <= params@.len(),
            used@.len() == p,
            param_entries(entries@, ps.take(p as int)) == Ok::<_, GenericVariantsError>(
                used_ints(used@),
            ),
            forall|k: int| 0 <= k < used@.len() ==> used@[k] < entries@.len(),
        decreases params.len() - p,
    {
        let ghost q = ps.take(p + 1);
        assert(q.drop_last() =~= ps.take(p as int));
        assert(q.last() == params@[p as int]@);
        proof {
            lemma_entry_for_range(entries@, params@[p as int]@);
        }
        match find_entry(entries, params[p].as_str()) {
            None => {
                assert(param_entries(entries@, q) == Err::<Seq<int>, _>(
                    GenericVariantsError::MissingEntry(p),
                ));
                proof {
                    lemma_param_entries_error_extends(entries@, ps, p + 1);
                }
                return Err(GenericVariantsError::MissingEntry(p));
            },
            Some(e) => {
                if entries[e].types.len() == 0 {
                    assert(param_entries(entries@, q) == Err::<Seq<int>, _>(
                        GenericVariantsError::EmptyEntry(p),
                    ));
                    proof {
                        lemma_param_entries_error_extends(entries@, ps, p + 1);
                    }
                    return Err(GenericVariantsError::EmptyEntry(p));
                }
                used.push(e);
                assert(used_ints(used@) =~= param_entries(entries@, q)->Ok_0);
            },
        }
        p = p + 1;
    }
    assert(ps.take(params@.len() as int) =~= ps);
    Ok(used)
}

fn copy_substitutions(v: &Vec<Substitution>) -> (r: Vec<Substitution>)
    ensures
        subs_view(r@) == subs_view(v@),
        r@.len() == v@.len(),
        forall|j: int|
            0 <= j < v@.len() ==> (#[trigger] r@[j]).entry == v@[j].entry && r@[j].choice
                == v@[j].choice,
{
    let mut r: Vec<Substitution> = Vec::new();
    let mut i: usize = 0;
    assert(subs_view(r@) =~= subs_view(v@.take(0)));
    while i < v.len()
        invariant
            i <= v@.len(),
            r@.len() == i,
            subs_view(r@) == subs_view(v@.take(i as int)),
            forall|j: int|
                0 <= j < i ==> (#[trigger] r@[j]).entry == v@[j].entry && r@[j].choice
                    == v@[j].choice,
        decreases v.len() - i,
    {
        let s = Substitution { param: v[i].param.clone(), entry: v[i].entry, choice: v[i].choice };
        assert(sub_view(s) == sub_view(v@[i as int]));
        let ghost before = r@;
        r.push(s);
        assert(v@.take(i + 1) =~= v@.take(i as int).push(v@[i as int]));
        assert(subs_view(r@) =~= subs_view(before).push(sub_view(s)));
        assert(subs_view(v@.take(i + 1)) =~= subs_view(v@.take(i as int)).push(
            sub_view(v@[i as int]),
        ));
        i = i + 1;
    }
    assert(v@.take(v@.len() as int) =~= v@);
    r
}

/// Extends an instantiation by the `b`-th type of the entry of type parameter `k`.
fn extend_variant(
    existing: &GenericTypeVariant,
    entries: &Vec<GenericTypeEntry>,
    params: &Vec<String>,
    used: &Vec<usize>,
    k: usize,
    b: usize,
    Ghost(c): Ghost<Seq<nat>>,
) -> (r: GenericTypeVariant)
    requires
        used@.len() == params@.len(),
        k < used@.len(),
        used@[k as int] < entries@.len(),
        b < entries@[used@[k as int] as int].types@.len(),
        c.len() == k,
        variant_view(*existing) == variant_spec(entries@, views(params@), used_ints(used@), c),
        subs_valid(entries@, existing.substitutions@),
    ensures
        variant_view(r) == variant_spec(
            entries@,
            views(params@),
            used_ints(used@),
            c.push(b as nat),
        ),
        subs_valid(entries@, r.substitutions@),
{
    let ghost ps = views(params@);
    let ghost gused = used_ints(used@);
    let ghost c2 = c.push(b as nat);
    let entry = &entries[used[k]];
    let mut suffix = existing.suffix.clone();
    let name = type_name_with_generics_for_path(&entry.types[b]);
    push_str(&mut suffix, name.as_str());
    assert(c2.drop_last() =~= c);
    assert(suffix@ == suffix_spec(entries@, gused, c2));
    let mut subs = copy_substitutions(&existing.substitutions);
    let s = Substitution { param: params[k].clone(), entry: used[k], choice: b };
    let ghost before = subs@;
    subs.push(s);
    proof {
        assert forall|j: int| 0 <= j < subs@.len() implies (#[trigger] subs@[j]).entry
            < entries@.len() && subs@[j].choice < entries@[subs@[j].entry as int].types@.len() by {
            if j < before.len() {
                assert(subs@[j] == before[j]);
                assert(existing.substitutions@[j].entry == before[j].entry);
            }
        }
        assert(subs_view(subs@) =~= subs_view(before).push(sub_view(s)));
        assert(ps[k as int] == params@[k as int]@);
        assert(subs_view(subs@) =~= variant_spec(entries@, ps, gused, c2).1);
    }
    GenericTypeVariant { suffix, substitutions: subs }
}

/// Every instantiation of `variants` extended by each type of the entry of parameter `k`.
fn expand_variants(
    variants: &Vec<GenericTypeVariant>,
    entries: &Vec<GenericTypeEntry>,
    params: &Vec<String>,
    used: &Vec<usize>,
    k: usize,
    Ghost(prev): Ghost<Seq<Seq<nat>>>,
) -> (r: Vec<GenericTypeVariant>)
    requires
        used@.len() == params@.len(),
        k < used@.len(),
        used@[k as int] < entries@.len(),
        forall|c: int| 0 <= c < prev.len() ==> (#[trigger] prev[c]).len() == k,
        variants_view(variants@) == variant_specs(entries@, views(params@), used_ints(used@), prev),
        forall|j: int| 0 <= j < variants@.len() ==> subs_valid(entries@, #[trigger] variants@[j].substitutions@),
    ensures
        variants_view(r@) == variant_specs(
            entries@,
            views(params@),
            used_ints(used@),
            expand(prev, entries@[used@[k as int] as int].types@.len()),
        ),
        forall|j: int| 0 <= j < r@.len() ==> subs_valid(entries@, #[trigger] r@[j].substitutions@),
{
    let ghost ps = views(params@);
    let ghost gused = used_ints(used@);
    let n = entries[used[k]].types.len();
    let mut next: Vec<GenericTypeVariant> = Vec::new();
    let mut a: usize = 0;
    assert(prev.take(0) =~= Seq::<Seq<nat>>::empty());
    assert(variants_view(next@) =~= variant_specs(entries@, ps, gused, Seq::empty()));
    assert(prev.len() == variants@.len()) by {
        assert(variants_view(variants@).len() == variants@.len());
        assert(variant_specs(entries@, ps, gused, prev).len() == prev.len());
    }
    while a < variants.len()
        invariant
            prev.len() == variants@.len(),
            ps == views(params@),
            gused == used_ints(used@),
            used@.len() == params@.len(),
            k < used@.len(),
            used@[k as int] < entries@.len(),
            n == entries@[used@[k as int] as int].types@.len(),
            forall|c: int| 0 <= c < prev.len() ==> (#[trigger] prev[c]).len() == k,
            variants_view(variants@) == variant_specs(entries@, ps, gused, prev),
            forall|j: int| 0 <= j < variants@.len() ==> subs_valid(entries@, #[trigger] variants@[j].substitutions@),
            forall|j: int| 0 <= j < next@.len() ==> subs_valid(entries@, #[trigger] next@[j].substitutions@),
            a <= variants@.len(),
            variants_view(next@) == variant_specs(
                entries@,
                ps,
                gused,
                expand(prev.take(a as int), n as nat),
            ),
        decreases variants.len() - a,
    {
        let ghost head = expand(prev.take(a as int), n as nat);
        let ghost ca = prev[a as int];
        assert(variant_view(variants@[a as int]) == variant_spec(entries@, ps, gused, ca)) by {
            assert(variants_view(variants@)[a as int] == variant_view(variants@[a as int]));
            assert(variant_specs(entries@, ps, gused, prev)[a as int] == variant_spec(
                entries@,
                ps,
                gused,
                ca,
            ));
        }
        let mut b: usize = 0;
        assert(head + row(ca, 0) =~= head);
        while b < n
            invariant
                ps == views(params@),
                gused == used_ints(used@),
                used@.len() == params@.len(),
                k < used@.len(),
                used@[k as int] < entries@.len(),
                n == entries@[used@[k as int] as int].types@.len(),
                a < variants@.len(),
                ca.len() == k,
                variant_view(variants@[a as int]) == variant_spec(entries@, ps, gused, ca),
                subs_valid(entries@, variants@[a as int].substitutions@),
                forall|j: int| 0 <= j < next@.len() ==> subs_valid(entries@, #[trigger] next@[j].substitutions@),
                b <= n,
                variants_view(next@) == variant_specs(entries@, ps, gused, head + row(ca, b as nat)),
            decreases n - b,
        {
            let v = extend_variant(&variants[a], entries, params, used, k, b, Ghost(ca));
            let ghost before = next@;
            next.push(v);
            proof {
                let xs = head + row(ca, b as nat);
                assert(head + row(ca, (b + 1) as nat) =~= xs.push(ca.push(b as nat)));
                assert(variants_view(next@) =~= variants_view(before).push(variant_view(v)));
                assert(variant_specs(entries@, ps, gused, xs.push(ca.push(b as nat)))
                    =~= variant_specs(entries@, ps, gused, xs).push(
                    variant_spec(entries@, ps, gused, ca.push(b as nat)),
                ));
            }
            b = b + 1;
        }
        proof {
            let pa = prev.take(a + 1);
            assert(pa.drop_last() =~= prev.take(a as int));
            assert(pa.last() == ca);
        }
        a = a + 1;
    }
    assert(prev.take(prev.len() as int) =~= prev);
    next
}

/// Forms the concrete instantiations of a generic type (see `generic_variants_spec`).
pub fn generic_type_variants(entries: &Vec<GenericTypeEntry>, params: &Vec<String>) -> (r: Result<
    Vec<GenericTypeVariant>,
    GenericVariantsError,
>)
    ensures
        match r {
            Ok(v) => generic_variants_spec(entries@, views(params@)) == Ok::<_, GenericVariantsError>(
                variants_view(v@),
            ),
            Err(e) => generic_variants_spec(entries@, views(params@)) == Err::<
                Seq<(Seq<char>, Seq<(Seq<char>, int, nat)>)>,
                _,
            >(e),
        },
        r matches Ok(v) ==> forall|j: int|
            0 <= j < v@.len() ==> subs_valid(entries@, #[trigger] v@[j].substitutions@),
{
    let ghost ps = views(params@);
    let ghost empty_variant = (Seq::<char>::empty(), Seq::<(Seq<char>, int, nat)>::empty());
    if entries.len() == 0 {
        let mut v: Vec<GenericTypeVariant> = Vec::new();
        v.push(GenericTypeVariant { suffix: String::new(), substitutions: Vec::new() });
        assert(subs_view(v@[0].substitutions@) =~= Seq::<(Seq<char>, int, nat)>::empty());
        assert(variants_view(v@) =~= seq![empty_variant]);
        return Ok(v);
    }
    if params.len() == 0 {
        return Err(GenericVariantsError::NotGeneric);
    }
    let used = match resolve_entries(entries, params) {
        Ok(u) => u,
        Err(e) => {
            return Err(e);
        },
    };
    let ghost gused = used_ints(used@);
    let ghost counts = counts_of(entries@, gused);
    let mut variants: Vec<GenericTypeVariant> = Vec::new();
    variants.push(GenericTypeVariant { suffix: String::new(), substitutions: Vec::new() });
    let ghost mut gcombos: Seq<Seq<nat>> = seq![Seq::empty()];
    proof {
        assert(counts.take(0) =~= Seq::<nat>::empty());
        assert(subs_view(variants@[0].substitutions@) =~= Seq::<(Seq<char>, int, nat)>::empty());
        assert(variant_spec(entries@, ps, gused, Seq::empty()).1 =~= Seq::<
            (Seq<char>, int, nat),
        >::empty());
        assert(variants_view(variants@) =~= variant_specs(entries@, ps, gused, gcombos));
    }
    let mut k: usize = 0;
    while k < used.len()
        invariant
            ps == views(params@),
            used@.len() == params@.len(),
            gused == used_ints(used@),
            counts == counts_of(entries@, gused),
            forall|m: int| 0 <= m < used@.len() ==> used@[m] < entries@.len(),
            k <= used@.len(),
            gcombos == combos(counts.take(k as int)),
            forall|c: int| 0 <= c < gcombos.len() ==> (#[trigger] gcombos[c]).len() == k,
            variants_view(variants@) == variant_specs(entries@, ps, gused, gcombos),
            forall|j: int| 0 <= j < variants@.len() ==> subs_valid(entries@, #[trigger] variants@[j].substitutions@),
        decreases used.len() - k,
    {
        let next = expand_variants(&variants, entries, params, &used, k, Ghost(gcombos));
        proof {
            let n = entries@[used@[k as int] as int].types@.len();
            let ck = counts.take(k + 1);
            assert(ck.drop_last() =~= counts.take(k as int));
            assert(ck.last() == n);
            lemma_expand_lengths(gcombos, n, k as nat);
            gcombos = expand(gcombos, n);
        }
        variants = next;
        k = k + 1;
    }
    proof {
        assert(counts.take(used@.len() as int) =~= counts);
    }
    Ok(variants)
}

/// A choice vector picks, for every position, one of that position's choices.
pub open spec fn bounded(c: Seq<nat>, counts: Seq<nat>) -> bool {
    c.len() == counts.len() && forall|p: int| 0 <= p < c.len() ==> c[p] < counts[p]
}

/// The product of the numbers of choices.
pub open spec fn product(counts: Seq<nat>) -> nat
    decreases counts.len(),
{
    if counts.len() == 0 {
        1
    } else {
        product(counts.drop_last()) * counts.last()
    }
}

proof fn lemma_expand_len(prev: Seq<Seq<nat>>, n: nat)
    ensures
        expand(prev, n).len() == prev.len() * n,
    decreases prev.len(),
{
    if prev.len() > 0 {
        lemma_expand_len(prev.drop_last(), n);
        assert(prev.len() * n == (prev.len() - 1) * n + n) by (nonlinear_arith)
            requires
                prev.len() >= 1,
        ;
    }
}

/// An element of an expansion is a vector of `prev` extended by a choice below `n`.
proof fn lemma_expand_member(prev: Seq<Seq<nat>>, n: nat, x: Seq<nat>)
    ensures
        expand(prev, n).contains(x) <==> (x.len() > 0 && prev.contains(x.drop_last()) && x.last() < n),
    decreases prev.len(),
{
    if prev.len() > 0 {
        let p = prev.drop_last();
        let head = expand(p, n);
        let tail = row(prev.last(), n);
        lemma_expand_member(p, n, x);
        assert(expand(prev, n) == head + tail);
        if expand(prev, n).contains(x) {
            let k = choose|k: int| 0 <= k < expand(prev, n).len() && expand(prev, n)[k] == x;
            if k < head.len() {
                assert(head[k] == x);
                assert(head.contains(x));
                let a = choose|a: int| 0 <= a < p.len() && p[a] == x.drop_last();
                assert(prev[a] == p[a]);
            } else {
                let j = k - head.len();
                assert(tail[j] == x);
                assert(x =~= prev.last().push(j as nat));
                assert(x.drop_last() =~= prev.last());
                assert(prev[prev.len() - 1] == x.drop_last());
            }
        }
        if x.len() > 0 && prev.contains(x.drop_last()) && x.last() < n {
            let a = choose|a: int| 0 <= a < prev.len() && prev[a] == x.drop_last();
            if a < prev.len() - 1 {
                assert(p[a] == x.drop_last());
                assert(head.contains(x));
                let k = choose|k: int| 0 <= k < head.len() && head[k] == x;
                assert(expand(prev, n)[k] == x);
            } else {
                let j = x.last() as int;
                assert(x =~= prev.last().push(x.last()));
                assert(tail[j] == x);
                assert(expand(prev, n)[head.len() + j] == x);
            }
        }
    } else {
        assert(expand(prev, n) =~= Seq::<Seq<nat>>::empty());
    }
}

proof fn lemma_expand_no_duplicates(prev: Seq<Seq<nat>>, n: nat)
    requires
        prev.no_duplicates(),
    ensures
        expand(prev, n).no_duplicates(),
    decreases prev.len(),
{
    if prev.len() > 0 {
        let p = prev.drop_last();
        assert(p.no_duplicates()) by {
            assert forall|a: int, b: int| 0 <= a < p.len() && 0 <= b < p.len() && a != b implies p[a]
                != p[b] by {
                assert(prev[a] == p[a] && prev[b] == p[b]);
            }
        }
        lemma_expand_no_duplicates(p, n);
        let head = expand(p, n);
        let tail = row(prev.last(), n);
        let e = expand(prev, n);
        assert(e == head + tail);
        assert forall|a: int, b: int| 0 <= a < e.len() && 0 <= b < e.len() && a != b implies e[a]
            != e[b] by {
            if a >= head.len() && b >= head.len() {
                let ja = a - head.len();
                let jb = b - head.len();
                assert(e[a] == prev.last().push(ja as nat));
                assert(e[b] == prev.last().push(jb as nat));
                assert(e[a].last() == ja && e[b].last() == jb);
            } else if a < head.len() && b < head.len() {
                assert(e[a] == head[a] && e[b] == head[b]);
            } else {
                let (h, t) = if a < head.len() { (a, b) } else { (b, a) };
                assert(head.contains(e[h]));
                lemma_expand_member(p, n, e[h]);
                let x = e[t];
                assert(x == prev.last().push((t - head.len()) as nat));
                assert(x.drop_last() =~= prev.last());
                if e[h] == x {
                    let k = choose|k: int| 0 <= k < p.len() && p[k] == x.drop_last();
                    assert(prev[k] == prev[prev.len() - 1]);
                }
            }
        }
    }
}

/// The instantiations are exactly the choices of one listed type per type parameter, each
/// once, and there are as many as the product of the numbers of types listed.
pub proof fn lemma_combos_exact(counts: Seq<nat>)
    ensures
        combos(counts).no_duplicates(),
        forall|c: Seq<nat>| #[trigger] combos(counts).contains(c) <==> bounded(c, counts),
        combos(counts).len() == product(counts),
    decreases counts.len(),
{
    if counts.len() == 0 {
        assert forall|c: Seq<nat>| #[trigger] combos(counts).contains(c) <==> bounded(c, counts) by {
            if bounded(c, counts) {
                assert(c =~= Seq::<nat>::empty());
                assert(combos(counts)[0] == c);
            }
        }
    } else {
        let cs = counts.drop_last();
        lemma_combos_exact(cs);
        let prev = combos(cs);
        let n = counts.last();
        lemma_expand_no_duplicates(prev, n);
        lemma_expand_len(prev, n);
        assert forall|c: Seq<nat>| #[trigger] combos(counts).contains(c) <==> bounded(c, counts) by {
            lemma_expand_member(prev, n, c);
            if c.len() > 0 {
                assert(combos(cs).contains(c.drop_last()) <==> bounded(c.drop_last(), cs));
                if bounded(c, counts) {
                    assert forall|p: int| 0 <= p < c.drop_last().len() implies c.drop_last()[p]
                        < cs[p] by {
                        assert(c[p] < counts[p]);
                    }
                }
                if bounded(c.drop_last(), cs) && c.last() < n {
                    assert forall|p: int| 0 <= p < c.len() implies c[p] < counts[p] by {
                        if p < c.len() - 1 {
                            assert(c.drop_last()[p] == c[p]);
                        }
                    }
                }
            }
        }
    }
}

/// The instantiations of a generic type are as many as the product of the numbers of types
/// listed for its parameters, and no two choose the same types.
pub proof fn lemma_instantiations_distinct(entries: Seq<GenericTypeEntry>, params: Seq<Seq<char>>)
    requires
        entries.len() > 0,
        params.len() > 0,
        param_entries(entries, params) is Ok,
    ensures
        ({
            let used = param_entries(entries, params)->Ok_0;
            let vs = generic_variants_spec(entries, params)->Ok_0;
            &&& generic_variants_spec(entries, params) is Ok
            &&& vs.len() == product(counts_of(entries, used))
            &&& forall|a: int, b: int| 0 <= a < b < vs.len() ==> vs[a].1 != vs[b].1
        }),
{
    let used = param_entries(entries, params)->Ok_0;
    let counts = counts_of(entries, used);
    let cs = combos(counts);
    lemma_combos_exact(counts);
    let vs = variant_specs(entries, params, used, cs);
    assert forall|a: int, b: int| 0 <= a < b < vs.len() implies vs[a].1 != vs[b].1 by {
        let ca = cs[a];
        let cb = cs[b];
        assert(cs.contains(ca) && cs.contains(cb));
        assert(bounded(ca, counts) && bounded(cb, counts));
        if vs[a].1 == vs[b].1 {
            assert forall|p: int| 0 <= p < ca.len() implies ca[p] == cb[p] by {
                assert(vs[a].1[p] == vs[b].1[p]);
            }
            assert(ca =~= cb);
        }
    }
}

proof fn lemma_expand_lengths(prev: Seq<Seq<nat>>, n: nat, k: nat)
    requires
        forall|c: int| 0 <= c < prev.len() ==> (#[trigger] prev[c]).len() == k,
    ensures
        forall|c: int| 0 <= c < expand(prev, n).len() ==> (#[trigger] expand(prev, n)[c]).len() == k
            + 1,
    decreases prev.len(),
{
    if prev.len() > 0 {
        let p = prev.drop_last();
        assert forall|c: int| 0 <= c < p.len() implies (#[trigger] p[c]).len() == k by {
            assert(p[c] == prev[c]);
        }
        lemma_expand_lengths(p, n, k);
        let head = expand(p, n);
        let tail = row(prev.last(), n);
        assert(expand(prev, n) == head + tail);
        assert forall|c: int| 0 <= c < expand(prev, n).len() implies (#[trigger] expand(
            prev,
            n,
        )[c]).len() == k + 1 by {
            if c < head.len() {
                assert(expand(prev, n)[c] == head[c]);
            } else {
                assert(expand(prev, n)[c] == tail[c - head.len()]);
            }
        }
    }
}

proof fn lemma_param_entries_error_extends(
    entries: Seq<GenericTypeEntry>,
    params: Seq<Seq<char>>,
    k: int,
)
    requires
        0 <= k <= params.len(),
        param_entries(entries, params.take(k)) is Err,
    ensures
        param_entries(entries, params) == param_entries(entries, params.take(k)),
    decreases params.len() - k,
{
    if k < params.len() {
        assert(params.take(k + 1).drop_last() =~= params.take(k));
        lemma_param_entries_error_extends(entries, params, k + 1);
    } else {
        assert(params.take(k) =~= params);
    }
}

} // verus!
