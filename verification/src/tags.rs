//! Protobuf field tags: automatic assignment for message fields, and the tags of enum variants.

use vstd::prelude::*;

use crate::enums::{find_marked_default_variant, marked_default_spec};
use crate::model::{FieldModel, FieldsModel, TagLiteral, VariantModel};
use crate::text::{parse_usize, parse_usize_spec};

verus! {

broadcast use vstd::seq_lib::group_seq_properties;

/// The tags as integers; fields without a tag count as 0, which no tag equals.
pub open spec fn tag_ints(r: Seq<Option<u32>>) -> Seq<int> {
    r.map_values(|o: Option<u32>| match o {
        Some(t) => t as int,
        None => 0int,
    })
}

/// The first positive integer, from `t` on, that `used` does not hold (searching no further than
/// one past its length).
pub open spec fn first_unused_from(used: Seq<int>, t: int) -> int
    decreases used.len() + 1 - t,
{
    if t > used.len() || !used.contains(t) {
        t
    } else {
        first_unused_from(used, t + 1)
    }
}

/// The least positive integer that `used` does not hold.
pub open spec fn least_unused(used: Seq<int>) -> int {
    first_unused_from(used, 1)
}

/// The tags of message fields, in order: a skipped field gets none, a `tag = N` option gives
/// `N`, and every other field gets the least positive tag that no earlier field has.
pub open spec fn assigned_tags(fs: Seq<FieldModel>) -> Seq<Option<u32>>
    decreases fs.len(),
{
    if fs.len() == 0 {
        Seq::empty()
    } else {
        let prev = assigned_tags(fs.drop_last());
        let c = fs.last().config;
        if c.skip {
            prev.push(None)
        } else {
            match c.custom_tag {
                Some(t) => prev.push(Some(t as u32)),
                None => prev.push(Some(least_unused(tag_ints(prev)) as u32)),
            }
        }
    }
}

/// Every `tag = N` option of a kept field is between 1 and `u32::MAX` and differs from the
/// tags of all earlier fields.
pub open spec fn tags_assignable(fs: Seq<FieldModel>) -> bool {
    forall|k: int|
        #![trigger fs[k]]
        0 <= k < fs.len() && !fs[k].config.skip && fs[k].config.custom_tag is Some ==> {
            let t = fs[k].config.custom_tag->0;
            &&& 1 <= t <= u32::MAX
            &&& !tag_ints(assigned_tags(fs.take(k))).contains(t as int)
        }
}

/// A sequence holding every integer of `1..=m` is at least `m` long.
pub proof fn lemma_range_covered_bound(s: Seq<int>, m: int)
    requires
        0 <= m,
        forall|u: int| 1 <= u <= m ==> s.contains(u),
    ensures
        m <= s.len(),
{
    let range = vstd::set_lib::set_int_range(1, m + 1);
    vstd::set_lib::lemma_int_range(1, m + 1);
    assert(range.subset_of(s.to_set())) by {
        assert forall|u: int| range.contains(u) implies s.to_set().contains(u) by {
            assert(s.contains(u));
        }
    }
    s.lemma_cardinality_of_set();
    vstd::set_lib::lemma_len_subset(range, s.to_set());
}

proof fn lemma_first_unused_props(s: Seq<int>, t: int)
    requires
        1 <= t,
        forall|u: int| 1 <= u < t ==> s.contains(u),
    ensures
        first_unused_from(s, t) >= t,
        !s.contains(first_unused_from(s, t)),
        forall|u: int| 1 <= u < first_unused_from(s, t) ==> s.contains(u),
        first_unused_from(s, t) <= s.len() + 1 || first_unused_from(s, t) == t,
    decreases s.len() + 1 - t,
{
    if t > s.len() {
        if s.contains(t) {
            lemma_range_covered_bound(s, t);
        }
    } else if !s.contains(t) {
    } else {
        lemma_first_unused_props(s, t + 1);
    }
}

/// The least unused tag is positive, unused, has every smaller positive integer used, and is at
/// most one past the number of tags.
pub proof fn lemma_least_unused(s: Seq<int>)
    ensures
        least_unused(s) >= 1,
        least_unused(s) <= s.len() + 1,
        !s.contains(least_unused(s)),
        forall|u: int| 1 <= u < least_unused(s) ==> s.contains(u),
{
    lemma_first_unused_props(s, 1);
}

proof fn lemma_first_unused_is(s: Seq<int>, t: int, next: int)
    requires
        1 <= t <= next,
        !s.contains(next),
        forall|u: int| 1 <= u < next ==> s.contains(u),
    ensures
        first_unused_from(s, t) == next,
    decreases next - t,
{
    if t < next {
        lemma_range_covered_bound(s, t);
        lemma_first_unused_is(s, t + 1, next);
    }
}

/// The value that is unused while every smaller positive integer is used is the least unused.
pub proof fn lemma_least_unused_is(s: Seq<int>, next: int)
    requires
        1 <= next,
        !s.contains(next),
        forall|u: int| 1 <= u < next ==> s.contains(u),
    ensures
        least_unused(s) == next,
{
    lemma_first_unused_is(s, 1, next);
}

proof fn lemma_assigned_len(fs: Seq<FieldModel>)
    ensures
        assigned_tags(fs).len() == fs.len(),
    decreases fs.len(),
{
    if fs.len() > 0 {
        lemma_assigned_len(fs.drop_last());
    }
}

fn tag_used(tags: &Vec<Option<u32>>, t: u32) -> (r: bool)
    requires
        t >= 1,
    ensures
        r == tag_ints(tags@).contains(t as int),
{
    let mut i: usize = 0;
    while i < tags.len()
        invariant
            t >= 1,
            i <= tags@.len(),
            forall|j: int| 0 <= j < i ==> tag_ints(tags@)[j] != t as int,
        decreases tags.len() - i,
    {
        match tags[i] {
            Some(x) => {
                if x == t {
                    assert(tag_ints(tags@)[i as int] == t as int);
                    return true;
                }
            },
            None => {},
        }
        assert(tag_ints(tags@)[i as int] != t as int);
        i = i + 1;
    }
    false
}

/// Every field has an entry, and exactly the skipped fields have none.
pub proof fn lemma_assigned_some(fs: Seq<FieldModel>)
    ensures
        assigned_tags(fs).len() == fs.len(),
        forall|k: int|
            0 <= k < fs.len() ==> (#[trigger] assigned_tags(fs)[k] is None) == fs[k].config.skip,
        forall|k: int| 0 <= k < fs.len() ==> #[trigger] assigned_tags(fs.take(k)) == assigned_tags(fs).take(k),
    decreases fs.len(),
{
    lemma_assigned_len(fs);
    if fs.len() > 0 {
        let p = fs.drop_last();
        lemma_assigned_some(p);
        assert forall|k: int| 0 <= k < fs.len() implies #[trigger] assigned_tags(fs.take(k))
            == assigned_tags(fs).take(k) by {
            if k < p.len() {
                assert(fs.take(k) =~= p.take(k));
                assert(assigned_tags(p).take(k) =~= assigned_tags(fs).take(k));
            } else {
                assert(fs.take(k) =~= p);
                assert(assigned_tags(fs).take(k) =~= assigned_tags(p));
            }
        }
    }
}

fn tag_used_at(tags: &Vec<Option<u32>>, t: usize) -> (r: bool)
    requires
        t >= 1,
    ensures
        r == tag_ints(tags@).contains(t as int),
{
    let mut i: usize = 0;
    while i < tags.len()
        invariant
            t >= 1,
            i <= tags@.len(),
            forall|j: int| 0 <= j < i ==> tag_ints(tags@)[j] != t as int,
        decreases tags.len() - i,
    {
        match tags[i] {
            Some(x) => {
                if x as usize == t {
                    assert(tag_ints(tags@)[i as int] == t as int);
                    return true;
                }
            },
            None => {},
        }
        assert(tag_ints(tags@)[i as int] != t as int);
        i = i + 1;
    }
    false
}

/// The tags of message fields (see `assigned_tags`), for any fields: the tags the encoding uses
/// wherever `assign_tags` accepts them.
pub fn field_tags(fields: &Vec<FieldModel>) -> (tags: Vec<Option<u32>>)
    ensures
        tags@ == assigned_tags(fields@),
{
    let mut tags: Vec<Option<u32>> = Vec::new();
    let mut next: usize = 1;
    let n = fields.len();
    let mut i: usize = 0;
    while i < n
        invariant
            n == fields@.len(),
            i <= n,
            tags@ == assigned_tags(fields@.take(i as int)),
            tags@.len() == i,
            1 <= next <= i + 1,
            forall|u: int| 1 <= u < next ==> tag_ints(tags@).contains(u),
        decreases n - i,
    {
        let f = &fields[i];
        let ghost q = fields@.take(i + 1);
        assert(q.drop_last() =~= fields@.take(i as int));
        assert(q.last() == fields@[i as int]);
        let ghost prev = tags@;
        if f.config.skip {
            tags.push(None);
        } else {
            match f.config.custom_tag {
                Some(t) => {
                    tags.push(Some(#[verifier::truncate] (t as u32)));
                },
                None => {
                    while tag_used_at(&tags, next)
                        invariant
                            tags@ == prev,
                            prev.len() == i,
                            i < n,
                            1 <= next <= i + 1,
                            forall|u: int| 1 <= u < next ==> tag_ints(prev).contains(u),
                        decreases i + 1 - next,
                    {
                        proof {
                            assert(forall|u: int| 1 <= u <= next ==> tag_ints(prev).contains(u));
                            lemma_range_covered_bound(tag_ints(prev), next as int);
                        }
                        next = next + 1;
                    }
                    proof {
                        lemma_least_unused_is(tag_ints(prev), next as int);
                    }
                    tags.push(Some(#[verifier::truncate] (next as u32)));
                },
            }
        }
        proof {
            assert(tags@ == assigned_tags(q));
            assert forall|u: int| 1 <= u < next implies tag_ints(tags@).contains(u) by {
                assert(tag_ints(prev).contains(u));
                let k = choose|k: int| 0 <= k < tag_ints(prev).len() && tag_ints(prev)[k] == u;
                assert(tags@[k] == prev[k]);
                assert(tag_ints(tags@)[k] == u);
            }
        }
        i = i + 1;
    }
    assert(fields@.take(n as int) =~= fields@);
    tags
}

/// Assigns the tags of message fields (see `assigned_tags`).
pub fn assign_tags(fields: &Vec<FieldModel>) -> (tags: Vec<Option<u32>>)
    requires
        fields@.len() < u32::MAX,
        tags_assignable(fields@),
    ensures
        tags@ == assigned_tags(fields@),
{
    match try_assign_tags(fields) {
        Some(tags) => tags,
        None => {
            assert(false);
            Vec::new()
        },
    }
}

/// Assigns the tags of message fields (see `assigned_tags`), or gives `None` when a `tag = N`
/// option is 0, beyond `u32::MAX` or taken by an earlier field, or when there are too many
/// fields to number.
pub fn try_assign_tags(fields: &Vec<FieldModel>) -> (r: Option<Vec<Option<u32>>>)
    ensures
        r is Some <==> fields@.len() < u32::MAX && tags_assignable(fields@),
        r matches Some(tags) ==> tags@ == assigned_tags(fields@),
{
    if fields.len() >= 4294967295usize {
        return None;
    }
    let mut tags: Vec<Option<u32>> = Vec::new();
    let mut next: u32 = 1;
    let n = fields.len();
    let mut i: usize = 0;
    while i < n
        invariant
            n == fields@.len(),
            n < u32::MAX,
            i <= n,
            forall|k: int|
                #![trigger fields@[k]]
                0 <= k < i && !fields@[k].config.skip && fields@[k].config.custom_tag is Some ==> {
                    let t = fields@[k].config.custom_tag->0;
                    &&& 1 <= t <= u32::MAX
                    &&& !tag_ints(assigned_tags(fields@.take(k))).contains(t as int)
                },
            tags@ == assigned_tags(fields@.take(i as int)),
            tags@.len() == i,
            1 <= next <= i + 1,
            forall|u: int| 1 <= u < next ==> tag_ints(tags@).contains(u),
        decreases n - i,
    {
        let f = &fields[i];
        let ghost q = fields@.take(i + 1);
        assert(q.drop_last() =~= fields@.take(i as int));
        assert(q.last() == fields@[i as int]);
        let ghost prev = tags@;
        if f.config.skip {
            tags.push(None);
        } else {
            match f.config.custom_tag {
                Some(t) => {
                    if t == 0 || t > 4294967295usize || tag_used(&tags, t as u32) {
                        assert(!tags_assignable(fields@));
                        return None;
                    }
                    tags.push(Some(t as u32));
                },
                None => {
                    while tag_used(&tags, next)
                        invariant
                            tags@ == prev,
                            prev.len() == i,
                            i < n,
                            n < u32::MAX,
                            1 <= next <= i + 1,
                            forall|u: int| 1 <= u < next ==> tag_ints(prev).contains(u),
                        decreases i + 1 - next,
                    {
                        proof {
                            assert(forall|u: int| 1 <= u <= next ==> tag_ints(prev).contains(u));
                            lemma_range_covered_bound(tag_ints(prev), next as int);
                        }
                        next = next + 1;
                    }
                    proof {
                        lemma_least_unused_is(tag_ints(prev), next as int);
                    }
                    tags.push(Some(next));
                    next = next + 1;
                },
            }
        }
        proof {
            assert(tags@ == assigned_tags(q));
            assert forall|u: int| 1 <= u < next implies tag_ints(tags@).contains(u) by {
                if tag_ints(prev).contains(u) {
                    let k = choose|k: int| 0 <= k < tag_ints(prev).len() && tag_ints(prev)[k] == u;
                    assert(tag_ints(tags@)[k] == u);
                } else {
                    assert(tag_ints(tags@)[i as int] == u);
                }
            }
        }
        i = i + 1;
    }
    assert(fields@.take(n as int) =~= fields@);
    Some(tags)
}

/// Tag assignment, for fields whose `tag = N` options are assignable: skipped fields and only they
/// get no tag; every tag is positive; `tag = N` options are kept; the tags are pairwise
/// distinct; and every automatic tag is the least positive integer that no earlier field has.
pub proof fn lemma_assigned_tags_valid(fs: Seq<FieldModel>)
    requires
        fs.len() < u32::MAX,
        tags_assignable(fs),
    ensures
        assigned_tags(fs).len() == fs.len(),
        forall|k: int|
            0 <= k < fs.len() ==> (#[trigger] assigned_tags(fs)[k] is None) == fs[k].config.skip,
        forall|k: int|
            0 <= k < fs.len() && assigned_tags(fs)[k] is Some ==> #[trigger] assigned_tags(
                fs,
            )[k]->0 >= 1,
        forall|k: int|
            0 <= k < fs.len() && !fs[k].config.skip && fs[k].config.custom_tag is Some
                ==> #[trigger] assigned_tags(fs)[k] == Some(fs[k].config.custom_tag->0 as u32),
        forall|j: int, k: int|
            0 <= j < k < fs.len() && assigned_tags(fs)[j] is Some && assigned_tags(fs)[k] is Some
                ==> #[trigger] assigned_tags(fs)[j] != #[trigger] assigned_tags(fs)[k],
        forall|k: int|
            0 <= k < fs.len() && !fs[k].config.skip && fs[k].config.custom_tag is None ==> forall|
                u: int,
            |
                1 <= u < (#[trigger] assigned_tags(fs)[k])->0 ==> #[trigger] tag_ints(
                    assigned_tags(fs).take(k),
                ).contains(u),
    decreases fs.len(),
{
    lemma_assigned_len(fs);
    if fs.len() > 0 {
        let p = fs.drop_last();
        let n = fs.len() - 1;
        assert forall|k: int| 0 <= k < p.len() implies #[trigger] p[k] == fs[k] by {}
        assert(tags_assignable(p)) by {
            assert forall|k: int|
                #![trigger p[k]]
                0 <= k < p.len() && !p[k].config.skip && p[k].config.custom_tag is Some implies {
                let t = p[k].config.custom_tag->0;
                &&& 1 <= t <= u32::MAX
                &&& !tag_ints(assigned_tags(p.take(k))).contains(t as int)
            } by {
                assert(fs[k] == p[k]);
                assert(p.take(k) =~= fs.take(k));
            }
        }
        lemma_assigned_len(p);
        lemma_assigned_tags_valid(p);
        let prev = assigned_tags(p);
        let r = assigned_tags(fs);
        assert(fs.take(n) =~= p);
        assert forall|k: int| 0 <= k < n implies #[trigger] r[k] == prev[k] by {}
        assert forall|k: int| 0 <= k < n implies r.take(k) =~= prev.take(k) by {}
        let c = fs[n].config;
        if !c.skip {
            let t = r[n]->0 as int;
            match c.custom_tag {
                Some(ct) => {
                    assert(!tag_ints(prev).contains(ct as int));
                },
                None => {
                    lemma_least_unused(tag_ints(prev));
                    assert(least_unused(tag_ints(prev)) <= n + 1);
                    assert(r.take(n) =~= prev);
                },
            }
            assert(!tag_ints(prev).contains(t));
            assert forall|j: int| 0 <= j < n && r[j] is Some implies r[j] != r[n] by {
                if r[j] == r[n] {
                    assert(tag_ints(prev)[j] == t);
                }
            }
        }
    }
}

/// Why the tag of an enum variant could not be resolved.
pub enum VariantTagError {
    /// More than one `tag = ...` option on the variant.
    DuplicateTagAttribute,
    /// An integer literal that does not fit in `usize`.
    IntegerOutOfRange,
    /// A string literal whose text is not a decimal number.
    NotPositiveInteger,
    /// A literal that is neither an integer nor a string.
    NotInteger,
    /// The tag is 0.
    Zero,
    /// The tag does not fit in `u32`.
    Overflow,
}

/// The value a `tag = ...` literal gives, or why it gives none.
pub open spec fn tag_literal_value(lit: TagLiteral) -> Result<usize, VariantTagError> {
    match lit {
        TagLiteral::Int(Some(v)) => Ok(v),
        TagLiteral::Int(None) => Err(VariantTagError::IntegerOutOfRange),
        TagLiteral::Str(s) => match parse_usize_spec(s@) {
            Some(v) => Ok(v),
            None => Err(VariantTagError::NotPositiveInteger),
        },
        TagLiteral::Other => Err(VariantTagError::NotInteger),
    }
}

/// The tag of a variant at a position whose default tag is `default`: the literal of its single
/// `tag = ...` option, or the default; it must be between 1 and `u32::MAX`.
pub open spec fn variant_tag_spec(attrs: Seq<TagLiteral>, default: usize) -> Result<
    u32,
    VariantTagError,
> {
    let custom = if attrs.len() == 0 {
        Ok(None)
    } else {
        match tag_literal_value(attrs[0]) {
            Ok(v) => if attrs.len() > 1 {
                Err(VariantTagError::DuplicateTagAttribute)
            } else {
                Ok(Some(v))
            },
            Err(e) => Err(e),
        }
    };
    match custom {
        Err(e) => Err(e),
        Ok(c) => {
            let tag = match c {
                Some(v) => v,
                None => default,
            };
            if tag == 0 {
                Err(VariantTagError::Zero)
            } else if tag > u32::MAX {
                Err(VariantTagError::Overflow)
            } else {
                Ok(tag as u32)
            }
        },
    }
}

fn tag_literal(lit: &TagLiteral) -> (r: Result<usize, VariantTagError>)
    ensures
        r == tag_literal_value(*lit),
{
    match lit {
        TagLiteral::Int(Some(v)) => Ok(*v),
        TagLiteral::Int(None) => Err(VariantTagError::IntegerOutOfRange),
        TagLiteral::Str(s) => match parse_usize(s.as_str()) {
            Some(v) => Ok(v),
            None => Err(VariantTagError::NotPositiveInteger),
        },
        TagLiteral::Other => Err(VariantTagError::NotInteger),
    }
}

/// Resolves the tag of an enum variant (see `variant_tag_spec`).
pub fn resolve_variant_tag(variant: &VariantModel, default: usize) -> (r: Result<
    u32,
    VariantTagError,
>)
    ensures
        r == variant_tag_spec(variant.tag_attrs@, default),
{
    let mut custom: Option<usize> = None;
    if variant.tag_attrs.len() > 0 {
        match tag_literal(&variant.tag_attrs[0]) {
            Ok(v) => {
                if variant.tag_attrs.len() > 1 {
                    return Err(VariantTagError::DuplicateTagAttribute);
                }
                custom = Some(v);
            },
            Err(e) => {
                return Err(e);
            },
        }
    }
    let tag = match custom {
        Some(v) => v,
        None => default,
    };
    if tag == 0 {
        return Err(VariantTagError::Zero);
    }
    if tag > 0xFFFF_FFFFusize {
        return Err(VariantTagError::Overflow);
    }
    Ok(tag as u32)
}

/// Why the variants of an enum with data were refused.
pub enum VariantError {
    Tag(VariantTagError),
    /// Two variants resolve to the same tag.
    DuplicateTag(u32),
    /// A tuple variant without exactly one field.
    TupleArity,
    /// A tuple variant's field tag is 0.
    FieldTagZero,
    /// A tuple variant's field tag does not fit in `u32`.
    FieldTagOverflow,
}

/// The tags found for one variant: its own tag, and the tags of its fields.
pub struct VariantTags {
    pub tag: u32,
    pub field_tags: Vec<Option<u32>>,
}

/// The field tags of one variant, or why they are refused: a tuple variant has one field, tagged
/// by its `tag = N` option or 1 unless skipped; a struct variant's fields are assigned as message
/// fields; a unit variant has none.
pub open spec fn variant_field_tags_spec(fields: FieldsModel) -> Result<
    Seq<Option<u32>>,
    VariantError,
> {
    match fields {
        FieldsModel::Unit => Ok(Seq::empty()),
        FieldsModel::Unnamed(fs) => if fs@.len() != 1 {
            Err(VariantError::TupleArity)
        } else if fs@[0].config.skip {
            Ok(seq![None])
        } else {
            let t = match fs@[0].config.custom_tag {
                Some(t) => t,
                None => 1,
            };
            if t == 0 {
                Err(VariantError::FieldTagZero)
            } else if t > u32::MAX {
                Err(VariantError::FieldTagOverflow)
            } else {
                Ok(seq![Some(t as u32)])
            }
        },
        FieldsModel::Named(fs) => Ok(assigned_tags(fs@)),
    }
}

/// The struct variants' fields can be assigned tags.
pub open spec fn struct_variants_assignable(vs: Seq<VariantModel>) -> bool {
    forall|i: int|
        0 <= i < vs.len() ==> match #[trigger] vs[i].fields {
            FieldsModel::Named(fs) => fs@.len() < u32::MAX && tags_assignable(fs@),
            _ => true,
        }
}

/// The tags of the first `n` variants, or the first refusal: variant `i` defaults to tag `i + 1`,
/// its tag must differ from those of the variants before it, and its fields must be valid.
pub open spec fn variant_tags_spec(vs: Seq<VariantModel>) -> Result<
    Seq<(u32, Seq<Option<u32>>)>,
    VariantError,
>
    decreases vs.len(),
{
    if vs.len() == 0 {
        Ok(Seq::empty())
    } else {
        match variant_tags_spec(vs.drop_last()) {
            Err(e) => Err(e),
            Ok(prev) => match variant_tag_spec(vs.last().tag_attrs@, vs.len() as usize) {
                Err(e) => Err(VariantError::Tag(e)),
                Ok(tag) => if exists|j: int| 0 <= j < prev.len() && prev[j].0 == tag {
                    Err(VariantError::DuplicateTag(tag))
                } else {
                    match variant_field_tags_spec(vs.last().fields) {
                        Err(e) => Err(e),
                        Ok(ft) => Ok(prev.push((tag, ft))),
                    }
                },
            },
        }
    }
}

/// The (tag, field tags) pairs of a list of results.
pub open spec fn tags_view(v: Seq<VariantTags>) -> Seq<(u32, Seq<Option<u32>>)> {
    v.map_values(|t: VariantTags| (t.tag, t.field_tags@))
}

/// Resolves the tags of an enum's variants and their fields (see `variant_tags_spec`).
pub fn collect_variant_tags(variants: &Vec<VariantModel>) -> (r: Result<
    Vec<VariantTags>,
    VariantError,
>)
    requires
        variants@.len() < usize::MAX,
        struct_variants_assignable(variants@),
    ensures
        match r {
            Ok(v) => variant_tags_spec(variants@) == Ok::<_, VariantError>(tags_view(v@)),
            Err(e) => variant_tags_spec(variants@) == Err::<Seq<(u32, Seq<Option<u32>>)>, _>(e),
        },
{
    let mut out: Vec<VariantTags> = Vec::new();
    let n = variants.len();
    assert(variants@.take(0) =~= Seq::<VariantModel>::empty());
    assert(tags_view(out@) =~= Seq::<(u32, Seq<Option<u32>>)>::empty());
    let mut i: usize = 0;
    while i < n
        invariant
            n == variants@.len(),
            n < usize::MAX,
            i <= n,
            struct_variants_assignable(variants@),
            variant_tags_spec(variants@.take(i as int)) == Ok::<_, VariantError>(tags_view(out@)),
        decreases n - i,
    {
        let v = &variants[i];
        let ghost q = variants@.take(i + 1);
        assert(q.drop_last() =~= variants@.take(i as int));
        assert(q.last() == variants@[i as int]);
        let tag = match resolve_variant_tag(v, i + 1) {
            Ok(t) => t,
            Err(e) => {
                proof {
                    lemma_tags_error_extends(variants@, i as int + 1);
                }
                return Err(VariantError::Tag(e));
            },
        };
        let mut j: usize = 0;
        while j < out.len()
            invariant
                n == variants@.len(),
                i < n,
                variant_tags_spec(variants@.take(i as int)) == Ok::<_, VariantError>(
                    tags_view(out@),
                ),
                variant_tag_spec(variants@[i as int].tag_attrs@, (i + 1) as usize) == Ok::<
                    u32,
                    VariantTagError,
                >(tag),
                q == variants@.take(i + 1),
                q.drop_last() == variants@.take(i as int),
                q.last() == variants@[i as int],
                j <= out@.len(),
                forall|k: int| 0 <= k < j ==> tags_view(out@)[k].0 != tag,
            decreases out.len() - j,
        {
            if out[j].tag == tag {
                proof {
                    assert(tags_view(out@)[j as int].0 == tag);
                    lemma_tags_error_extends(variants@, i as int + 1);
                }
                return Err(VariantError::DuplicateTag(tag));
            }
            j = j + 1;
        }
        let field_tags = match &v.fields {
            FieldsModel::Unit => Vec::new(),
            FieldsModel::Unnamed(fs) => {
                if fs.len() != 1 {
                    proof {
                        lemma_tags_error_extends(variants@, i as int + 1);
                    }
                    return Err(VariantError::TupleArity);
                }
                if fs[0].config.skip {
                    let mut ft = Vec::new();
                    ft.push(None);
                    ft
                } else {
                    let t = match fs[0].config.custom_tag {
                        Some(t) => t,
                        None => 1,
                    };
                    if t == 0 {
                        proof {
                            lemma_tags_error_extends(variants@, i as int + 1);
                        }
                        return Err(VariantError::FieldTagZero);
                    }
                    if t > 0xFFFF_FFFFusize {
                        proof {
                            lemma_tags_error_extends(variants@, i as int + 1);
                        }
                        return Err(VariantError::FieldTagOverflow);
                    }
                    let mut ft = Vec::new();
                    ft.push(Some(t as u32));
                    ft
                }
            },
            FieldsModel::Named(fs) => {
                assert(match variants@[i as int].fields {
                    FieldsModel::Named(fs) => fs@.len() < u32::MAX && tags_assignable(fs@),
                    _ => true,
                });
                assign_tags(fs)
            },
        };
        proof {
            assert(variant_field_tags_spec(v.fields) == Ok::<_, VariantError>(field_tags@)) by {
                match v.fields {
                    FieldsModel::Unit => {
                        assert(field_tags@ =~= Seq::<Option<u32>>::empty());
                    },
                    FieldsModel::Unnamed(fs) => {},
                    FieldsModel::Named(fs) => {},
                }
            }
            assert(!exists|k: int| 0 <= k < tags_view(out@).len() && tags_view(out@)[k].0 == tag);
        }
        let ghost before = out@;
        out.push(VariantTags { tag, field_tags });
        assert(tags_view(out@) =~= tags_view(before).push((tag, field_tags@)));
        i = i + 1;
    }
    assert(variants@.take(n as int) =~= variants@);
    Ok(out)
}

/// Once the tags of a prefix are refused, so are the tags of every longer prefix.
proof fn lemma_tags_error_extends(vs: Seq<VariantModel>, k: int)
    requires
        0 <= k <= vs.len(),
        variant_tags_spec(vs.take(k)) is Err,
    ensures
        variant_tags_spec(vs) == variant_tags_spec(vs.take(k)),
    decreases vs.len() - k,
{
    if k < vs.len() {
        let q = vs.take(k + 1);
        assert(q.drop_last() =~= vs.take(k));
        lemma_tags_error_extends(vs, k + 1);
    } else {
        assert(vs.take(k) =~= vs);
    }
}

/// Why a oneof enum cannot be laid out.
pub enum ComplexEnumError {
    /// More than one variant is marked `#[default]`.
    MultipleDefaults,
    Variant(VariantError),
    /// The enum has no variant.
    Empty,
}

/// The layout of a oneof enum: its default variant and the tags of its variants and fields.
pub struct ComplexEnumLayout {
    pub default_index: usize,
    pub tags: Vec<VariantTags>,
}

/// The default variant of a oneof enum: the one marked `#[default]`, else the first.
pub open spec fn complex_default_index(vs: Seq<VariantModel>) -> usize {
    match marked_default_spec(vs) {
        Ok(Some(k)) => k,
        _ => 0,
    }
}

/// Lays out a oneof enum: the `#[default]` marks are checked first, then the tags, then that
/// there is a variant.
pub fn complex_enum_layout(variants: &Vec<VariantModel>) -> (r: Result<ComplexEnumLayout, ComplexEnumError>)
    requires
        variants@.len() < usize::MAX,
        struct_variants_assignable(variants@),
    ensures
        marked_default_spec(variants@) is Err <==> r matches Err(ComplexEnumError::MultipleDefaults),
        marked_default_spec(variants@) is Ok ==> match variant_tags_spec(variants@) {
            Err(e) => r == Err::<ComplexEnumLayout, _>(ComplexEnumError::Variant(e)),
            Ok(t) => if variants@.len() == 0 {
                r matches Err(ComplexEnumError::Empty)
            } else {
                r matches Ok(l) && l.default_index == complex_default_index(variants@)
                    && l.default_index < variants@.len() && tags_view(l.tags@) == t
            },
        },
{
    let marked = match find_marked_default_variant(variants) {
        Ok(m) => m,
        Err(_) => {
            return Err(ComplexEnumError::MultipleDefaults);
        },
    };
    let tags = match collect_variant_tags(variants) {
        Ok(t) => t,
        Err(e) => {
            return Err(ComplexEnumError::Variant(e));
        },
    };
    if variants.len() == 0 {
        return Err(ComplexEnumError::Empty);
    }
    proof {
        crate::enums::lemma_marked_in_range(variants@);
    }
    let default_index = match marked {
        Some(k) => k,
        None => 0,
    };
    Ok(ComplexEnumLayout { default_index, tags })
}

} // verus!
