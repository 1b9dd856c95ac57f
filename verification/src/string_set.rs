//! A set of strings kept in ascending order without repetition.

use vstd::prelude::*;

use crate::order::{lemma_lt_irreflexive, lemma_lt_total, lemma_lt_transitive, seq_lt, str_lt};
use crate::text::{str_eq, views};

verus! {

broadcast use vstd::std_specs::vec::group_vec_axioms;

/// Every element comes strictly before every later one.
pub open spec fn strictly_sorted(s: Seq<Seq<char>>) -> bool {
    forall|i: int, j: int| 0 <= i < j < s.len() ==> seq_lt(#[trigger] s[i], #[trigger] s[j])
}

/// A strictly sorted sequence holds nothing twice.
pub proof fn lemma_sorted_no_duplicates(s: Seq<Seq<char>>)
    requires
        strictly_sorted(s),
    ensures
        s.no_duplicates(),
{
    assert forall|i: int, j: int| 0 <= i < s.len() && 0 <= j < s.len() && i != j implies s[i]
        != s[j] by {
        if i < j {
            lemma_lt_irreflexive(s[i]);
        } else {
            lemma_lt_irreflexive(s[j]);
        }
    }
}

/// Two strictly sorted sequences with the same elements are equal.
pub proof fn lemma_sorted_unique(s: Seq<Seq<char>>, t: Seq<Seq<char>>)
    requires
        strictly_sorted(s),
        strictly_sorted(t),
        s.to_set() == t.to_set(),
    ensures
        s == t,
    decreases s.len() + t.len(),
{
    if s.len() == 0 {
        if t.len() > 0 {
            assert(t.to_set().contains(t[0]));
        }
        assert(s =~= t);
    } else if t.len() == 0 {
        assert(s.to_set().contains(s[0]));
    } else {
        // The first elements are the least of the common set.
        assert(s.to_set().contains(s[0]));
        assert(t.to_set().contains(t[0]));
        let i = choose|i: int| 0 <= i < t.len() && t[i] == s[0];
        let j = choose|j: int| 0 <= j < s.len() && s[j] == t[0];
        if s[0] != t[0] {
            assert(i > 0 && j > 0);
            assert(seq_lt(t[0], t[i]));
            assert(seq_lt(s[0], s[j]));
            lemma_lt_transitive(s[0], t[0], s[0]);
            lemma_lt_irreflexive(s[0]);
        }
        let s1 = s.drop_first();
        let t1 = t.drop_first();
        assert forall|x: Seq<char>| s1.to_set().contains(x) implies t1.to_set().contains(x) by {
            let k = choose|k: int| 0 <= k < s1.len() && s1[k] == x;
            assert(s.to_set().contains(x));
            let m = choose|m: int| 0 <= m < t.len() && t[m] == x;
            if m == 0 {
                assert(seq_lt(s[0], s[k + 1]));
                lemma_lt_irreflexive(s[0]);
            }
            assert(t1[m - 1] == x);
        }
        assert forall|x: Seq<char>| t1.to_set().contains(x) implies s1.to_set().contains(x) by {
            let k = choose|k: int| 0 <= k < t1.len() && t1[k] == x;
            assert(t.to_set().contains(x));
            let m = choose|m: int| 0 <= m < s.len() && s[m] == x;
            if m == 0 {
                assert(seq_lt(t[0], t[k + 1]));
                lemma_lt_irreflexive(t[0]);
            }
            assert(s1[m - 1] == x);
        }
        assert(s1.to_set() =~= t1.to_set());
        lemma_sorted_unique(s1, t1);
        assert(s =~= seq![s[0]] + s1);
        assert(t =~= seq![t[0]] + t1);
    }
}

/// The number of elements of a sorted list that come before `v`, and whether `v` is the next one.
pub(crate) fn sorted_position(items: &Vec<String>, v: &str) -> (r: (usize, bool))
    requires
        strictly_sorted(views(items@)),
    ensures
        r.0 <= items@.len(),
        forall|k: int| 0 <= k < r.0 ==> seq_lt(#[trigger] views(items@)[k], v@),
        forall|k: int|
            r.0 <= k < items@.len() ==> seq_lt(v@, #[trigger] views(items@)[k]) || views(items@)[k]
                == v@,
        r.1 == (r.0 < items@.len() && views(items@)[r.0 as int] == v@),
        r.1 == views(items@).contains(v@),
{
    let ghost e = views(items@);
    let n = items.len();
    let mut i: usize = 0;
    let mut stop = false;
    while i < n && !stop
        invariant
            n == items@.len(),
            e == views(items@),
            strictly_sorted(e),
            i <= n,
            forall|k: int| 0 <= k < i ==> seq_lt(#[trigger] e[k], v@),
            stop ==> i < n && !seq_lt(e[i as int], v@),
        decreases n - i + (if stop { 0int } else { 1int }),
    {
        assert(e[i as int] == items@[i as int]@);
        if str_lt(items[i].as_str(), v) {
            i = i + 1;
        } else {
            stop = true;
        }
    }
    let found = i < n && str_eq(items[i].as_str(), v);
    proof {
        if i < n {
            assert(e[i as int] == items@[i as int]@);
        }
        assert forall|k: int| i <= k < n implies seq_lt(v@, #[trigger] e[k]) || e[k] == v@ by {
            lemma_lt_total(e[i as int], v@);
            if k > i && e[i as int] != v@ {
                lemma_lt_transitive(v@, e[i as int], e[k]);
            }
            if k > i && e[i as int] == v@ {
                assert(seq_lt(e[i as int], e[k]));
            }
        }
        if e.contains(v@) {
            let k = choose|k: int| 0 <= k < e.len() && e[k] == v@;
            if k < i {
                lemma_lt_irreflexive(v@);
            }
            if k > i {
                assert(seq_lt(e[i as int], e[k]));
                if seq_lt(v@, e[i as int]) {
                    lemma_lt_transitive(v@, e[i as int], v@);
                }
                lemma_lt_irreflexive(v@);
            }
        }
        if found {
            assert(e.contains(v@));
        }
    }
    (i, found)
}

/// Inserting a string at its sorted position keeps a list strictly sorted and adds it to the
/// elements.
pub(crate) proof fn lemma_sorted_insert(e: Seq<Seq<char>>, i: int, v: Seq<char>)
    requires
        strictly_sorted(e),
        0 <= i <= e.len(),
        forall|k: int| 0 <= k < i ==> seq_lt(#[trigger] e[k], v),
        forall|k: int| i <= k < e.len() ==> seq_lt(v, #[trigger] e[k]),
    ensures
        strictly_sorted(e.insert(i, v)),
        e.insert(i, v).to_set() == e.to_set().insert(v),
{
    let f = e.insert(i, v);
    assert forall|a: int, b: int| 0 <= a < b < f.len() implies seq_lt(
        #[trigger] f[a],
        #[trigger] f[b],
    ) by {
        if b < i {
        } else if a < i && b == i {
        } else if a < i {
            lemma_lt_transitive(f[a], v, f[b]);
        } else if a == i {
            assert(f[b] == e[b - 1]);
        } else {
            assert(f[a] == e[a - 1] && f[b] == e[b - 1]);
        }
    }
    assert forall|x: Seq<char>| f.to_set().contains(x) <==> e.to_set().insert(v).contains(x) by {
        if e.to_set().contains(x) && x != v {
            let k = choose|k: int| 0 <= k < e.len() && e[k] == x;
            if k < i {
                assert(f[k] == x);
            } else {
                assert(f[k + 1] == x);
            }
        }
        if x == v {
            assert(f[i] == x);
        }
        if f.to_set().contains(x) {
            let k = choose|k: int| 0 <= k < f.len() && f[k] == x;
            if k < i {
                assert(e[k] == x);
            } else if k > i {
                assert(e[k - 1] == x);
            }
        }
    }
    assert(f.to_set() =~= e.to_set().insert(v));
}

/// A set of strings, kept in ascending order without repetition.
pub struct StringSet {
    items: Vec<String>,
}

impl View for StringSet {
    type V = Set<Seq<char>>;

    closed spec fn view(&self) -> Set<Seq<char>> {
        views(self.items@).to_set()
    }
}

impl StringSet {
    /// The elements in ascending order.
    pub closed spec fn elems(&self) -> Seq<Seq<char>> {
        views(self.items@)
    }

    /// The elements are kept strictly sorted.
    pub closed spec fn wf(&self) -> bool {
        strictly_sorted(views(self.items@))
    }

    pub proof fn lemma_elems(&self)
        ensures
            self.elems().to_set() == self@,
            self.wf() ==> strictly_sorted(self.elems()),
            self@.finite(),
    {
        vstd::seq_lib::seq_to_set_is_finite(self.elems());
    }

    pub fn new() -> (r: StringSet)
        ensures
            r.wf(),
            r@ == Set::<Seq<char>>::empty(),
    {
        let r = StringSet { items: Vec::new() };
        assert(views(r.items@) =~= Seq::<Seq<char>>::empty());
        assert(r@ =~= Set::<Seq<char>>::empty());
        r
    }

    /// Whether `v` is an element.
    pub fn contains(&self, v: &str) -> (r: bool)
        requires
            self.wf(),
        ensures
            r == self@.contains(v@),
    {
        sorted_position(&self.items, v).1
    }

    /// The number of elements.
    pub fn len(&self) -> (r: usize)
        requires
            self.wf(),
        ensures
            r == self@.len(),
    {
        proof {
            lemma_sorted_no_duplicates(self.elems());
            self.elems().unique_seq_to_set();
        }
        self.items.len()
    }

    /// Adds `v`; returns whether it was new.
    pub fn insert(&mut self, v: String) -> (r: bool)
        requires
            old(self).wf(),
        ensures
            final(self).wf(),
            final(self)@ == old(self)@.insert(v@),
            r == !old(self)@.contains(v@),
    {
        let (i, found) = sorted_position(&self.items, v.as_str());
        if found {
            assert(self@.insert(v@) =~= self@);
            return false;
        }
        let ghost e = self.elems();
        let ghost vv = v@;
        self.items.insert(i, v);
        proof {
            assert(self.elems() =~= e.insert(i as int, vv));
            lemma_sorted_insert(e, i as int, vv);
        }
        true
    }

    /// A copy of the set.
    pub fn copy(&self) -> (r: StringSet)
        requires
            self.wf(),
        ensures
            r.wf(),
            r@ == self@,
            r.elems() == self.elems(),
    {
        StringSet { items: self.to_vec() }
    }

    /// The elements in ascending order.
    pub fn to_vec(&self) -> (r: Vec<String>)
        requires
            self.wf(),
        ensures
            views(r@) == self.elems(),
            strictly_sorted(views(r@)),
            views(r@).to_set() == self@,
    {
        let mut r: Vec<String> = Vec::new();
        let n = self.items.len();
        let mut i: usize = 0;
        while i < n
            invariant
                n == self.items@.len(),
                i <= n,
                r@.len() == i,
                views(r@) == views(self.items@).take(i as int),
            decreases n - i,
        {
            r.push(self.items[i].clone());
            assert(views(r@)[i as int] == self.items@[i as int]@);
            assert(views(r@) =~= views(self.items@).take(i + 1));
            i = i + 1;
        }
        assert(views(self.items@).take(n as int) =~= views(self.items@));
        r
    }
}

} // verus!
