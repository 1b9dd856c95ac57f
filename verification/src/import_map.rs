//! The types imported from each protobuf package, kept in ascending order of package.

use vstd::prelude::*;

use crate::string_set::{StringSet, lemma_sorted_insert, lemma_sorted_no_duplicates, sorted_position, strictly_sorted};
use crate::model::ImportGroup;
use crate::text::views;

verus! {

broadcast use vstd::std_specs::vec::group_vec_axioms;

/// The position of `k` in a sequence that holds it once.
pub open spec fn index_of(s: Seq<Seq<char>>, k: Seq<char>) -> int {
    choose|j: int| 0 <= j < s.len() && s[j] == k
}

proof fn lemma_index_of(s: Seq<Seq<char>>, j: int)
    requires
        s.no_duplicates(),
        0 <= j < s.len(),
    ensures
        index_of(s, s[j]) == j,
{
    assert(0 <= j < s.len() && s[j] == s[j]);
}

/// A map from package names to the sets of types imported from them.
pub struct ImportMap {
    packages: Vec<String>,
    sets: Vec<StringSet>,
}

/// The map that parallel lists of keys and sets stand for.
pub open spec fn pairs_map(ps: Seq<Seq<char>>, sets: Seq<StringSet>) -> Map<
    Seq<char>,
    Set<Seq<char>>,
> {
    Map::new(|k: Seq<char>| ps.contains(k), |k: Seq<char>| sets[index_of(ps, k)]@)
}

impl View for ImportMap {
    type V = Map<Seq<char>, Set<Seq<char>>>;

    closed spec fn view(&self) -> Map<Seq<char>, Set<Seq<char>>> {
        pairs_map(views(self.packages@), self.sets@)
    }
}

impl ImportMap {
    /// Packages are kept strictly sorted, each with a well-formed set.
    pub closed spec fn wf(&self) -> bool {
        &&& strictly_sorted(views(self.packages@))
        &&& self.packages@.len() == self.sets@.len()
        &&& forall|i: int| 0 <= i < self.sets@.len() ==> (#[trigger] self.sets@[i]).wf()
    }

    /// The packages in ascending order.
    pub closed spec fn keys(&self) -> Seq<Seq<char>> {
        views(self.packages@)
    }

    pub proof fn lemma_keys(&self)
        requires
            self.wf(),
        ensures
            strictly_sorted(self.keys()),
            self.keys().to_set() == self@.dom(),
    {
        assert(self.keys().to_set() =~= self@.dom());
    }

    pub fn new() -> (r: ImportMap)
        ensures
            r.wf(),
            r@ == Map::<Seq<char>, Set<Seq<char>>>::empty(),
    {
        let r = ImportMap { packages: Vec::new(), sets: Vec::new() };
        assert(views(r.packages@) =~= Seq::<Seq<char>>::empty());
        assert(r@ =~= Map::<Seq<char>, Set<Seq<char>>>::empty());
        r
    }

    /// The set of a package.
    pub fn get(&self, package: &str) -> (r: Option<&StringSet>)
        requires
            self.wf(),
        ensures
            match r {
                Some(s) => self@.contains_key(package@) && s@ == self@[package@] && s.wf(),
                None => !self@.contains_key(package@),
            },
    {
        let (i, found) = sorted_position(&self.packages, package);
        if found {
            proof {
                lemma_sorted_no_duplicates(views(self.packages@));
                lemma_index_of(views(self.packages@), i as int);
            }
            Some(&self.sets[i])
        } else {
            None
        }
    }

    /// The packages in ascending order.
    pub fn packages(&self) -> (r: Vec<String>)
        requires
            self.wf(),
        ensures
            views(r@) == self.keys(),
    {
        let mut r: Vec<String> = Vec::new();
        let n = self.packages.len();
        let mut i: usize = 0;
        while i < n
            invariant
                n == self.packages@.len(),
                i <= n,
                r@.len() == i,
                views(r@) == views(self.packages@).take(i as int),
            decreases n - i,
        {
            r.push(self.packages[i].clone());
            assert(views(r@)[i as int] == self.packages@[i as int]@);
            assert(views(r@) =~= views(self.packages@).take(i + 1));
            i = i + 1;
        }
        assert(views(self.packages@).take(n as int) =~= views(self.packages@));
        r
    }

    /// Sets the types of a package, replacing those it had.
    pub fn insert(&mut self, package: String, set: StringSet)
        requires
            old(self).wf(),
            set.wf(),
        ensures
            final(self).wf(),
            final(self)@ == old(self)@.insert(package@, set@),
    {
        let ghost ps = views(self.packages@);
        let ghost ss = self.sets@;
        let ghost k = package@;
        let ghost sv = set@;
        proof {
            lemma_sorted_no_duplicates(ps);
        }
        let (i, found) = sorted_position(&self.packages, package.as_str());
        if found {
            self.sets.set(i, set);
            proof {
                let ss2 = self.sets@;
                assert(views(self.packages@) == ps);
                assert forall|x: Seq<char>| #[trigger] ps.contains(x) && x != k implies ss2[index_of(
                    ps,
                    x,
                )] == ss[index_of(ps, x)] by {
                    let j = choose|j: int| 0 <= j < ps.len() && ps[j] == x;
                    lemma_index_of(ps, j);
                }
                lemma_index_of(ps, i as int);
                assert(self@ =~= pairs_map(ps, ss).insert(k, sv));
            }
        } else {
            self.packages.insert(i, package);
            self.sets.insert(i, set);
            proof {
                let ps2 = views(self.packages@);
                let ss2 = self.sets@;
                assert(ps2 =~= ps.insert(i as int, k));
                lemma_sorted_insert(ps, i as int, k);
                lemma_sorted_no_duplicates(ps2);
                assert forall|x: Seq<char>| #[trigger] ps2.contains(x) <==> ps.contains(x) || x == k by {
                    assert(ps2.to_set().contains(x) == ps.to_set().insert(k).contains(x));
                }
                assert forall|x: Seq<char>| #[trigger] ps.contains(x) && x != k implies ss2[index_of(
                    ps2,
                    x,
                )] == ss[index_of(ps, x)] by {
                    let j = choose|j: int| 0 <= j < ps.len() && ps[j] == x;
                    lemma_index_of(ps, j);
                    if j < i {
                        assert(ps2[j] == x);
                        lemma_index_of(ps2, j);
                    } else {
                        assert(ps2[j + 1] == x);
                        lemma_index_of(ps2, j + 1);
                    }
                }
                assert(ps2[i as int] == k);
                lemma_index_of(ps2, i as int);
                assert forall|j: int| 0 <= j < ss2.len() implies (#[trigger] ss2[j]).wf() by {
                    if j < i {
                        assert(ss2[j] == ss[j]);
                    } else if j > i {
                        assert(ss2[j] == ss[j - 1]);
                    }
                }
                assert(self@ =~= pairs_map(ps, ss).insert(k, sv));
            }
        }
    }

    /// Adds types to a package, creating it when absent.
    pub fn extend(&mut self, package: String, types: &Vec<String>)
        requires
            old(self).wf(),
        ensures
            final(self).wf(),
            final(self)@ == old(self)@.insert(
                package@,
                (if old(self)@.contains_key(package@) {
                    old(self)@[package@]
                } else {
                    Set::empty()
                }).union(views(types@).to_set()),
            ),
    {
        let ghost before = self@;
        let mut set = match self.get(package.as_str()) {
            Some(s) => s.copy(),
            None => StringSet::new(),
        };
        let ghost start = set@;
        let n = types.len();
        let mut i: usize = 0;
        while i < n
            invariant
                n == types@.len(),
                i <= n,
                set.wf(),
                set@ == start.union(views(types@.take(i as int)).to_set()),
            decreases n - i,
        {
            set.insert(types[i].clone());
            assert(views(types@.take(i + 1)) =~= views(types@.take(i as int)).push(types@[i as int]@));
            proof {
                views(types@.take(i as int)).lemma_push_to_set_commute(types@[i as int]@);
            }
            assert(set@ =~= start.union(views(types@.take(i + 1)).to_set()));
            i = i + 1;
        }
        assert(types@.take(n as int) =~= types@);
        self.insert(package, set);
    }
    /// The packages in ascending order, each with its types in ascending order.
    pub fn to_groups(&self) -> (r: Vec<ImportGroup>)
        requires
            self.wf(),
        ensures
            r@.len() == self.keys().len(),
            forall|i: int|
                0 <= i < r@.len() ==> {
                    &&& (#[trigger] r@[i]).package@ == self.keys()[i]
                    &&& strictly_sorted(views(r@[i].types@))
                    &&& views(r@[i].types@).to_set() == self@[self.keys()[i]]
                },
    {
        let mut r: Vec<ImportGroup> = Vec::new();
        let n = self.packages.len();
        let mut i: usize = 0;
        proof {
            lemma_sorted_no_duplicates(views(self.packages@));
        }
        while i < n
            invariant
                self.wf(),
                n == self.packages@.len(),
                views(self.packages@).no_duplicates(),
                i <= n,
                r@.len() == i,
                forall|k: int|
                    0 <= k < i ==> {
                        &&& (#[trigger] r@[k]).package@ == self.keys()[k]
                        &&& strictly_sorted(views(r@[k].types@))
                        &&& views(r@[k].types@).to_set() == self@[self.keys()[k]]
                    },
            decreases n - i,
        {
            assert(self.sets@[i as int].wf());
            let types = self.sets[i].to_vec();
            proof {
                lemma_index_of(views(self.packages@), i as int);
                assert(views(self.packages@)[i as int] == self.packages@[i as int]@);
                assert(views(self.packages@).contains(self.keys()[i as int]));
            }
            r.push(ImportGroup { package: self.packages[i].clone(), types });
            i = i + 1;
        }
        r
    }
}

} // verus!
