//! A message whose repeated and map fields hold enumeration values as raw `i32` codes, with the
//! typed accessors that decode them.

use vstd::prelude::*;

use crate::text::str_eq;

verus! {

broadcast use vstd::std_specs::vec::group_vec_axioms;

/// A protobuf enumeration with the codes `Alpha = 0`, `Beta = 1`, `Gamma = 2`, `Delta = 3`.
#[derive(Clone, Copy, Debug, PartialEq, Eq, Structural)]
pub enum SimpleEnumProst {
    Alpha,
    Beta,
    Gamma,
    Delta,
}

impl SimpleEnumProst {
    /// The wire code of a value.
    pub open spec fn code(self) -> i32 {
        match self {
            SimpleEnumProst::Alpha => 0,
            SimpleEnumProst::Beta => 1,
            SimpleEnumProst::Gamma => 2,
            SimpleEnumProst::Delta => 3,
        }
    }

    /// The value with a given wire code, if the code is one of the enumeration's.
    pub open spec fn from_code(x: i32) -> Option<SimpleEnumProst> {
        if x == 0 {
            Some(SimpleEnumProst::Alpha)
        } else if x == 1 {
            Some(SimpleEnumProst::Beta)
        } else if x == 2 {
            Some(SimpleEnumProst::Gamma)
        } else if x == 3 {
            Some(SimpleEnumProst::Delta)
        } else {
            None
        }
    }

    pub fn as_i32(self) -> (r: i32)
        ensures
            r == self.code(),
    {
        match self {
            SimpleEnumProst::Alpha => 0,
            SimpleEnumProst::Beta => 1,
            SimpleEnumProst::Gamma => 2,
            SimpleEnumProst::Delta => 3,
        }
    }

    pub fn from_i32(x: i32) -> (r: Option<SimpleEnumProst>)
        ensures
            r == SimpleEnumProst::from_code(x),
    {
        if x == 0 {
            Some(SimpleEnumProst::Alpha)
        } else if x == 1 {
            Some(SimpleEnumProst::Beta)
        } else if x == 2 {
            Some(SimpleEnumProst::Gamma)
        } else if x == 3 {
            Some(SimpleEnumProst::Delta)
        } else {
            None
        }
    }
}

/// Decoding a value's code gives the value back, and a code decodes only to the value that has
/// it.
pub proof fn lemma_code_round_trip(e: SimpleEnumProst, x: i32)
    ensures
        SimpleEnumProst::from_code(e.code()) == Some(e),
        SimpleEnumProst::from_code(x) == Some(e) ==> e.code() == x,
{
}

/// A map from string keys to `i32` values, kept as a list of entries.
pub struct CodeLookup {
    entries: Vec<(String, i32)>,
}

/// The position of the last entry with key `k`.
pub open spec fn key_index(s: Seq<(String, i32)>, k: Seq<char>) -> Option<int>
    decreases s.len(),
{
    if s.len() == 0 {
        None
    } else if s.last().0@ == k {
        Some(s.len() - 1)
    } else {
        key_index(s.drop_last(), k)
    }
}

proof fn lemma_key_index_range(s: Seq<(String, i32)>, k: Seq<char>)
    ensures
        key_index(s, k) matches Some(i) ==> 0 <= i < s.len() && s[i].0@ == k,
    decreases s.len(),
{
    if s.len() > 0 {
        lemma_key_index_range(s.drop_last(), k);
    }
}

/// Two entry lists with the same keys at every position find a key at the same position.
proof fn lemma_key_index_same_keys(s: Seq<(String, i32)>, t: Seq<(String, i32)>, k: Seq<char>)
    requires
        s.len() == t.len(),
        forall|j: int| 0 <= j < s.len() ==> (#[trigger] s[j]).0@ == t[j].0@,
    ensures
        key_index(s, k) == key_index(t, k),
    decreases s.len(),
{
    if s.len() > 0 {
        lemma_key_index_same_keys(s.drop_last(), t.drop_last(), k);
    }
}

/// The map that a list of entries stands for: each key to the value of its last entry.
pub open spec fn entries_map(s: Seq<(String, i32)>) -> Map<Seq<char>, i32> {
    Map::new(|k: Seq<char>| key_index(s, k) is Some, |k: Seq<char>| s[key_index(s, k)->Some_0].1)
}

impl View for CodeLookup {
    type V = Map<Seq<char>, i32>;

    closed spec fn view(&self) -> Map<Seq<char>, i32> {
        entries_map(self.entries@)
    }
}

impl CodeLookup {
    pub fn new() -> (r: CodeLookup)
        ensures
            r@ == Map::<Seq<char>, i32>::empty(),
    {
        let r = CodeLookup { entries: Vec::new() };
        assert(r@ =~= Map::<Seq<char>, i32>::empty());
        r
    }

    fn find(&self, key: &str) -> (r: Option<usize>)
        ensures
            match r {
                Some(i) => key_index(self.entries@, key@) == Some(i as int),
                None => key_index(self.entries@, key@) is None,
            },
    {
        let mut i = self.entries.len();
        assert(self.entries@.take(i as int) =~= self.entries@);
        while i > 0
            invariant
                i <= self.entries@.len(),
                key_index(self.entries@, key@) == key_index(self.entries@.take(i as int), key@),
            decreases i,
        {
            let ghost q = self.entries@.take(i as int);
            assert(q.drop_last() =~= self.entries@.take(i - 1));
            assert(q.last() == self.entries@[i - 1]);
            if str_eq(self.entries[i - 1].0.as_str(), key) {
                return Some(i - 1);
            }
            i = i - 1;
        }
        None
    }

    /// The value stored for a key.
    pub fn get(&self, key: &str) -> (r: Option<i32>)
        ensures
            r == (if self@.contains_key(key@) {
                Some(self@[key@])
            } else {
                None
            }),
    {
        proof {
            lemma_key_index_range(self.entries@, key@);
        }
        match self.find(key) {
            Some(i) => Some(self.entries[i].1),
            None => None,
        }
    }

    /// Stores a value for a key and returns the value it replaces.
    pub fn insert(&mut self, key: String, value: i32) -> (r: Option<i32>)
        ensures
            final(self)@ == old(self)@.insert(key@, value),
            r == (if old(self)@.contains_key(key@) {
                Some(old(self)@[key@])
            } else {
                None
            }),
    {
        let ghost s = self.entries@;
        let ghost k = key@;
        proof {
            lemma_key_index_range(s, k);
        }
        match self.find(key.as_str()) {
            Some(i) => {
                let previous = self.entries[i].1;
                self.entries.set(i, (key, value));
                proof {
                    let t = self.entries@;
                    assert forall|j: int| 0 <= j < s.len() implies (#[trigger] s[j]).0@ == t[j].0@ by {
                        if j == i {
                            assert(t[j].0@ == k);
                        }
                    }
                    assert forall|x: Seq<char>| #![auto] true implies key_index(s, x) == key_index(
                        t,
                        x,
                    ) by {
                        lemma_key_index_same_keys(s, t, x);
                    }
                    assert forall|x: Seq<char>| #![auto] key_index(t, x) is Some implies t[key_index(
                        t,
                        x,
                    )->Some_0].1 == (if x == k {
                        value
                    } else {
                        s[key_index(s, x)->Some_0].1
                    }) by {
                        lemma_key_index_range(t, x);
                    }
                    assert(entries_map(t) =~= entries_map(s).insert(k, value));
                }
                Some(previous)
            },
            None => {
                self.entries.push((key, value));
                proof {
                    let t = self.entries@;
                    assert(t.drop_last() =~= s);
                    assert forall|x: Seq<char>| #![auto] x != k implies key_index(t, x)
                        == key_index(s, x) by {}
                    assert forall|x: Seq<char>| #![auto] x != k && key_index(s, x) is Some implies t[key_index(
                        s,
                        x,
                    )->Some_0] == s[key_index(s, x)->Some_0] by {
                        lemma_key_index_range(s, x);
                    }
                    assert(entries_map(t) =~= entries_map(s).insert(k, value));
                }
                None
            },
        }
    }
}

/// The values of a list of codes that are codes of the enumeration, in order.
pub open spec fn decoded(s: Seq<i32>) -> Seq<SimpleEnumProst>
    decreases s.len(),
{
    if s.len() == 0 {
        Seq::empty()
    } else {
        decoded(s.drop_last()) + match SimpleEnumProst::from_code(s.last()) {
            Some(e) => seq![e],
            None => Seq::empty(),
        }
    }
}

/// The value stored under a key of a map of codes, when it is a code of the enumeration.
pub open spec fn decoded_at(m: Map<Seq<char>, i32>, k: Seq<char>) -> Option<SimpleEnumProst> {
    if m.contains_key(k) {
        SimpleEnumProst::from_code(m[k])
    } else {
        None
    }
}

/// The fields of a message that hold enumeration values as codes: a repeated field and a map.
pub struct ComplexRootProst {
    /// Repeated `SimpleEnumProst` field, as codes.
    pub codes: Vec<i32>,
    /// `map<string, SimpleEnumProst>` field, as codes.
    pub code_lookup: CodeLookup,
}

impl Default for ComplexRootProst {
    fn default() -> (r: ComplexRootProst)
        ensures
            r.codes@ == Seq::<i32>::empty(),
            r.code_lookup@ == Map::<Seq<char>, i32>::empty(),
    {
        ComplexRootProst { codes: Vec::new(), code_lookup: CodeLookup::new() }
    }
}

impl ComplexRootProst {
    /// The valid enumeration values among `codes`, in order; codes that name no value are
    /// skipped.
    pub fn codes(&self) -> (r: Vec<SimpleEnumProst>)
        ensures
            r@ == decoded(self.codes@),
    {
        let mut r: Vec<SimpleEnumProst> = Vec::new();
        let n = self.codes.len();
        let mut i: usize = 0;
        while i < n
            invariant
                n == self.codes@.len(),
                i <= n,
                r@ == decoded(self.codes@.take(i as int)),
            decreases n - i,
        {
            let ghost q = self.codes@.take(i + 1);
            assert(q.drop_last() =~= self.codes@.take(i as int));
            assert(q.last() == self.codes@[i as int]);
            match SimpleEnumProst::from_i32(self.codes[i]) {
                Some(e) => {
                    r.push(e);
                },
                None => {},
            }
            assert(r@ =~= decoded(q));
            i = i + 1;
        }
        assert(self.codes@.take(n as int) =~= self.codes@);
        r
    }

    /// Appends a value to `codes`.
    pub fn push_codes(&mut self, value: SimpleEnumProst)
        ensures
            final(self).codes@ == old(self).codes@.push(value.code()),
            final(self).code_lookup@ == old(self).code_lookup@,
    {
        self.codes.push(value.as_i32());
    }

    /// The enumeration value stored under a key of `code_lookup`; `None` when the key is absent
    /// or its code names no value.
    pub fn get_code_lookup(&self, key: &str) -> (r: Option<SimpleEnumProst>)
        ensures
            r == decoded_at(self.code_lookup@, key@),
    {
        match self.code_lookup.get(key) {
            Some(x) => SimpleEnumProst::from_i32(x),
            None => None,
        }
    }

    /// Stores a value under a key of `code_lookup`, and returns the value it replaces when that
    /// was a valid code.
    pub fn insert_code_lookup(&mut self, key: String, value: SimpleEnumProst) -> (r: Option<
        SimpleEnumProst,
    >)
        ensures
            final(self).code_lookup@ == old(self).code_lookup@.insert(key@, value.code()),
            final(self).codes@ == old(self).codes@,
            r == decoded_at(old(self).code_lookup@, key@),
    {
        match self.code_lookup.insert(key, value.as_i32()) {
            Some(x) => SimpleEnumProst::from_i32(x),
            None => None,
        }
    }
}

/// Reading a key of `code_lookup` after storing a value under it gives that value; other keys
/// read as before.
pub proof fn lemma_insert_then_get(
    m: Map<Seq<char>, i32>,
    k: Seq<char>,
    v: SimpleEnumProst,
    other: Seq<char>,
)
    ensures
        decoded_at(m.insert(k, v.code()), k) == Some(v),
        other != k ==> decoded_at(m.insert(k, v.code()), other) == decoded_at(m, other),
{
}

/// Appending a value to `codes` appends it to the decoded values.
pub proof fn lemma_push_then_codes(s: Seq<i32>, v: SimpleEnumProst)
    ensures
        decoded(s.push(v.code())) == decoded(s).push(v),
{
    assert(s.push(v.code()).drop_last() =~= s);
    assert(decoded(s) + seq![v] =~= decoded(s).push(v));
}

} // verus!
