//! Values filed under distinct names.

use crate::text::same;
use vstd::prelude::*;

verus! {

/// The first position in `s` whose name is `k`, or the length of `s`.
pub open spec fn position<V>(s: Seq<(Seq<char>, V)>, k: Seq<char>) -> int
    decreases s.len(),
{
    if s.len() == 0 || s[0].0 == k {
        0
    } else {
        1 + position(s.skip(1), k)
    }
}

/// The value filed under `k`.
pub open spec fn lookup<V>(s: Seq<(Seq<char>, V)>, k: Seq<char>) -> Option<V> {
    if position(s, k) < s.len() {
        Some(s[position(s, k)].1)
    } else {
        None
    }
}

/// `s` with `v` filed under `k`: in the place of the value that was filed
/// there, or at the end.
pub open spec fn filed<V>(s: Seq<(Seq<char>, V)>, k: Seq<char>, v: V) -> Seq<(Seq<char>, V)> {
    if position(s, k) < s.len() {
        s.update(position(s, k), (k, v))
    } else {
        s.push((k, v))
    }
}

/// Whether no name occurs twice.
pub open spec fn distinct<V>(s: Seq<(Seq<char>, V)>) -> bool {
    forall|i: int, j: int| 0 <= i < j < s.len() ==> (#[trigger] s[i]).0 != (#[trigger] s[j]).0
}

/// The names, in order.
pub open spec fn names_of<V>(s: Seq<(Seq<char>, V)>) -> Seq<Seq<char>> {
    s.map_values(|e: (Seq<char>, V)| e.0)
}

pub proof fn lemma_position<V>(s: Seq<(Seq<char>, V)>, k: Seq<char>)
    ensures
        0 <= position(s, k) <= s.len(),
        position(s, k) < s.len() ==> s[position(s, k)].0 == k,
        forall|j: int| 0 <= j < position(s, k) ==> (#[trigger] s[j]).0 != k,
    decreases s.len(),
{
    if s.len() > 0 && s[0].0 != k {
        let t = s.skip(1);
        lemma_position(t, k);
        assert forall|j: int| 0 <= j < position(s, k) implies (#[trigger] s[j]).0 != k by {
            if j > 0 {
                assert(t[j - 1] == s[j]);
            }
        }
    }
}

pub proof fn lemma_position_is<V>(s: Seq<(Seq<char>, V)>, k: Seq<char>, i: int)
    requires
        0 <= i <= s.len(),
        i < s.len() ==> s[i].0 == k,
        forall|j: int| 0 <= j < i ==> (#[trigger] s[j]).0 != k,
    ensures
        position(s, k) == i,
{
    lemma_position(s, k);
    let p = position(s, k);
    if p < i {
        assert(s[p].0 != k);
    }
    if i < p {
        assert(s[i].0 != k);
    }
}

/// Filing a value under a name gives that value back under that name, leaves
/// every other name as it was, and keeps the names distinct.
pub proof fn lemma_filed<V>(s: Seq<(Seq<char>, V)>, k: Seq<char>, v: V, other: Seq<char>)
    ensures
        lookup(filed(s, k, v), k) == Some(v),
        other != k ==> lookup(filed(s, k, v), other) == lookup(s, other),
        distinct(s) ==> distinct(filed(s, k, v)),
{
    lemma_position(s, k);
    lemma_position(s, other);
    let f = filed(s, k, v);
    let p = position(s, k);
    lemma_position_is(f, k, p);
    let q = position(s, other);
    if other != k {
        if q < s.len() {
            lemma_position_is(f, other, q);
        } else {
            lemma_position_is(f, other, f.len() as int);
        }
    }
}

/// The entries of the table `s` without the exec names.
pub open spec fn entries_view<V>(s: Seq<(String, V)>) -> Seq<(Seq<char>, V)> {
    s.map_values(|e: (String, V)| (e.0@, e.1))
}

/// A table of values filed under distinct names, in the order in which the
/// names came.
pub struct NameMap<V> {
    entries: Vec<(String, V)>,
}

impl<V> View for NameMap<V> {
    type V = Seq<(Seq<char>, V)>;

    closed spec fn view(&self) -> Seq<(Seq<char>, V)> {
        entries_view(self.entries@)
    }
}

impl<V> NameMap<V> {
    #[verifier::type_invariant]
    spec fn inv(self) -> bool {
        distinct(entries_view(self.entries@))
    }

    pub fn new() -> (r: Self)
        ensures
            r@ == Seq::<(Seq<char>, V)>::empty(),
            distinct(r@),
    {
        let entries: Vec<(String, V)> = Vec::new();
        assert(entries_view(entries@) =~= Seq::<(Seq<char>, V)>::empty());
        NameMap { entries }
    }

    pub fn len(&self) -> (n: usize)
        ensures
            n == self@.len(),
            distinct(self@),
    {
        proof {
            use_type_invariant(self);
        }
        self.entries.len()
    }

    /// The name at position `i`.
    pub fn name_at(&self, i: usize) -> (r: &String)
        requires
            i < self@.len(),
        ensures
            r@ == self@[i as int].0,
    {
        &self.entries[i].0
    }

    /// The value at position `i`.
    pub fn value_at(&self, i: usize) -> (r: &V)
        requires
            i < self@.len(),
        ensures
            *r == self@[i as int].1,
    {
        &self.entries[i].1
    }

    /// The position of `name`.
    pub fn find(&self, name: &str) -> (r: Option<usize>)
        ensures
            distinct(self@),
            match r {
                Some(i) => i == position(self@, name@) && i < self@.len(),
                None => position(self@, name@) == self@.len(),
            },
    {
        proof {
            use_type_invariant(self);
        }
        let mut i: usize = 0;
        while i < self.entries.len()
            invariant
                i <= self@.len(),
                self@.len() == self.entries@.len(),
                distinct(self@),
                forall|j: int| 0 <= j < i ==> (#[trigger] self@[j]).0 != name@,
            decreases self.entries@.len() - i,
        {
            if same(self.entries[i].0.as_str(), name) {
                proof {
                    lemma_position_is(self@, name@, i as int);
                }
                return Some(i);
            }
            i += 1;
        }
        proof {
            lemma_position_is(self@, name@, i as int);
        }
        None
    }

    /// The value filed under `name`.
    pub fn get(&self, name: &str) -> (r: Option<&V>)
        ensures
            distinct(self@),
            match r {
                Some(v) => lookup(self@, name@) == Some(*v),
                None => lookup(self@, name@) is None,
            },
    {
        match self.find(name) {
            Some(i) => Some(&self.entries[i].1),
            None => None,
        }
    }

    pub fn contains_key(&self, name: &str) -> (r: bool)
        ensures
            r == (lookup(self@, name@) is Some),
    {
        self.find(name).is_some()
    }

    /// Files `value` under `name`.
    pub fn insert(&mut self, name: String, value: V)
        ensures
            final(self)@ == filed(old(self)@, name@, value),
            distinct(final(self)@),
    {
        let found = self.find(name.as_str());
        let ghost before = self@;
        proof {
            lemma_filed(before, name@, value, name@);
            lemma_position(before, name@);
        }
        let mut entries: Vec<(String, V)> = Vec::new();
        std::mem::swap(&mut entries, &mut self.entries);
        match found {
            Some(i) => {
                entries.set(i, (name, value));
                assert(entries_view(entries@) =~= filed(before, name@, value));
            },
            None => {
                entries.push((name, value));
                assert(entries_view(entries@) =~= filed(before, name@, value));
            },
        }
        self.entries = entries;
    }
}

} // verus!
