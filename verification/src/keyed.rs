use vstd::prelude::*;

verus! {

/// Keys whose executable equality agrees with equality of their views.
pub trait KeyEq: View + Sized {
    fn key_eq(&self, other: &Self) -> (r: bool)
        ensures
            r == (self@ == other@),
    ;
}

impl KeyEq for u8 {
    fn key_eq(&self, other: &Self) -> (r: bool) {
        *self == *other
    }
}

impl KeyEq for u16 {
    fn key_eq(&self, other: &Self) -> (r: bool) {
        *self == *other
    }
}

impl KeyEq for usize {
    fn key_eq(&self, other: &Self) -> (r: bool) {
        *self == *other
    }
}

impl KeyEq for u128 {
    fn key_eq(&self, other: &Self) -> (r: bool) {
        *self == *other
    }
}

impl KeyEq for String {
    fn key_eq(&self, other: &Self) -> (r: bool) {
        *self == *other
    }
}

impl<A: KeyEq, B: KeyEq> KeyEq for (A, B) {
    fn key_eq(&self, other: &Self) -> (r: bool) {
        self.0.key_eq(&other.0) && self.1.key_eq(&other.1)
    }
}

/// A map kept as a vector of entries in insertion order; no two entries share
/// a key (compared by view).
#[derive(Debug)]
pub struct KeyedVec<K: View, V> {
    entries: Vec<(K, V)>,
}

/// The keys of `s` are pairwise distinct (by view).
pub open spec fn keys_distinct<K: View, V>(s: Seq<(K, V)>) -> bool {
    forall|i: int, j: int|
        0 <= i < s.len() && 0 <= j < s.len() && i != j ==> #[trigger] s[i].0@ != #[trigger] s[j].0@
}

/// Some entry of `s` has key `k`.
pub open spec fn seq_has_key<K: View, V>(s: Seq<(K, V)>, k: K::V) -> bool {
    exists|i: int| 0 <= i < s.len() && #[trigger] s[i].0@ == k
}

/// An index of an entry of `s` with key `k`.
pub open spec fn seq_index_of<K: View, V>(s: Seq<(K, V)>, k: K::V) -> int {
    choose|i: int| 0 <= i < s.len() && #[trigger] s[i].0@ == k
}

/// The map that an entry sequence stands for.
pub open spec fn seq_to_map<K: View, V>(s: Seq<(K, V)>) -> Map<K::V, V> {
    Map::new(|k: K::V| seq_has_key(s, k), |k: K::V| s[seq_index_of(s, k)].1)
}

/// In a sequence with distinct keys, the entry at `i` is what the map holds
/// for its key.
pub proof fn lemma_seq_to_map_at<K: View, V>(s: Seq<(K, V)>, i: int)
    requires
        keys_distinct(s),
        0 <= i < s.len(),
    ensures
        seq_to_map(s).contains_key(s[i].0@),
        seq_to_map(s)[s[i].0@] == s[i].1,
        seq_index_of(s, s[i].0@) == i,
{
    let k = s[i].0@;
    assert(seq_has_key(s, k));
    let j = seq_index_of(s, k);
    assert(s[j].0@ == k);
}

/// Every index of a distinct-key sequence is read through the map.
pub proof fn lemma_seq_to_map_all<K: View, V>(s: Seq<(K, V)>)
    requires
        keys_distinct(s),
    ensures
        forall|i: int|
            0 <= i < s.len() ==> seq_to_map(s).contains_key(#[trigger] s[i].0@) && seq_to_map(
                s,
            )[s[i].0@] == s[i].1,
{
    assert forall|i: int| 0 <= i < s.len() implies seq_to_map(s).contains_key(
        #[trigger] s[i].0@,
    ) && seq_to_map(s)[s[i].0@] == s[i].1 by {
        lemma_seq_to_map_at(s, i);
    }
}

/// Pushing an entry with a fresh key inserts it into the map.
pub proof fn lemma_seq_to_map_push<K: View, V>(s: Seq<(K, V)>, e: (K, V))
    requires
        keys_distinct(s),
        !seq_has_key(s, e.0@),
    ensures
        keys_distinct(s.push(e)),
        seq_to_map(s.push(e)) == seq_to_map(s).insert(e.0@, e.1),
{
    let t = s.push(e);
    assert(keys_distinct(t)) by {
        assert forall|i: int, j: int|
            0 <= i < t.len() && 0 <= j < t.len() && i != j implies #[trigger] t[i].0@
            != #[trigger] t[j].0@ by {
            if i == s.len() {
                assert(t[j] == s[j]);
            } else if j == s.len() {
                assert(t[i] == s[i]);
            } else {
                assert(t[i] == s[i] && t[j] == s[j]);
            }
        }
    }
    let m1 = seq_to_map(t);
    let m2 = seq_to_map(s).insert(e.0@, e.1);
    assert forall|k: K::V| m1.contains_key(k) <==> m2.contains_key(k) by {
        if m2.contains_key(k) {
            if k == e.0@ {
                assert(t[s.len() as int].0@ == k);
            } else {
                let i = seq_index_of(s, k);
                assert(t[i] == s[i]);
            }
        }
        if m1.contains_key(k) {
            let i = seq_index_of(t, k);
            if i < s.len() {
                assert(t[i] == s[i]);
            }
        }
    }
    assert forall|k: K::V| #[trigger] m1.contains_key(k) implies m1[k] == m2[k] by {
        let i = seq_index_of(t, k);
        lemma_seq_to_map_at(t, i);
        if i < s.len() {
            assert(t[i] == s[i]);
            lemma_seq_to_map_at(s, i);
        }
    }
    assert(m1 =~= m2);
}

/// Overwriting the value of an entry updates the map at that key.
pub proof fn lemma_seq_to_map_update<K: View, V>(s: Seq<(K, V)>, i: int, e: (K, V))
    requires
        keys_distinct(s),
        0 <= i < s.len(),
        s[i].0@ == e.0@,
    ensures
        keys_distinct(s.update(i, e)),
        seq_to_map(s.update(i, e)) == seq_to_map(s).insert(e.0@, e.1),
{
    let t = s.update(i, e);
    assert(keys_distinct(t)) by {
        assert forall|a: int, b: int|
            0 <= a < t.len() && 0 <= b < t.len() && a != b implies #[trigger] t[a].0@
            != #[trigger] t[b].0@ by {
            assert(s[a].0@ == t[a].0@);
            assert(s[b].0@ == t[b].0@);
        }
    }
    let m1 = seq_to_map(t);
    let m2 = seq_to_map(s).insert(e.0@, e.1);
    lemma_seq_to_map_at(s, i);
    assert forall|k: K::V| m1.contains_key(k) <==> m2.contains_key(k) by {
        if m2.contains_key(k) {
            if k != e.0@ {
                let j = seq_index_of(s, k);
                assert(t[j].0@ == s[j].0@);
            } else {
                assert(t[i].0@ == k);
            }
        }
        if m1.contains_key(k) {
            let j = seq_index_of(t, k);
            assert(t[j].0@ == s[j].0@);
        }
    }
    assert forall|k: K::V| #[trigger] m1.contains_key(k) implies m1[k] == m2[k] by {
        let j = seq_index_of(t, k);
        lemma_seq_to_map_at(t, j);
        if j != i {
            assert(t[j] == s[j]);
            lemma_seq_to_map_at(s, j);
        }
    }
    assert(m1 =~= m2);
}

/// Removing the entry at `i` removes its key from the map.
pub proof fn lemma_seq_to_map_remove<K: View, V>(s: Seq<(K, V)>, i: int)
    requires
        keys_distinct(s),
        0 <= i < s.len(),
    ensures
        keys_distinct(s.remove(i)),
        seq_to_map(s.remove(i)) == seq_to_map(s).remove(s[i].0@),
{
    let t = s.remove(i);
    assert forall|a: int| 0 <= a < t.len() implies #[trigger] t[a] == (if a < i {
        s[a]
    } else {
        s[a + 1]
    }) by {}
    assert(keys_distinct(t)) by {
        assert forall|a: int, b: int|
            0 <= a < t.len() && 0 <= b < t.len() && a != b implies #[trigger] t[a].0@
            != #[trigger] t[b].0@ by {
            let sa = if a < i {
                a
            } else {
                a + 1
            };
            let sb = if b < i {
                b
            } else {
                b + 1
            };
            assert(t[a] == s[sa]);
            assert(t[b] == s[sb]);
        }
    }
    let k0 = s[i].0@;
    let m1 = seq_to_map(t);
    let m2 = seq_to_map(s).remove(k0);
    assert forall|k: K::V| m1.contains_key(k) <==> m2.contains_key(k) by {
        if m2.contains_key(k) {
            let j = seq_index_of(s, k);
            if j != i {
                let tj = if j < i {
                    j
                } else {
                    j - 1
                };
                assert(t[tj] == s[j]);
            }
        }
        if m1.contains_key(k) {
            let a = seq_index_of(t, k);
            let sa = if a < i {
                a
            } else {
                a + 1
            };
            assert(t[a] == s[sa]);
            assert(s[sa].0@ != k0);
        }
    }
    assert forall|k: K::V| #[trigger] m1.contains_key(k) implies m1[k] == m2[k] by {
        let a = seq_index_of(t, k);
        lemma_seq_to_map_at(t, a);
        let sa = if a < i {
            a
        } else {
            a + 1
        };
        assert(t[a] == s[sa]);
        lemma_seq_to_map_at(s, sa);
    }
    assert(m1 =~= m2);
}

impl<K: View, V> View for KeyedVec<K, V> {
    type V = Map<K::V, V>;

    open spec fn view(&self) -> Map<K::V, V> {
        seq_to_map(self.entries())
    }
}

impl<K: View, V> KeyedVec<K, V> {
    /// The entries, in insertion order.
    pub closed spec fn entries(&self) -> Seq<(K, V)> {
        self.entries@
    }

    #[verifier::type_invariant]
    closed spec fn inv(self) -> bool {
        keys_distinct(self.entries@)
    }

}

impl<K: KeyEq, V> KeyedVec<K, V> {
    /// An empty map.
    pub fn new() -> (r: Self)
        ensures
            r.entries() == Seq::<(K, V)>::empty(),
            r@ == Map::<K::V, V>::empty(),
    {
        let r = KeyedVec { entries: Vec::new() };
        assert(r@ =~= Map::<K::V, V>::empty());
        r
    }

    /// Number of entries; the entries never share a key, and each is what the
    /// map holds for its key.
    pub fn len(&self) -> (r: usize)
        ensures
            r == self.entries().len(),
            keys_distinct(self.entries()),
            forall|i: int|
                0 <= i < self.entries().len() ==> self@.contains_key(
                    #[trigger] self.entries()[i].0@,
                ) && self@[self.entries()[i].0@] == self.entries()[i].1,
    {
        proof {
            use_type_invariant(self);
            lemma_seq_to_map_all(self.entries@);
        }
        self.entries.len()
    }

    /// The key of the `i`-th entry.
    pub fn key_at(&self, i: usize) -> (r: &K)
        requires
            i < self.entries().len(),
        ensures
            *r == self.entries()[i as int].0,
    {
        &self.entries[i].0
    }

    /// The value of the `i`-th entry.
    pub fn value_at(&self, i: usize) -> (r: &V)
        requires
            i < self.entries().len(),
        ensures
            *r == self.entries()[i as int].1,
    {
        &self.entries[i].1
    }

    /// The index of the entry with key `k`, if there is one.
    pub fn find(&self, k: &K) -> (r: Option<usize>)
        ensures
            match r {
                Some(i) => i < self.entries().len() && self.entries()[i as int].0@ == k@,
                None => !self@.contains_key(k@),
            },
    {
        let n = self.entries.len();
        let mut i: usize = 0;
        while i < n
            invariant
                n == self.entries@.len(),
                i <= n,
                forall|j: int| 0 <= j < i ==> #[trigger] self.entries@[j].0@ != k@,
            decreases n - i,
        {
            if self.entries[i].0.key_eq(k) {
                return Some(i);
            }
            i = i + 1;
        }
        None
    }

    /// Whether `k` has an entry.
    pub fn contains_key(&self, k: &K) -> (r: bool)
        ensures
            r == self@.contains_key(k@),
    {
        proof {
            use_type_invariant(self);
            lemma_seq_to_map_all(self.entries@);
        }
        match self.find(k) {
            Some(i) => {
                assert(self.entries@[i as int].0@ == k@);
                true
            },
            None => false,
        }
    }

    /// The value stored for `k`.
    pub fn get(&self, k: &K) -> (r: Option<&V>)
        ensures
            match r {
                Some(v) => self@.contains_key(k@) && *v == self@[k@],
                None => !self@.contains_key(k@),
            },
    {
        proof {
            use_type_invariant(self);
            lemma_seq_to_map_all(self.entries@);
        }
        match self.find(k) {
            Some(i) => {
                assert(self.entries@[i as int].0@ == k@);
                Some(&self.entries[i].1)
            },
            None => None,
        }
    }

    /// Stores `v` for `k`; an existing entry keeps its position. Returns the
    /// value that was replaced.
    pub fn insert(&mut self, k: K, v: V) -> (r: Option<V>)
        ensures
            final(self)@ == old(self)@.insert(k@, v),
            match r {
                Some(o) => old(self)@.contains_key(k@) && o == old(self)@[k@],
                None => !old(self)@.contains_key(k@),
            },
            old(self)@.contains_key(k@) ==> final(self).entries().len() == old(self).entries().len(),
            !old(self)@.contains_key(k@) ==> final(self).entries() == old(self).entries().push(
                (k, v),
            ),
    {
        proof {
            use_type_invariant(&*self);
            lemma_seq_to_map_all(self.entries@);
        }
        match self.find(&k) {
            Some(i) => {
                let ghost s = self.entries@;
                proof {
                    lemma_seq_to_map_update(s, i as int, (k, v));
                    lemma_seq_to_map_at(s, i as int);
                }
                let mut es: Vec<(K, V)> = Vec::new();
                std::mem::swap(&mut es, &mut self.entries);
                let mut e = (k, v);
                es.set_and_swap(i, &mut e);
                self.entries = es;
                Some(e.1)
            },
            None => {
                proof {
                    if seq_has_key(self.entries@, k@) {
                        let j = seq_index_of(self.entries@, k@);
                        lemma_seq_to_map_at(self.entries@, j);
                    }
                    lemma_seq_to_map_push(self.entries@, (k, v));
                }
                let mut es: Vec<(K, V)> = Vec::new();
                std::mem::swap(&mut es, &mut self.entries);
                es.push((k, v));
                self.entries = es;
                None
            },
        }
    }

    /// Removes the entry for `k`, keeping the order of the others. Returns the
    /// removed value.
    pub fn remove(&mut self, k: &K) -> (r: Option<V>)
        ensures
            final(self)@ == old(self)@.remove(k@),
            match r {
                Some(o) => old(self)@.contains_key(k@) && o == old(self)@[k@],
                None => !old(self)@.contains_key(k@) && final(self).entries() == old(
                    self,
                ).entries(),
            },
    {
        proof {
            use_type_invariant(&*self);
            lemma_seq_to_map_all(self.entries@);
        }
        match self.find(k) {
            Some(i) => {
                let ghost s = self.entries@;
                proof {
                    lemma_seq_to_map_remove(s, i as int);
                    lemma_seq_to_map_at(s, i as int);
                }
                let mut es: Vec<(K, V)> = Vec::new();
                std::mem::swap(&mut es, &mut self.entries);
                let e = es.remove(i);
                self.entries = es;
                Some(e.1)
            },
            None => {
                assert(old(self)@.remove(k@) =~= old(self)@);
                None
            },
        }
    }
}

} // verus!
