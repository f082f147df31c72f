//! A finite map kept as a vector of entries with distinct keys.
//! Keys are strings or integers; the map is viewed as a `Map` of key views.
use vstd::prelude::*;

use crate::strings::{starts_with, str_eq};

verus! {

/// A key type whose equality and copying are specified over its view.
pub trait MapKey: Sized + View {
    fn key_eq(&self, other: &Self) -> (r: bool)
        ensures
            r == (self@ == other@),
    ;

    fn key_clone(&self) -> (r: Self)
        ensures
            r@ == self@,
    ;
}

impl MapKey for String {
    fn key_eq(&self, other: &Self) -> (r: bool) {
        str_eq(self.as_str(), other.as_str())
    }

    fn key_clone(&self) -> (r: Self) {
        String::from_str(self.as_str())
    }
}

impl MapKey for u32 {
    fn key_eq(&self, other: &Self) -> (r: bool) {
        *self == *other
    }

    fn key_clone(&self) -> (r: Self) {
        *self
    }
}

/// Whether entry `i` of `entries` holds key `k`.
pub open spec fn has_key_at<K: View, V>(entries: Seq<(K, V)>, i: int, k: K::V) -> bool {
    0 <= i < entries.len() && entries[i].0@ == k
}

pub open spec fn keys_distinct<K: View, V>(entries: Seq<(K, V)>) -> bool {
    forall|i: int, j: int|
        0 <= i < entries.len() && 0 <= j < entries.len() && i != j ==> #[trigger] entries[i].0@
            != #[trigger] entries[j].0@
}

/// The map that a sequence of entries with distinct keys stands for.
pub open spec fn entries_map<K: View, V>(entries: Seq<(K, V)>) -> Map<K::V, V> {
    Map::new(
        |k: K::V| exists|i: int| has_key_at(entries, i, k),
        |k: K::V| entries[choose|i: int| has_key_at(entries, i, k)].1,
    )
}

pub proof fn lemma_entries_map_at<K: View, V>(entries: Seq<(K, V)>, i: int)
    requires
        keys_distinct(entries),
        0 <= i < entries.len(),
    ensures
        entries_map(entries).contains_key(entries[i].0@),
        entries_map(entries)[entries[i].0@] == entries[i].1,
{
    let k = entries[i].0@;
    assert(has_key_at(entries, i, k));
    let j = choose|j: int| has_key_at(entries, j, k);
    assert(j == i);
}

#[derive(Debug)]
pub struct KeyMap<K: MapKey, V> {
    entries: Vec<(K, V)>,
}

impl<K: MapKey, V> View for KeyMap<K, V> {
    type V = Map<K::V, V>;

    closed spec fn view(&self) -> Map<K::V, V> {
        entries_map(self.entries@)
    }
}

impl<K: MapKey, V> KeyMap<K, V> {
    #[verifier::type_invariant]
    spec fn inv(self) -> bool {
        keys_distinct(self.entries@)
    }

    /// The number of entries (a measure that `insert` raises by at most one).
    pub closed spec fn spec_len(&self) -> nat {
        self.entries@.len()
    }

    /// An empty map.
    pub fn new() -> (m: Self)
        ensures
            m@ == Map::<K::V, V>::empty(),
            m.spec_len() == 0,
    {
        let m = KeyMap { entries: Vec::new() };
        assert(m@ =~= Map::<K::V, V>::empty());
        m
    }

    /// Whether the map has no entry.
    pub fn is_empty(&self) -> (r: bool)
        ensures
            r == (self@ == Map::<K::V, V>::empty()),
    {
        proof {
            use_type_invariant(self);
        }
        if self.entries.len() == 0 {
            assert(self@ =~= Map::<K::V, V>::empty());
            true
        } else {
            proof {
                lemma_entries_map_at(self.entries@, 0);
            }
            false
        }
    }

    /// The number of entries, which is the number of keys.
    pub fn len(&self) -> (r: usize)
        ensures
            self@.dom().finite(),
            r == self@.dom().len(),
    {
        proof {
            use_type_invariant(self);
            self.lemma_dom_len();
        }
        self.entries.len()
    }

    proof fn lemma_dom_len(&self)
        requires
            keys_distinct(self.entries@),
        ensures
            self@.dom().finite(),
            self@.dom().len() == self.entries@.len(),
    {
        let s = self.entries@.map_values(|e: (K, V)| e.0@);
        assert forall|i: int, j: int| 0 <= i < s.len() && 0 <= j < s.len() && i != j implies s[i]
            != s[j] by {
            assert(self.entries@[i].0@ != self.entries@[j].0@);
        }
        assert(s.no_duplicates());
        assert(self@.dom() =~= s.to_set()) by {
            assert forall|k: K::V| self@.dom().contains(k) implies s.to_set().contains(k) by {
                let i = choose|i: int| has_key_at(self.entries@, i, k);
                assert(s[i] == k);
            }
            assert forall|k: K::V| s.to_set().contains(k) implies self@.dom().contains(k) by {
                let i = choose|i: int| 0 <= i < s.len() && s[i] == k;
                assert(has_key_at(self.entries@, i, k));
            }
        }
        s.unique_seq_to_set();
    }

    /// Finds the index of key `k`, if present.
    fn find(&self, k: &K) -> (r: Option<usize>)
        requires
            keys_distinct(self.entries@),
        ensures
            match r {
                Some(i) => has_key_at(self.entries@, i as int, k@),
                None => forall|i: int| !has_key_at(self.entries@, i, k@),
            },
    {
        let n = self.entries.len();
        let mut i: usize = 0;
        while i < n
            invariant
                n == self.entries@.len(),
                i <= n,
                forall|j: int| 0 <= j < i ==> !has_key_at(self.entries@, j, k@),
            decreases n - i,
        {
            if self.entries[i].0.key_eq(k) {
                return Some(i);
            }
            i = i + 1;
        }
        None
    }

    /// The value stored for `k`, if any.
    pub fn get(&self, k: &K) -> (r: Option<&V>)
        ensures
            match r {
                Some(v) => self@.contains_key(k@) && self@[k@] == *v,
                None => !self@.contains_key(k@),
            },
            self@.dom().finite(),
    {
        proof {
            use_type_invariant(self);
            self.lemma_dom_len();
        }
        match self.find(k) {
            Some(i) => {
                proof {
                    lemma_entries_map_at(self.entries@, i as int);
                }
                Some(&self.entries[i].1)
            },
            None => None,
        }
    }

    /// Whether `k` has an entry.
    pub fn contains_key(&self, k: &K) -> (r: bool)
        ensures
            r == self@.contains_key(k@),
    {
        proof {
            use_type_invariant(self);
        }
        self.find(k).is_some()
    }

    /// Stores `v` for `k`, replacing any earlier value.
    pub fn insert(&mut self, k: K, v: V)
        ensures
            final(self)@ == old(self)@.insert(k@, v),
            final(self).spec_len() <= old(self).spec_len() + 1,
    {
        proof {
            use_type_invariant(&*self);
        }
        let ghost old_entries = self.entries@;
        let ghost kv = k@;
        match self.find(&k) {
            Some(i) => {
                let mut es: Vec<(K, V)> = Vec::new();
                std::mem::swap(&mut es, &mut self.entries);
                es.set(i, (k, v));
                self.entries = es;
                proof {
                    let ne = self.entries@;
                    assert(ne =~= old_entries.update(i as int, (ne[i as int].0, v)));
                    assert(keys_distinct(ne)) by {
                        assert forall|a: int, b: int|
                            0 <= a < ne.len() && 0 <= b < ne.len() && a != b implies #[trigger] ne[a].0@
                            != #[trigger] ne[b].0@ by {
                            assert(old_entries[a].0@ != old_entries[b].0@);
                        }
                    }
                    assert(entries_map(ne) =~= entries_map(old_entries).insert(kv, v)) by {
                        assert forall|q: K::V| #[trigger]
                            entries_map(ne).contains_key(q) == entries_map(old_entries).insert(
                                kv,
                                v,
                            ).contains_key(q) by {
                            if entries_map(ne).contains_key(q) {
                                let j = choose|j: int| has_key_at(ne, j, q);
                                assert(has_key_at(old_entries, j, q));
                            }
                            if entries_map(old_entries).contains_key(q) {
                                let j = choose|j: int| has_key_at(old_entries, j, q);
                                assert(has_key_at(ne, j, q));
                            }
                            if q == kv {
                                assert(has_key_at(ne, i as int, q));
                            }
                        }
                        assert forall|q: K::V| #[trigger]
                            entries_map(ne).contains_key(q) implies entries_map(ne)[q]
                            == entries_map(old_entries).insert(kv, v)[q] by {
                            let j = choose|j: int| has_key_at(ne, j, q);
                            lemma_entries_map_at(ne, j);
                            if j != i {
                                lemma_entries_map_at(old_entries, j);
                            }
                        }
                    }
                }
            },
            None => {
                let mut es: Vec<(K, V)> = Vec::new();
                std::mem::swap(&mut es, &mut self.entries);
                es.push((k, v));
                proof {
                    let ne = es@;
                    let n = old_entries.len() as int;
                    assert(keys_distinct(ne)) by {
                        assert forall|a: int, b: int|
                            0 <= a < ne.len() && 0 <= b < ne.len() && a != b implies #[trigger] ne[a].0@
                            != #[trigger] ne[b].0@ by {
                            if a < n && b < n {
                                assert(old_entries[a].0@ != old_entries[b].0@);
                            } else if a == n {
                                assert(!has_key_at(old_entries, b, kv));
                            } else {
                                assert(!has_key_at(old_entries, a, kv));
                            }
                        }
                    }
                    assert(entries_map(ne) =~= entries_map(old_entries).insert(kv, v)) by {
                        assert forall|q: K::V| #[trigger]
                            entries_map(ne).contains_key(q) == entries_map(old_entries).insert(
                                kv,
                                v,
                            ).contains_key(q) by {
                            if entries_map(ne).contains_key(q) {
                                let j = choose|j: int| has_key_at(ne, j, q);
                                if j < n {
                                    assert(has_key_at(old_entries, j, q));
                                }
                            }
                            if entries_map(old_entries).contains_key(q) {
                                let j = choose|j: int| has_key_at(old_entries, j, q);
                                assert(has_key_at(ne, j, q));
                            }
                            if q == kv {
                                assert(has_key_at(ne, n, q));
                            }
                        }
                        assert forall|q: K::V| #[trigger]
                            entries_map(ne).contains_key(q) implies entries_map(ne)[q]
                            == entries_map(old_entries).insert(kv, v)[q] by {
                            let j = choose|j: int| has_key_at(ne, j, q);
                            lemma_entries_map_at(ne, j);
                            if j < n {
                                lemma_entries_map_at(old_entries, j);
                            }
                        }
                    }
                }
                self.entries = es;
            },
        }
    }

    /// Removes the entry of `k` and hands back its value, if any.
    pub fn remove(&mut self, k: &K) -> (r: Option<V>)
        ensures
            final(self)@ == old(self)@.remove(k@),
            match r {
                Some(v) => old(self)@.contains_key(k@) && old(self)@[k@] == v,
                None => !old(self)@.contains_key(k@),
            },
            r is Some ==> final(self).spec_len() + 1 == old(self).spec_len(),
            r is None ==> final(self).spec_len() == old(self).spec_len(),
            old(self)@.dom().finite(),
    {
        proof {
            use_type_invariant(&*self);
            self.lemma_dom_len();
        }
        let ghost old_entries = self.entries@;
        let ghost kv = k@;
        match self.find(k) {
            Some(i) => {
                proof {
                    lemma_entries_map_at(old_entries, i as int);
                }
                let mut es: Vec<(K, V)> = Vec::new();
                std::mem::swap(&mut es, &mut self.entries);
                let (_, v) = es.remove(i);
                self.entries = es;
                proof {
                    let ne = self.entries@;
                    assert(ne =~= old_entries.remove(i as int));
                    assert forall|a: int| 0 <= a < ne.len() implies #[trigger] ne[a] == (if a < i {
                        old_entries[a]
                    } else {
                        old_entries[a + 1]
                    }) by {}
                    assert(keys_distinct(ne)) by {
                        assert forall|a: int, b: int|
                            0 <= a < ne.len() && 0 <= b < ne.len() && a != b implies #[trigger] ne[a].0@
                            != #[trigger] ne[b].0@ by {
                            let a1 = if a < i {
                                a
                            } else {
                                a + 1
                            };
                            let b1 = if b < i {
                                b
                            } else {
                                b + 1
                            };
                            assert(old_entries[a1].0@ != old_entries[b1].0@);
                        }
                    }
                    assert(entries_map(ne) =~= entries_map(old_entries).remove(kv)) by {
                        assert forall|q: K::V| #[trigger]
                            entries_map(ne).contains_key(q) == entries_map(old_entries).remove(
                                kv,
                            ).contains_key(q) by {
                            if entries_map(ne).contains_key(q) {
                                let j = choose|j: int| has_key_at(ne, j, q);
                                let j1 = if j < i {
                                    j
                                } else {
                                    j + 1
                                };
                                assert(has_key_at(old_entries, j1, q));
                                assert(j1 != i);
                            }
                            if entries_map(old_entries).contains_key(q) && q != kv {
                                let j = choose|j: int| has_key_at(old_entries, j, q);
                                assert(j != i);
                                let j0 = if j < i {
                                    j
                                } else {
                                    j - 1
                                };
                                assert(has_key_at(ne, j0, q));
                            }
                        }
                        assert forall|q: K::V| #[trigger]
                            entries_map(ne).contains_key(q) implies entries_map(ne)[q]
                            == entries_map(old_entries).remove(kv)[q] by {
                            let j = choose|j: int| has_key_at(ne, j, q);
                            lemma_entries_map_at(ne, j);
                            let j1 = if j < i {
                                j
                            } else {
                                j + 1
                            };
                            lemma_entries_map_at(old_entries, j1);
                        }
                    }
                }
                Some(v)
            },
            None => {
                assert(entries_map(old_entries) =~= entries_map(old_entries).remove(kv));
                None
            },
        }
    }

    /// The entries, each key once, in some order.
    pub fn into_pairs(self) -> (r: Vec<(K, V)>)
        ensures
            keys_distinct(r@),
            entries_map(r@) == self@,
    {
        proof {
            use_type_invariant(&self);
        }
        self.entries
    }

    /// All keys, each once, in some order.
    pub fn keys(&self) -> (r: Vec<K>)
        ensures
            forall|i: int| 0 <= i < r.len() ==> self@.contains_key(#[trigger] r@[i]@),
            forall|k: K::V| self@.contains_key(k) ==> exists|i: int| 0 <= i < r.len() && r@[i]@ == k,
            forall|i: int, j: int| 0 <= i < r.len() && 0 <= j < r.len() && i != j ==> r@[i]@ != r@[j]@,
    {
        proof {
            use_type_invariant(self);
        }
        let n = self.entries.len();
        let mut r: Vec<K> = Vec::new();
        let mut i: usize = 0;
        while i < n
            invariant
                n == self.entries@.len(),
                i <= n,
                keys_distinct(self.entries@),
                r.len() == i,
                forall|j: int| 0 <= j < i ==> #[trigger] r@[j]@ == self.entries@[j].0@,
            decreases n - i,
        {
            r.push(self.entries[i].0.key_clone());
            i = i + 1;
        }
        proof {
            assert forall|a: int| 0 <= a < r.len() implies self@.contains_key(#[trigger] r@[a]@) by {
                lemma_entries_map_at(self.entries@, a);
            }
            assert forall|k: K::V| self@.contains_key(k) implies exists|a: int|
                0 <= a < r.len() && r@[a]@ == k by {
                let a = choose|a: int| has_key_at(self.entries@, a, k);
                assert(r@[a]@ == k);
            }
            assert forall|a: int, b: int| 0 <= a < r.len() && 0 <= b < r.len() && a != b implies r@[a]@
                != r@[b]@ by {
                assert(self.entries@[a].0@ != self.entries@[b].0@);
            }
        }
        r
    }
}

impl<V> KeyMap<String, V> {
    /// Drops every entry whose key starts with `prefix`; the others stay as they were.
    pub fn retain_not_prefixed(&mut self, prefix: &str)
        ensures
            forall|k: Seq<char>| #[trigger]
                final(self)@.contains_key(k) == (old(self)@.contains_key(k)
                    && !prefix@.is_prefix_of(k)),
            forall|k: Seq<char>| #[trigger]
                final(self)@.contains_key(k) ==> final(self)@[k] == old(self)@[k],
            final(self).spec_len() <= old(self).spec_len(),
    {
        proof {
            use_type_invariant(&*self);
        }
        let ghost old_entries = self.entries@;
        let mut kept: Vec<(String, V)> = Vec::new();
        let mut rest: Vec<(String, V)> = Vec::new();
        std::mem::swap(&mut rest, &mut self.entries);
        proof {
            assert(rest@ == old_entries);
        }
        let mut consumed: Vec<bool> = Vec::new();
        let n = rest.len();
        let mut i: usize = 0;
        // Walk the old entries from the back so that `pop` hands them out.
        while i < n
            invariant
                n == old_entries.len(),
                i <= n,
                rest@ == old_entries.subrange(0, n - i),
                kept@.len() <= i,
                keys_distinct(old_entries),
                keys_distinct(kept@),
                forall|a: int|
                    0 <= a < kept.len() ==> exists|b: int|
                        n - i <= b < n && #[trigger] kept@[a] == old_entries[b],
                forall|b: int|
                    n - i <= b < n && !prefix@.is_prefix_of(#[trigger] old_entries[b].0@)
                        ==> exists|a: int| 0 <= a < kept.len() && kept@[a] == old_entries[b],
                forall|a: int| 0 <= a < kept.len() ==> !prefix@.is_prefix_of(#[trigger] kept@[a].0@),
            decreases n - i,
        {
            let e = rest.pop().unwrap();
            proof {
                assert(e == old_entries[n - i - 1]);
            }
            let keep = !starts_with(e.0.as_str(), prefix);
            if keep {
                let ghost old_kept = kept@;
                kept.push(e);
                proof {
                    let b0 = n - i - 1;
                    assert forall|a: int, c: int|
                        0 <= a < kept.len() && 0 <= c < kept.len() && a != c implies #[trigger] kept@[a].0@
                        != #[trigger] kept@[c].0@ by {
                        if a < old_kept.len() && c < old_kept.len() {
                        } else if a == old_kept.len() {
                            let b = choose|b: int| n - i <= b < n && old_kept[c] == old_entries[b];
                            assert(old_entries[b].0@ != old_entries[b0].0@);
                        } else {
                            let b = choose|b: int| n - i <= b < n && old_kept[a] == old_entries[b];
                            assert(old_entries[b].0@ != old_entries[b0].0@);
                        }
                    }
                    assert forall|a: int| 0 <= a < kept.len() implies exists|b: int|
                        n - (i + 1) <= b < n && #[trigger] kept@[a] == old_entries[b] by {
                        if a < old_kept.len() {
                            let b = choose|b: int| n - i <= b < n && old_kept[a] == old_entries[b];
                            assert(kept@[a] == old_entries[b]);
                        } else {
                            assert(kept@[a] == old_entries[b0]);
                        }
                    }
                    assert forall|b: int|
                        n - (i + 1) <= b < n && !prefix@.is_prefix_of(
                            #[trigger] old_entries[b].0@,
                        ) implies exists|a: int| 0 <= a < kept.len() && kept@[a] == old_entries[b] by {
                        if b == b0 {
                            assert(kept@[old_kept.len() as int] == old_entries[b]);
                        } else {
                            let a = choose|a: int| 0 <= a < old_kept.len() && old_kept[a] == old_entries[b];
                            assert(kept@[a] == old_entries[b]);
                        }
                    }
                }
            }
            proof {
                assert(rest@ =~= old_entries.subrange(0, n - (i + 1)));
            }
            i = i + 1;
        }
        self.entries = kept;
        proof {
            let ne = self.entries@;
            assert forall|k: Seq<char>| #[trigger]
                entries_map(ne).contains_key(k) == (entries_map(old_entries).contains_key(k)
                    && !prefix@.is_prefix_of(k)) by {
                if entries_map(ne).contains_key(k) {
                    let a = choose|a: int| has_key_at(ne, a, k);
                    let b = choose|b: int| 0 <= b < n && ne[a] == old_entries[b];
                    assert(has_key_at(old_entries, b, k));
                }
                if entries_map(old_entries).contains_key(k) && !prefix@.is_prefix_of(k) {
                    let b = choose|b: int| has_key_at(old_entries, b, k);
                    let a = choose|a: int| 0 <= a < ne.len() && ne[a] == old_entries[b];
                    assert(has_key_at(ne, a, k));
                }
            }
            assert forall|k: Seq<char>| #[trigger]
                entries_map(ne).contains_key(k) implies entries_map(ne)[k] == entries_map(
                old_entries,
            )[k] by {
                let a = choose|a: int| has_key_at(ne, a, k);
                let b = choose|b: int| 0 <= b < n && ne[a] == old_entries[b];
                lemma_entries_map_at(ne, a);
                lemma_entries_map_at(old_entries, b);
            }
        }
    }
}

/// The values stored for the ids that have an entry, in the order of the ids.
pub open spec fn spec_values_of_ids<V>(m: Map<Seq<char>, V>, ids: Seq<Seq<char>>) -> Seq<V>
    decreases ids.len(),
{
    if ids.len() == 0 {
        Seq::empty()
    } else {
        let prev = spec_values_of_ids(m, ids.drop_last());
        if m.contains_key(ids.last()) {
            prev.push(m[ids.last()])
        } else {
            prev
        }
    }
}

/// Looks up each id in `m`, skipping the ids without an entry.
pub fn values_of_ids<'a, V>(m: &'a KeyMap<String, V>, ids: &Vec<String>) -> (r: Vec<&'a V>)
    ensures
        r@.map_values(|v: &V| *v) == spec_values_of_ids(m@, ids@.map_values(|s: String| s@)),
{
    let ghost idv = ids@.map_values(|s: String| s@);
    let mut r: Vec<&'a V> = Vec::new();
    let n = ids.len();
    let mut i: usize = 0;
    while i < n
        invariant
            n == ids.len(),
            i <= n,
            idv == ids@.map_values(|s: String| s@),
            r@.map_values(|v: &V| *v) == spec_values_of_ids(m@, idv.take(i as int)),
        decreases n - i,
    {
        let ghost before = r@;
        proof {
            assert(idv.take(i + 1).drop_last() =~= idv.take(i as int));
            assert(idv.take(i + 1).last() == ids@[i as int]@);
        }
        match m.get(&ids[i]) {
            Some(v) => {
                r.push(v);
                proof {
                    assert(r@.map_values(|v: &V| *v) =~= before.map_values(|v: &V| *v).push(*v));
                }
            },
            None => {},
        }
        i = i + 1;
    }
    proof {
        assert(idv.take(n as int) =~= idv);
    }
    r
}

} // verus!
