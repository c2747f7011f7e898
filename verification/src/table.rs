//! A map from strings to values, kept as a list of entries without repeated
//! keys. It stands where the configuration uses a hash map keyed by strings:
//! lookups, inserts and replacements behave as on a map, and the entries keep
//! the order in which their keys first arrived.
use crate::order::{seq_le, seq_lt, sort_order};
use crate::text::str_equal;
use vstd::prelude::*;

verus! {

/// A map from strings to values.
#[derive(Debug)]
pub struct StrMap<V> {
    entries: Vec<(String, V)>,
}

impl<V> StrMap<V> {
    /// No key occurs twice among the entries.
    #[verifier::type_invariant]
    spec fn keys_distinct(self) -> bool {
        forall|i: int, j: int|
            0 <= i < j < self.entries@.len() ==> self.entries@[i].0@ != self.entries@[j].0@
    }

    /// The keys, in the order of the entries.
    pub closed spec fn key_order(&self) -> Seq<Seq<char>> {
        self.entries@.map_values(|e: (String, V)| e.0@)
    }

    /// The values, in the order of the entries.
    pub closed spec fn value_order(&self) -> Seq<V> {
        self.entries@.map_values(|e: (String, V)| e.1)
    }

    /// Whether `k` is a key of the map.
    pub open spec fn has(&self, k: Seq<char>) -> bool {
        self.key_order().contains(k)
    }

    /// The contents as a mathematical map.
    pub open spec fn as_map(&self) -> Map<Seq<char>, V> {
        Map::new(
            |k: Seq<char>| self.has(k),
            |k: Seq<char>| self.value_order()[self.key_order().index_of(k)],
        )
    }

    /// Whether the key order lists no key twice. This holds of every map that
    /// executable code holds.
    pub open spec fn well_keyed(&self) -> bool {
        self.key_order().no_duplicates()
    }

    proof fn lemma_well_keyed(&self)
        requires
            self.keys_distinct(),
        ensures
            self.well_keyed(),
            self.key_order().len() == self.entries@.len(),
            self.value_order().len() == self.entries@.len(),
    {
    }

    /// The empty map.
    pub fn new() -> (m: Self)
        ensures
            m.key_order() == Seq::<Seq<char>>::empty(),
            m.as_map() == Map::<Seq<char>, V>::empty(),
    {
        let m = StrMap { entries: Vec::new() };
        assert(m.key_order() =~= Seq::<Seq<char>>::empty());
        assert(m.as_map() =~= Map::<Seq<char>, V>::empty());
        m
    }

    /// The number of entries.
    pub fn len(&self) -> (n: usize)
        ensures
            n == self.key_order().len(),
            self.well_keyed(),
            self.value_order().len() == self.key_order().len(),
    {
        proof {
            use_type_invariant(self);
            self.lemma_well_keyed();
        }
        self.entries.len()
    }

    /// Whether the map is empty.
    pub fn is_empty(&self) -> (b: bool)
        ensures
            b == (self.key_order().len() == 0),
    {
        self.entries.len() == 0
    }

    /// The key of the entry at position `i`.
    pub fn key_at(&self, i: usize) -> (k: &String)
        requires
            i < self.key_order().len(),
        ensures
            k@ == self.key_order()[i as int],
    {
        &self.entries[i].0
    }

    /// The value of the entry at position `i`.
    pub fn value_at(&self, i: usize) -> (v: &V)
        requires
            i < self.key_order().len(),
        ensures
            *v == self.value_order()[i as int],
    {
        &self.entries[i].1
    }

    /// The position of the entry whose key is `k`, if any.
    pub fn position(&self, k: &str) -> (r: Option<usize>)
        ensures
            self.well_keyed(),
            self.value_order().len() == self.key_order().len(),
            match r {
                Some(i) => i < self.key_order().len() && self.key_order()[i as int] == k@
                    && self.key_order().index_of(k@) == i,
                None => !self.has(k@),
            },
    {
        proof {
            use_type_invariant(self);
            self.lemma_well_keyed();
        }
        let mut i: usize = 0;
        while i < self.entries.len()
            invariant
                i <= self.entries@.len(),
                self.keys_distinct(),
                forall|j: int| 0 <= j < i ==> self.entries@[j].0@ != k@,
            decreases self.entries@.len() - i,
        {
            if str_equal(self.entries[i].0.as_str(), k) {
                proof {
                    let ko = self.key_order();
                    assert(ko[i as int] == k@);
                    assert(ko.contains(k@));
                    let t = ko.index_of(k@);
                    assert(ko[t] == k@);
                }
                return Some(i);
            }
            i = i + 1;
        }
        proof {
            if self.key_order().contains(k@) {
                let t = choose|t: int| 0 <= t < self.key_order().len() && self.key_order()[t] == k@;
                assert(self.entries@[t].0@ == k@);
            }
        }
        None
    }

    /// Whether `k` is a key of the map.
    pub fn contains_key(&self, k: &str) -> (b: bool)
        ensures
            b == self.has(k@),
    {
        self.position(k).is_some()
    }

    /// The value stored under `k`, if any.
    pub fn get(&self, k: &str) -> (r: Option<&V>)
        ensures
            self.as_map().dom().contains(k@) == self.has(k@),
            match r {
                Some(v) => self.has(k@) && *v == self.as_map()[k@],
                None => !self.has(k@),
            },
    {
        match self.position(k) {
            Some(i) => Some(&self.entries[i].1),
            None => None,
        }
    }

    /// Stores `v` under `k`, replacing the value already there if `k` is a
    /// key; a new key goes after the existing ones.
    pub fn insert(&mut self, k: String, v: V)
        ensures
            final(self).as_map() == old(self).as_map().insert(k@, v),
            final(self).key_order() == (if old(self).has(k@) {
                old(self).key_order()
            } else {
                old(self).key_order().push(k@)
            }),
    {
        proof {
            use_type_invariant(&*self);
            self.lemma_well_keyed();
        }
        let ghost old_keys = self.key_order();
        let ghost old_vals = self.value_order();
        let ghost old_map = self.as_map();
        match self.position(k.as_str()) {
            Some(i) => {
                let mut es: Vec<(String, V)> = Vec::new();
                std::mem::swap(&mut es, &mut self.entries);
                let (key, _old_value) = es.remove(i);
                es.insert(i, (key, v));
                proof {
                    assert(es@.map_values(|e: (String, V)| e.0@) =~= old_keys);
                }
                self.entries = es;
                proof {
                    assert(self.key_order() =~= old_keys);
                    assert(self.value_order() =~= old_vals.update(i as int, v));
                    assert(self.as_map() =~= old_map.insert(k@, v));
                }
            },
            None => {
                let ghost kv = k@;
                let mut es: Vec<(String, V)> = Vec::new();
                std::mem::swap(&mut es, &mut self.entries);
                es.push((k, v));
                proof {
                    assert(es@.map_values(|e: (String, V)| e.0@) =~= old_keys.push(kv));
                    assert forall|a: int, b: int|
                        0 <= a < b < es@.len() implies es@[a].0@ != es@[b].0@ by {
                        if b == es@.len() - 1 {
                            assert(old_keys[a] == es@[a].0@);
                        } else {
                            assert(old_keys[a] == es@[a].0@);
                            assert(old_keys[b] == es@[b].0@);
                        }
                    }
                }
                self.entries = es;
                proof {
                    assert(self.key_order() =~= old_keys.push(kv));
                    assert(self.value_order() =~= old_vals.push(v));
                    assert forall|a: int, b: int|
                        0 <= a < b < self.entries@.len() implies self.entries@[a].0@
                        != self.entries@[b].0@ by {
                        if b == self.entries@.len() - 1 {
                            assert(old_keys[a] == self.entries@[a].0@);
                        }
                    }
                    assert forall|key: Seq<char>| #[trigger]
                        self.as_map().dom().contains(key) == old_map.insert(
                            kv,
                            v,
                        ).dom().contains(key) by {
                        assert(self.key_order() == old_keys.push(kv));
                        if key == kv {
                            assert(old_keys.push(kv)[old_keys.len() as int] == key);
                        }
                        if key != kv && old_keys.push(kv).contains(key) {
                            let t = choose|t: int|
                                0 <= t < old_keys.push(kv).len() && old_keys.push(kv)[t] == key;
                            assert(old_keys[t] == key);
                        }
                        if old_keys.contains(key) {
                            let t = choose|t: int| 0 <= t < old_keys.len() && old_keys[t] == key;
                            assert(old_keys.push(kv)[t] == key);
                        }
                    }
                    assert forall|key: Seq<char>| #[trigger]
                        self.as_map().dom().contains(key) implies self.as_map()[key]
                        == old_map.insert(kv, v)[key] by {
                        let nk = old_keys.push(kv);
                        if key == kv {
                            assert(nk[old_keys.len() as int] == kv);
                            let t = nk.index_of(kv);
                            assert(nk[t] == kv);
                            assert(t == old_keys.len());
                        } else {
                            let t = nk.index_of(key);
                            assert(nk[t] == key);
                            assert(t < old_keys.len());
                            assert(old_keys[t] == key);
                            let u = old_keys.index_of(key);
                            assert(old_keys[u] == key);
                            assert(nk[u] == key);
                            assert(u == t);
                        }
                    }
                    assert(self.as_map() =~= old_map.insert(kv, v));
                }
            },
        }
    }

    /// Replaces the value stored under `k`, if `k` is a key, and hands back
    /// the value that was there; the keys and their order do not change. When
    /// `k` is not a key, nothing changes and `None` comes back.
    pub fn replace(&mut self, k: &str, v: V) -> (r: Option<V>)
        ensures
            final(self).key_order() == old(self).key_order(),
            match r {
                Some(prev) => old(self).has(k@) && prev == old(self).as_map()[k@]
                    && final(self).as_map() == old(self).as_map().insert(k@, v),
                None => !old(self).has(k@) && final(self).as_map() == old(self).as_map(),
            },
    {
        proof {
            use_type_invariant(&*self);
            self.lemma_well_keyed();
        }
        let ghost old_keys = self.key_order();
        let ghost old_vals = self.value_order();
        let ghost old_map = self.as_map();
        match self.position(k) {
            Some(i) => {
                let mut es: Vec<(String, V)> = Vec::new();
                std::mem::swap(&mut es, &mut self.entries);
                let (key, prev) = es.remove(i);
                es.insert(i, (key, v));
                proof {
                    assert(es@.map_values(|e: (String, V)| e.0@) =~= old_keys);
                }
                self.entries = es;
                proof {
                    assert(self.key_order() =~= old_keys);
                    assert(self.value_order() =~= old_vals.update(i as int, v));
                    assert(self.as_map() =~= old_map.insert(k@, v));
                }
                Some(prev)
            },
            None => None,
        }
    }
}

} // verus!

verus! {

impl View for StrMap<String> {
    type V = Map<Seq<char>, Seq<char>>;

    /// The map from keys to the characters of their values.
    open spec fn view(&self) -> Map<Seq<char>, Seq<char>> {
        self.as_map().map_values(|s: String| s@)
    }
}

impl View for StrMap<StrMap<String>> {
    type V = Map<Seq<char>, Map<Seq<char>, Seq<char>>>;

    /// The map from keys to the views of their inner maps.
    open spec fn view(&self) -> Map<Seq<char>, Map<Seq<char>, Seq<char>>> {
        self.as_map().map_values(|m: StrMap<String>| m@)
    }
}

/// In a sequence without repeats, the element at `j` is found at `j`.
pub proof fn lemma_index_of_unique<A>(s: Seq<A>, j: int)
    requires
        s.no_duplicates(),
        0 <= j < s.len(),
    ensures
        s.contains(s[j]),
        s.index_of(s[j]) == j,
{
    assert(s.contains(s[j]));
    let t = s.index_of(s[j]);
    assert(s[t] == s[j]);
}

impl<V> StrMap<V> {
    /// There are as many values as keys, one per entry.
    pub proof fn lemma_orders_match(&self)
        ensures
            self.value_order().len() == self.key_order().len(),
    {
    }

    /// The map has as many keys as entries.
    pub proof fn lemma_dom_len(&self)
        requires
            self.well_keyed(),
        ensures
            self.as_map().dom().finite(),
            self.as_map().dom().len() == self.key_order().len(),
    {
        assert(self.as_map().dom() =~= self.key_order().to_set());
        self.key_order().unique_seq_to_set();
    }

    /// The entry at position `j` is what the map holds under its key.
    pub proof fn lemma_entry(&self, j: int)
        requires
            self.well_keyed(),
            self.value_order().len() == self.key_order().len(),
            0 <= j < self.key_order().len(),
        ensures
            self.has(self.key_order()[j]),
            self.as_map().dom().contains(self.key_order()[j]),
            self.as_map()[self.key_order()[j]] == self.value_order()[j],
    {
        lemma_index_of_unique(self.key_order(), j);
    }
}

/// Whether `list` holds exactly the entries of `m`, in strictly increasing
/// order of their keys.
pub open spec fn sorted_listing<'a>(list: Seq<(&'a str, &'a str)>, m: Map<Seq<char>, Seq<char>>) -> bool {
    &&& forall|i: int|
        0 <= i < list.len() ==> m.contains_key(#[trigger] list[i].0@) && m[list[i].0@]
            == list[i].1@
    &&& forall|k: Seq<char>|
        #[trigger] m.contains_key(k) ==> exists|i: int|
            0 <= i < list.len() && #[trigger] list[i].0@ == k
    &&& forall|i: int, j: int| 0 <= i < j < list.len() ==> seq_lt(list[i].0@, list[j].0@)
}

impl StrMap<String> {
    /// The entries as (key, value) pairs, in strictly increasing order of
    /// their keys.
    pub fn sorted_pairs(&self) -> (r: Vec<(&str, &str)>)
        ensures
            r@.len() == self.key_order().len(),
            sorted_listing(r@, self@),
    {
        let n = self.len();
        proof {
            use_type_invariant(self);
            self.lemma_well_keyed();
        }
        let mut keys: Vec<String> = Vec::new();
        let mut i: usize = 0;
        while i < n
            invariant
                i <= n,
                n == self.key_order().len(),
                keys@.len() == i,
                forall|t: int| 0 <= t < i ==> #[trigger] keys@[t]@ == self.key_order()[t],
            decreases n - i,
        {
            keys.push(self.key_at(i).clone());
            i = i + 1;
        }
        let perm = sort_order(&keys);
        let ghost ks = keys@.map_values(|k: String| k@);
        assert(ks =~= self.key_order());
        let mut out: Vec<(&str, &str)> = Vec::new();
        let mut q: usize = 0;
        while q < n
            invariant
                q <= n,
                n == self.key_order().len(),
                self.well_keyed(),
                self.value_order().len() == n,
                perm@.len() == n,
                forall|t: int| 0 <= t < n ==> #[trigger] perm@[t] < n,
                out@.len() == q,
                forall|t: int|
                    0 <= t < q ==> #[trigger] out@[t].0@ == self.key_order()[perm@[t] as int]
                        && out@[t].1@ == self.value_order()[perm@[t] as int]@,
            decreases n - q,
        {
            let j = perm[q];
            out.push((self.key_at(j).as_str(), self.value_at(j).as_str()));
            q = q + 1;
        }
        proof {
            assert forall|t: int|
                0 <= t < out@.len() implies self@.contains_key(#[trigger] out@[t].0@)
                && self@[out@[t].0@] == out@[t].1@ by {
                self.lemma_entry(perm@[t] as int);
            }
            assert forall|k: Seq<char>| #[trigger]
                self@.contains_key(k) implies exists|t: int|
                0 <= t < out@.len() && #[trigger] out@[t].0@ == k by {
                let j = choose|j: int| 0 <= j < n && self.key_order()[j] == k;
                assert(perm@.contains(j as usize));
                let t = choose|t: int| 0 <= t < perm@.len() && perm@[t] == j as usize;
                assert(out@[t].0@ == k);
            }
            assert forall|a: int, b: int| 0 <= a < b < out@.len() implies seq_lt(
                out@[a].0@,
                out@[b].0@,
            ) by {
                assert(perm@[a] != perm@[b]);
                let ko = self.key_order();
                assert(ko[perm@[a] as int] != ko[perm@[b] as int]);
                assert(seq_le(ks[perm@[a] as int], ks[perm@[b] as int]));
            }
        }
        out
    }
}

} // verus!
