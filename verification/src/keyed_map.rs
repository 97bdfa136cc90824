//! Maps keyed by identifiers, stored in a hash map under each identifier's
//! code.
use vstd::prelude::*;
use std::collections::HashMap;
use vstd::std_specs::iter::IteratorSpec;
use crate::ids::IdKey;

verus! {

broadcast use vstd::std_specs::hash::group_hash_axioms;

/// The map made by inserting the listed pairs in order.
pub open spec fn map_of_entries<K, V>(s: Seq<(K, V)>) -> Map<K, V>
    decreases s.len(),
{
    if s.len() == 0 {
        Map::empty()
    } else {
        map_of_entries(s.drop_last()).insert(s.last().0, s.last().1)
    }
}

/// `s` lists the pairs of `m`, each key once.
pub open spec fn lists_exactly<K, V>(s: Seq<(K, V)>, m: Map<K, V>) -> bool {
    &&& s.len() == m.len()
    &&& forall|i: int, j: int|
        0 <= i < s.len() && 0 <= j < s.len() && i != j ==> #[trigger] s[i].0 != #[trigger] s[j].0
    &&& forall|i: int| 0 <= i < s.len() ==> m.contains_key(#[trigger] s[i].0) && m[s[i].0] == s[i].1
    &&& forall|k: K| #[trigger] m.contains_key(k) ==> exists|i: int| 0 <= i < s.len() && s[i].0 == k
}

/// A list that names each pair of a map once, as `entries` gives it, reads
/// back through `from_entries` as exactly that map.
pub proof fn lemma_entries_roundtrip<K, V>(s: Seq<(K, V)>, m: Map<K, V>)
    requires
        lists_exactly(s, m),
    ensures
        map_of_entries(s) == m,
{
    lemma_map_of_distinct(s);
    let r = map_of_entries(s);
    assert forall|k: K| #[trigger] r.contains_key(k) == m.contains_key(k) by {
        if m.contains_key(k) {
            let i = choose|i: int| 0 <= i < s.len() && s[i].0 == k;
            assert(r.contains_key(s[i].0));
        }
        if r.contains_key(k) {
            let i = choose|i: int| 0 <= i < s.len() && s[i].0 == k;
            assert(m.contains_key(s[i].0));
        }
    }
    assert forall|k: K| r.contains_key(k) implies #[trigger] r[k] == m[k] by {
        let i = choose|i: int| 0 <= i < s.len() && s[i].0 == k;
        assert(r[s[i].0] == s[i].1);
        assert(m[s[i].0] == s[i].1);
    }
    assert(r =~= m);
}

/// With no key listed twice, the map of a list holds exactly the listed
/// pairs.
proof fn lemma_map_of_distinct<K, V>(s: Seq<(K, V)>)
    requires
        forall|i: int, j: int|
            0 <= i < s.len() && 0 <= j < s.len() && i != j ==> #[trigger] s[i].0 != #[trigger] s[j].0,
    ensures
        forall|i: int|
            0 <= i < s.len() ==> map_of_entries(s).contains_key(#[trigger] s[i].0)
                && map_of_entries(s)[s[i].0] == s[i].1,
        forall|k: K| #[trigger]
            map_of_entries(s).contains_key(k) ==> exists|i: int| 0 <= i < s.len() && s[i].0 == k,
    decreases s.len(),
{
    if s.len() > 0 {
        let p = s.drop_last();
        assert forall|i: int, j: int|
            0 <= i < p.len() && 0 <= j < p.len() && i != j implies #[trigger] p[i].0
            != #[trigger] p[j].0 by {
            assert(p[i] == s[i] && p[j] == s[j]);
        }
        lemma_map_of_distinct(p);
        let last = s.len() - 1;
        assert forall|i: int| 0 <= i < s.len() implies map_of_entries(s).contains_key(
            #[trigger] s[i].0,
        ) && map_of_entries(s)[s[i].0] == s[i].1 by {
            if i < last {
                assert(p[i] == s[i]);
                assert(s[i].0 != s[last].0);
            }
        }
        assert forall|k: K| #[trigger] map_of_entries(s).contains_key(k) implies exists|i: int|
            0 <= i < s.len() && s[i].0 == k by {
            if k != s[last].0 {
                assert(map_of_entries(p).contains_key(k));
                let i = choose|i: int| 0 <= i < p.len() && p[i].0 == k;
                assert(s[i] == p[i]);
            } else {
                assert(s[last].0 == k);
            }
        }
    }
}

/// Values by identifier.
pub struct KeyedMap<K: IdKey, V: Copy> {
    entries: HashMap<u32, (K, V)>,
}

impl<K: IdKey, V: Copy> View for KeyedMap<K, V> {
    type V = Map<K, V>;

    closed spec fn view(&self) -> Map<K, V> {
        Map::new(
            |k: K| self.entries@.contains_key(k.key_code()),
            |k: K| self.entries@[k.key_code()].1,
        )
    }
}

impl<K: IdKey, V: Copy> KeyedMap<K, V> {
    /// Every entry is kept under the code of its own key.
    pub closed spec fn wf(&self) -> bool {
        forall|c: u32| #[trigger]
            self.entries@.contains_key(c) ==> self.entries@[c].0.key_code() == c
    }

    /// After the entry under the code of `key` is replaced by `(key, value)`,
    /// the map reads as the old map with `value` under `key`.
    proof fn lemma_replaced(
        old_entries: Map<u32, (K, V)>,
        new_self: &Self,
        key: K,
        value: V,
        before: Map<K, V>,
    )
        requires
            new_self.entries@ == old_entries.insert(key.key_code(), (key, value)),
            before == Map::new(
                |k: K| old_entries.contains_key(k.key_code()),
                |k: K| old_entries[k.key_code()].1,
            ),
        ensures
            new_self@ == before.insert(key, value),
    {
        let code = key.key_code();
        assert forall|k: K| #[trigger] new_self@.contains_key(k) == before.insert(
            key,
            value,
        ).contains_key(k) by {
            if k.key_code() == code {
                K::lemma_code_injective(k, key);
            }
        }
        assert forall|k: K| new_self@.contains_key(k) implies #[trigger] new_self@[k]
            == before.insert(key, value)[k] by {
            if k.key_code() == code {
                K::lemma_code_injective(k, key);
            }
        }
        assert(new_self@ =~= before.insert(key, value));
    }

    /// An empty map.
    pub fn new() -> (r: Self)
        ensures
            r.wf(),
            r@ == Map::<K, V>::empty(),
    {
        let r = KeyedMap { entries: HashMap::new() };
        assert(r@ =~= Map::<K, V>::empty());
        r
    }

    /// `true` when a value is kept under `key`.
    pub fn contains_key(&self, key: &K) -> (r: bool)
        requires
            self.wf(),
        ensures
            r == self@.contains_key(*key),
    {
        let code = key.code();
        self.entries.contains_key(&code)
    }

    /// The value under `key`, if any.
    pub fn get(&self, key: &K) -> (r: Option<V>)
        requires
            self.wf(),
        ensures
            r == (if self@.contains_key(*key) {
                Some(self@[*key])
            } else {
                None
            }),
    {
        let code = key.code();
        match self.entries.get(&code) {
            Some(entry) => Some(entry.1),
            None => None,
        }
    }

    /// Keeps `value` under `key`, replacing what was there.
    pub fn insert(&mut self, key: K, value: V)
        requires
            old(self).wf(),
        ensures
            final(self).wf(),
            final(self)@ == old(self)@.insert(key, value),
    {
        let code = key.code();
        let ghost before = self@;
        let ghost old_entries = self.entries@;
        self.entries.insert(code, (key, value));
        proof {
            Self::lemma_replaced(old_entries, self, key, value, before);
        }
    }

    /// Takes the value under `key` out of the map.
    pub fn remove(&mut self, key: &K) -> (r: Option<V>)
        requires
            old(self).wf(),
        ensures
            final(self).wf(),
            final(self)@ == old(self)@.remove(*key),
            r == (if old(self)@.contains_key(*key) {
                Some(old(self)@[*key])
            } else {
                None
            }),
    {
        let code = key.code();
        let ghost before = self@;
        let ghost old_entries = self.entries@;
        match self.entries.remove(&code) {
            None => {
                assert(self.entries@ =~= old_entries);
                assert(self@ =~= before.remove(*key));
                None
            },
            Some(entry) => {
                proof {
                    assert(old_entries.contains_key(code));
                    assert forall|k: K| #[trigger] self@.contains_key(k) == before.remove(
                        *key,
                    ).contains_key(k) by {
                        if k.key_code() == code {
                            K::lemma_code_injective(k, *key);
                        }
                    }
                    assert(self@ =~= before.remove(*key));
                }
                Some(entry.1)
            },
        }
    }

    /// The map holds as many values as entries.
    proof fn lemma_len(&self)
        requires
            self.wf(),
        ensures
            self@.dom().finite(),
            self@.len() == self.entries@.len(),
    {
        let x = self.entries@.dom();
        let y = self@.dom();
        let f = |c: u32| self.entries@[c].0;
        vstd::std_specs::hash::axiom_hashmap_view_finite_dom(self.entries);
        assert forall|a: u32, b: u32|
            x.contains(a) && x.contains(b) && #[trigger] f(a) == #[trigger] f(b) implies a == b by {
            assert(self.entries@.contains_key(a));
            assert(self.entries@.contains_key(b));
        }
        assert forall|k: K| #[trigger] x.map(f).contains(k) == y.contains(k) by {
            if y.contains(k) {
                let c = k.key_code();
                assert(self.entries@.contains_key(c));
                K::lemma_code_injective(self.entries@[c].0, k);
                assert(x.contains(c) && f(c) == k);
            }
            if x.map(f).contains(k) {
                let c = choose|c: u32| x.contains(c) && f(c) == k;
                assert(self.entries@.contains_key(c));
            }
        }
        assert(x.map(f) =~= y);
        vstd::set_lib::lemma_map_size(x, y, f);
    }

    /// The number of values.
    pub fn len(&self) -> (r: usize)
        requires
            self.wf(),
        ensures
            r == self@.len(),
    {
        proof {
            self.lemma_len();
        }
        self.entries.len()
    }

    /// The values with their keys, each once, in no particular order.
    pub fn entries(&self) -> (r: Vec<(K, V)>)
        requires
            self.wf(),
        ensures
            lists_exactly(r@, self@),
    {
        let mut out: Vec<(K, V)> = Vec::new();
        let ghost m = self.entries@;
        let ghost v = vstd::std_specs::hash::spec_hash_map_iter(&self.entries).remaining();
        proof {
            vstd::std_specs::hash::axiom_spec_hash_map_iter(&self.entries);
        }
        for pair in it: self.entries.iter()
            invariant
                self.wf(),
                m == self.entries@,
                it.seq() == v,
                v.no_duplicates(),
                v.len() == m.dom().len(),
                forall|i: int|
                    #![trigger v[i]]
                    0 <= i < v.len() ==> m.contains_key(*v[i].0) && m[*v[i].0] == *v[i].1,
                forall|c: u32| #[trigger] m.contains_key(c) ==> v.contains((&c, &m[c])),
                out@.len() == it.index(),
                forall|i: int| 0 <= i < it.index() ==> #[trigger] out@[i] == *v[i].1,
        {
            out.push(*pair.1);
        }
        proof {
            self.lemma_len();
            assert forall|i: int, j: int|
                0 <= i < out@.len() && 0 <= j < out@.len() && i != j implies #[trigger] out@[i].0
                != #[trigger] out@[j].0 by {
                let ci = *v[i].0;
                let cj = *v[j].0;
                assert(m.contains_key(ci));
                assert(m.contains_key(cj));
                if ci == cj {
                    assert(v[i] == v[j]);
                }
            }
            assert forall|i: int| 0 <= i < out@.len() implies self@.contains_key(
                #[trigger] out@[i].0,
            ) && self@[out@[i].0] == out@[i].1 by {
                let c = *v[i].0;
                assert(m.contains_key(c));
            }
            assert forall|k: K| #[trigger] self@.contains_key(k) implies exists|i: int|
                0 <= i < out@.len() && out@[i].0 == k by {
                let c = k.key_code();
                assert(m.contains_key(c));
                assert(v.contains((&c, &m[c])));
                let i = choose|i: int| 0 <= i < v.len() && v[i] == (&c, &m[c]);
                K::lemma_code_injective(m[c].0, k);
                assert(out@[i].0 == k);
            }
        }
        out
    }

    /// The map of the listed pairs; where a key is listed twice, the later
    /// value stays.
    pub fn from_entries(list: Vec<(K, V)>) -> (r: Self)
        ensures
            r.wf(),
            r@ == map_of_entries(list@),
    {
        let mut r = Self::new();
        let mut i: usize = 0;
        while i < list.len()
            invariant
                0 <= i <= list.len(),
                r.wf(),
                r@ == map_of_entries(list@.take(i as int)),
            decreases list.len() - i,
        {
            let (key, value) = list[i];
            r.insert(key, value);
            proof {
                assert(list@.take(i + 1).drop_last() =~= list@.take(i as int));
            }
            i = i + 1;
        }
        assert(list@.take(list.len() as int) =~= list@);
        r
    }
}

} // verus!
