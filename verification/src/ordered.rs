//! A map from strings to values that keeps its entries in the order of
//! their keys, so that walking it always gives the same sequence.

use vstd::prelude::*;
use crate::text::{increasing, lemma_less_irreflexive, lemma_less_transitive, less, str_eq, str_less};

verus! {

/// The keys of a sequence of entries, in the same order.
pub open spec fn keys_of<V>(pairs: Seq<(Seq<char>, V)>) -> Seq<Seq<char>> {
    pairs.map_values(|p: (Seq<char>, V)| p.0)
}

/// The map that a sequence of entries stands for: each key that occurs, with
/// the value of the first entry that holds it.
pub open spec fn map_of<V>(pairs: Seq<(Seq<char>, V)>) -> Map<Seq<char>, V> {
    Map::new(
        |k: Seq<char>| keys_of(pairs).contains(k),
        |k: Seq<char>| pairs[keys_of(pairs).index_of(k)].1,
    )
}

/// In an increasing sequence of keys each key occurs at one position only.
pub proof fn lemma_increasing_unique(keys: Seq<Seq<char>>, i: int, j: int)
    requires
        increasing(keys),
        0 <= i < keys.len(),
        0 <= j < keys.len(),
        keys[i] == keys[j],
    ensures
        i == j,
{
    lemma_less_irreflexive(keys[i]);
    if i < j {
        assert(less(keys[i], keys[j]));
    } else if j < i {
        assert(less(keys[j], keys[i]));
    }
}

/// With increasing keys, the entry at position `i` is what the map holds for
/// its key.
pub proof fn lemma_map_of_entry<V>(pairs: Seq<(Seq<char>, V)>, i: int)
    requires
        increasing(keys_of(pairs)),
        0 <= i < pairs.len(),
    ensures
        map_of(pairs).dom().contains(pairs[i].0),
        map_of(pairs)[pairs[i].0] == pairs[i].1,
{
    let keys = keys_of(pairs);
    assert(keys[i] == pairs[i].0);
    assert(keys.contains(pairs[i].0));
    let j = keys.index_of(pairs[i].0);
    lemma_increasing_unique(keys, i, j);
}

/// With increasing keys, the map holds exactly the entries of the sequence.
pub proof fn lemma_map_of<V>(pairs: Seq<(Seq<char>, V)>)
    requires
        increasing(keys_of(pairs)),
    ensures
        forall|i: int| 0 <= i < pairs.len() ==> map_of(pairs).dom().contains((#[trigger] pairs[i]).0)
            && map_of(pairs)[pairs[i].0] == pairs[i].1,
        forall|k: Seq<char>| #[trigger] map_of(pairs).dom().contains(k) ==> exists|i: int| 0 <= i < pairs.len() && (#[trigger] pairs[i]).0 == k,
{
    assert forall|i: int| 0 <= i < pairs.len() implies map_of(pairs).dom().contains((#[trigger] pairs[i]).0)
        && map_of(pairs)[pairs[i].0] == pairs[i].1 by {
        lemma_map_of_entry(pairs, i);
    }
    assert forall|k: Seq<char>| #[trigger] map_of(pairs).dom().contains(k) implies exists|i: int| 0 <= i < pairs.len() && (#[trigger] pairs[i]).0 == k by {
        let j = keys_of(pairs).index_of(k);
        assert(keys_of(pairs)[j] == k);
        assert(pairs[j].0 == k);
    }
}

/// Adding an entry at the place where its key belongs adds it to the map.
pub proof fn lemma_map_of_insert<V>(pairs: Seq<(Seq<char>, V)>, i: int, k: Seq<char>, v: V)
    requires
        increasing(keys_of(pairs)),
        0 <= i <= pairs.len(),
        forall|j: int| 0 <= j < i ==> less(#[trigger] keys_of(pairs)[j], k),
        forall|j: int| i <= j < pairs.len() ==> less(k, #[trigger] keys_of(pairs)[j]),
    ensures
        increasing(keys_of(pairs.insert(i, (k, v)))),
        map_of(pairs.insert(i, (k, v))) == map_of(pairs).insert(k, v),
{
    let after = pairs.insert(i, (k, v));
    let keys = keys_of(pairs);
    let keys2 = keys_of(after);
    assert forall|a: int, b: int| 0 <= a < b < keys2.len() implies less(#[trigger] keys2[a], #[trigger] keys2[b]) by {
        let a0 = if a < i { a } else { a - 1 };
        let b0 = if b < i { b } else { b - 1 };
        if a != i {
            assert(keys2[a] == keys[a0]);
        }
        if b != i {
            assert(keys2[b] == keys[b0]);
        }
        if a != i && b != i {
            assert(less(keys[a0], keys[b0]));
        }
    }
    lemma_map_of(pairs);
    lemma_map_of(after);
    let m1 = map_of(after);
    let m2 = map_of(pairs).insert(k, v);
    assert forall|x: Seq<char>| m1.dom().contains(x) <==> m2.dom().contains(x) by {
        if m1.dom().contains(x) {
            let j = choose|j: int| 0 <= j < after.len() && (#[trigger] after[j]).0 == x;
            if j < i {
                assert(pairs[j].0 == x);
            } else if j > i {
                assert(pairs[j - 1].0 == x);
            }
        }
        if m2.dom().contains(x) {
            if x == k {
                assert(after[i].0 == x);
            } else {
                let j = choose|j: int| 0 <= j < pairs.len() && (#[trigger] pairs[j]).0 == x;
                if j < i {
                    assert(after[j].0 == x);
                } else {
                    assert(after[j + 1].0 == x);
                }
            }
        }
    }
    assert forall|x: Seq<char>| m1.dom().contains(x) implies m1[x] == m2[x] by {
        let j = choose|j: int| 0 <= j < after.len() && (#[trigger] after[j]).0 == x;
        assert(m1[after[j].0] == after[j].1);
        if j < i {
            assert(pairs[j] == after[j]);
            assert(m2[pairs[j].0] == pairs[j].1);
            lemma_less_irreflexive(k);
            assert(keys[j] == x);
        } else if j > i {
            assert(pairs[j - 1] == after[j]);
            assert(m2[pairs[j - 1].0] == pairs[j - 1].1);
            lemma_less_irreflexive(k);
            assert(keys[j - 1] == x);
        }
    }
    assert(m1 =~= m2);
}

/// Taking the entry at position `i` away removes its key from the map.
pub proof fn lemma_map_of_remove<V>(pairs: Seq<(Seq<char>, V)>, i: int)
    requires
        increasing(keys_of(pairs)),
        0 <= i < pairs.len(),
    ensures
        increasing(keys_of(pairs.remove(i))),
        map_of(pairs.remove(i)) == map_of(pairs).remove(pairs[i].0),
        forall|j: int| 0 <= j < i ==> less(#[trigger] keys_of(pairs.remove(i))[j], pairs[i].0),
        forall|j: int| i <= j < pairs.len() - 1 ==> less(pairs[i].0, #[trigger] keys_of(pairs.remove(i))[j]),
{
    let after = pairs.remove(i);
    let keys = keys_of(pairs);
    let keys2 = keys_of(after);
    assert forall|a: int, b: int| 0 <= a < b < keys2.len() implies less(#[trigger] keys2[a], #[trigger] keys2[b]) by {
        let a0 = if a < i { a } else { a + 1 };
        let b0 = if b < i { b } else { b + 1 };
        assert(keys2[a] == keys[a0]);
        assert(keys2[b] == keys[b0]);
        assert(less(keys[a0], keys[b0]));
    }
    assert forall|j: int| 0 <= j < i implies less(#[trigger] keys2[j], pairs[i].0) by {
        assert(keys2[j] == keys[j]);
        assert(less(keys[j], keys[i]));
    }
    assert forall|j: int| i <= j < pairs.len() - 1 implies less(pairs[i].0, #[trigger] keys2[j]) by {
        assert(keys2[j] == keys[j + 1]);
        assert(less(keys[i], keys[j + 1]));
    }
    lemma_map_of(pairs);
    lemma_map_of(after);
    let m1 = map_of(after);
    let m2 = map_of(pairs).remove(pairs[i].0);
    assert forall|x: Seq<char>| m1.dom().contains(x) <==> m2.dom().contains(x) by {
        if m1.dom().contains(x) {
            let j = choose|j: int| 0 <= j < after.len() && (#[trigger] after[j]).0 == x;
            let j0 = if j < i { j } else { j + 1 };
            assert(pairs[j0].0 == x);
            assert(keys[j0] == x);
            if x == pairs[i].0 {
                lemma_increasing_unique(keys, i, j0);
            }
        }
        if m2.dom().contains(x) {
            let j = choose|j: int| 0 <= j < pairs.len() && (#[trigger] pairs[j]).0 == x;
            if j < i {
                assert(after[j].0 == x);
            } else {
                assert(after[j - 1].0 == x);
            }
        }
    }
    assert forall|x: Seq<char>| m1.dom().contains(x) implies m1[x] == m2[x] by {
        let j = choose|j: int| 0 <= j < after.len() && (#[trigger] after[j]).0 == x;
        let j0 = if j < i { j } else { j + 1 };
        assert(m1[after[j].0] == after[j].1);
        assert(pairs[j0] == after[j]);
        assert(m2.dom().contains(x));
    }
    assert(m1 =~= m2);
}

/// The sequence lists the map: its keys increase, each of its entries is an
/// entry of the map, and the map has no others.
pub open spec fn lists<W>(pairs: Seq<(Seq<char>, W)>, map: Map<Seq<char>, W>) -> bool {
    &&& increasing(keys_of(pairs))
    &&& forall|i: int|
        0 <= i < pairs.len() ==> map.dom().contains((#[trigger] pairs[i]).0) && map[pairs[i].0]
            == pairs[i].1
    &&& forall|k: Seq<char>| #[trigger]
        map.dom().contains(k) ==> exists|i: int| 0 <= i < pairs.len() && (#[trigger] pairs[i]).0 == k
}

/// A key that stands for a string: identifiers of all kinds, and plain
/// strings themselves.
pub trait Identifier: Sized {
    /// The characters of the key.
    spec fn text(&self) -> Seq<char>;

    /// The key as a string slice.
    fn as_str(&self) -> (s: &str)
        ensures
            s@ == self.text(),
    ;

    /// A copy of the key.
    fn duplicate(&self) -> (r: Self)
        ensures
            r.text() == self.text(),
    ;
}

impl Identifier for String {
    open spec fn text(&self) -> Seq<char> {
        self@
    }

    fn as_str(&self) -> (s: &str) {
        String::as_str(self)
    }

    fn duplicate(&self) -> (r: Self) {
        self.clone()
    }
}

/// A map from keys to values, held in the order of the keys' strings.
#[derive(Debug, PartialEq, Eq)]
pub struct StrMap<K: Identifier, V> {
    entries: Vec<(K, V)>,
}

impl<K: Identifier, V> StrMap<K, V> {
    /// The entries in order, each key as its characters.
    pub closed spec fn pairs(&self) -> Seq<(Seq<char>, V)> {
        self.entries@.map_values(|e: (K, V)| (e.0.text(), e.1))
    }

    /// The keys in order.
    pub open spec fn keys(&self) -> Seq<Seq<char>> {
        keys_of(self.pairs())
    }

    /// The mapping that the entries stand for.
    pub open spec fn map(&self) -> Map<Seq<char>, V> {
        map_of(self.pairs())
    }

    #[verifier::type_invariant]
    spec fn ordered(&self) -> bool {
        increasing(self.keys())
    }

    /// The map without entries.
    pub fn new() -> (m: Self)
        ensures
            m.pairs() == Seq::<(Seq<char>, V)>::empty(),
    {
        let m = StrMap { entries: Vec::<(K, V)>::new() };
        assert(m.pairs() =~= Seq::<(Seq<char>, V)>::empty());
        m
    }

    /// The number of entries, which list the map in the order of its keys.
    pub fn len(&self) -> (n: usize)
        ensures
            n == self.pairs().len(),
            increasing(self.keys()),
            lists(self.pairs(), self.map()),
    {
        proof {
            use_type_invariant(self);
            lemma_map_of(self.pairs());
        }
        self.entries.len()
    }

    /// The key of the entry at position `i`.
    pub fn key(&self, i: usize) -> (k: &K)
        requires
            i < self.pairs().len(),
        ensures
            k.text() == self.pairs()[i as int].0,
    {
        &self.entries[i].0
    }

    /// The value of the entry at position `i`.
    pub fn value(&self, i: usize) -> (v: &V)
        requires
            i < self.pairs().len(),
        ensures
            *v == self.pairs()[i as int].1,
    {
        &self.entries[i].1
    }

    /// The position at which `key` stands, or would stand if it were added:
    /// the number of keys that come before it.
    pub fn position(&self, key: &str) -> (r: (usize, bool))
        ensures
            r.0 <= self.pairs().len(),
            increasing(self.keys()),
            forall|i: int| 0 <= i < r.0 ==> less(#[trigger] self.keys()[i], key@),
            r.1 <==> self.keys().contains(key@),
            r.1 ==> r.0 < self.pairs().len() && self.keys()[r.0 as int] == key@,
            !r.1 ==> forall|i: int| r.0 <= i < self.pairs().len() ==> less(key@, #[trigger] self.keys()[i]),
    {
        proof {
            use_type_invariant(self);
        }
        let mut i: usize = 0;
        while i < self.entries.len() && str_less(self.entries[i].0.as_str(), key)
            invariant
                i <= self.entries.len(),
                increasing(self.keys()),
                forall|j: int| 0 <= j < i ==> less(#[trigger] self.keys()[j], key@),
            decreases self.entries.len() - i,
        {
            i += 1;
        }
        let found = i < self.entries.len() && str_eq(self.entries[i].0.as_str(), key);
        proof {
            let keys = self.keys();
            if found {
                assert(keys[i as int] == key@);
            } else {
                assert forall|j: int| i <= j < keys.len() implies less(key@, #[trigger] keys[j]) by {
                    crate::text::lemma_less_total(keys[i as int], key@);
                    if j > i {
                        assert(less(keys[i as int], keys[j]));
                        lemma_less_transitive(key@, keys[i as int], keys[j]);
                    }
                }
                assert forall|j: int| 0 <= j < keys.len() implies keys[j] != key@ by {
                    lemma_less_irreflexive(key@);
                }
            }
        }
        (i, found)
    }

    /// The value that the map holds for `key`, if any.
    pub fn get(&self, key: &str) -> (r: Option<&V>)
        ensures
            match r {
                Some(v) => self.map().dom().contains(key@) && self.map()[key@] == *v,
                None => !self.map().dom().contains(key@),
            },
    {
        let (i, found) = self.position(key);
        if found {
            proof {
                lemma_map_of_entry(self.pairs(), i as int);
            }
            Some(&self.entries[i].1)
        } else {
            None
        }
    }

    /// Whether the map holds a value for `key`.
    pub fn contains_key(&self, key: &str) -> (r: bool)
        ensures
            r == self.map().dom().contains(key@),
    {
        self.position(key).1
    }

    /// Takes the entry at position `i` out of the map.
    pub fn remove_at(&mut self, i: usize) -> (e: (K, V))
        requires
            i < old(self).pairs().len(),
        ensures
            final(self).pairs() == old(self).pairs().remove(i as int),
            final(self).map() == old(self).map().remove(e.0.text()),
            (e.0.text(), e.1) == old(self).pairs()[i as int],
            old(self).map().dom().contains(e.0.text()),
            old(self).map()[e.0.text()] == e.1,
    {
        proof {
            use_type_invariant(&*self);
            lemma_map_of_remove(self.pairs(), i as int);
            lemma_map_of_entry(self.pairs(), i as int);
        }
        let mut entries: Vec<(K, V)> = Vec::new();
        std::mem::swap(&mut self.entries, &mut entries);
        let e = entries.remove(i);
        assert(entries@.map_values(|e: (K, V)| (e.0.text(), e.1)) =~= old(self).pairs().remove(i as int));
        self.entries = entries;
        e
    }

    /// Sets the value for `key`, replacing the one that was there.
    pub fn insert(&mut self, key: K, value: V)
        ensures
            final(self).map() == old(self).map().insert(key.text(), value),
    {
        let ghost k = key.text();
        let (i, found) = self.position(key.as_str());
        if found {
            let ghost before = self.map();
            let _ = self.remove_at(i);
            assert(self.map().insert(k, value) =~= before.insert(k, value));
        }
        proof {
            use_type_invariant(&*self);
            if found {
                lemma_map_of_remove(old(self).pairs(), i as int);
                assert(old(self).keys()[i as int] == k);
            }
            lemma_map_of_insert(self.pairs(), i as int, k, value);
        }
        let ghost mid = self.pairs();
        let mut entries: Vec<(K, V)> = Vec::new();
        std::mem::swap(&mut self.entries, &mut entries);
        entries.insert(i, (key, value));
        assert(entries@.map_values(|e: (K, V)| (e.0.text(), e.1)) =~= mid.insert(i as int, (k, value)));
        self.entries = entries;
    }
}

impl<K: Identifier, V: Clone> Clone for StrMap<K, V> {
    /// A copy with the same keys, each with a clone of its value.
    fn clone(&self) -> (r: Self)
        ensures
            r.keys() == self.keys(),
            forall|i: int| 0 <= i < self.pairs().len() ==> cloned(self.pairs()[i].1, #[trigger] r.pairs()[i].1),
    {
        proof {
            use_type_invariant(self);
        }
        let mut entries: Vec<(K, V)> = Vec::new();
        let mut i: usize = 0;
        while i < self.entries.len()
            invariant
                i <= self.entries.len(),
                entries@.len() == i,
                forall|j: int| 0 <= j < i ==> (#[trigger] entries@[j]).0.text() == self.entries@[j].0.text(),
                forall|j: int| 0 <= j < i ==> cloned(self.entries@[j].1, (#[trigger] entries@[j]).1),
            decreases self.entries.len() - i,
        {
            entries.push((self.entries[i].0.duplicate(), self.entries[i].1.clone()));
            i += 1;
        }
        assert(keys_of(entries@.map_values(|e: (K, V)| (e.0.text(), e.1))) =~= self.keys());
        StrMap { entries }
    }
}

impl<K: Identifier, V: View> View for StrMap<K, V> {
    type V = Map<Seq<char>, V::V>;

    open spec fn view(&self) -> Map<Seq<char>, V::V> {
        models(self.map())
    }
}

/// The entries with each value replaced by its model.
pub open spec fn model_pairs<V: View>(pairs: Seq<(Seq<char>, V)>) -> Seq<(Seq<char>, V::V)> {
    pairs.map_values(|p: (Seq<char>, V)| (p.0, p.1@))
}

/// Where entries list a map, their models list the map of models.
pub proof fn lemma_model_lists<V: View>(pairs: Seq<(Seq<char>, V)>, map: Map<Seq<char>, V>)
    requires
        lists(pairs, map),
    ensures
        lists(model_pairs(pairs), models(map)),
{
    let mp = model_pairs(pairs);
    assert(keys_of(mp) =~= keys_of(pairs));
    assert forall|k: Seq<char>| #[trigger] models(map).dom().contains(k) implies exists|i: int|
        0 <= i < mp.len() && (#[trigger] mp[i]).0 == k by {
        let i = choose|i: int| 0 <= i < pairs.len() && (#[trigger] pairs[i]).0 == k;
        assert(mp[i].0 == k);
    }
    assert forall|i: int| 0 <= i < mp.len() implies models(map).dom().contains((#[trigger] mp[i]).0)
        && models(map)[mp[i].0] == mp[i].1 by {
        assert(map.dom().contains(pairs[i].0));
    }
}

/// The map with each value replaced by its model.
pub open spec fn models<V: View>(m: Map<Seq<char>, V>) -> Map<Seq<char>, V::V> {
    Map::new(|k: Seq<char>| m.dom().contains(k), |k: Seq<char>| m[k]@)
}

/// Setting a value in a map sets its model in the map of models.
pub proof fn lemma_models_insert<V: View>(m: Map<Seq<char>, V>, k: Seq<char>, v: V)
    ensures
        models(m.insert(k, v)) == models(m).insert(k, v@),
{
    assert(models(m.insert(k, v)) =~= models(m).insert(k, v@));
}

/// Removing a key from a map removes it from the map of models.
pub proof fn lemma_models_remove<V: View>(m: Map<Seq<char>, V>, k: Seq<char>)
    ensures
        models(m.remove(k)) == models(m).remove(k),
{
    assert(models(m.remove(k)) =~= models(m).remove(k));
}

/// The strings of a sequence of keys.
pub open spec fn texts<K: Identifier>(keys: Seq<K>) -> Seq<Seq<char>> {
    Seq::new(keys.len(), |i: int| keys[i].text())
}

/// A set of keys, held in the order of the keys' strings.
#[derive(Debug, Clone, PartialEq, Eq)]
pub struct StrSet<K: Identifier> {
    items: StrMap<K, ()>,
}

impl<K: Identifier> View for StrSet<K> {
    type V = Set<Seq<char>>;

    closed spec fn view(&self) -> Set<Seq<char>> {
        self.items.map().dom()
    }
}

/// The sequence lists the set: it increases and holds the set's members and
/// nothing else.
pub open spec fn lists_set(items: Seq<Seq<char>>, set: Set<Seq<char>>) -> bool {
    &&& increasing(items)
    &&& forall|k: Seq<char>| set.contains(k) <==> items.contains(k)
}

impl<K: Identifier> StrSet<K> {
    /// The members in order.
    pub closed spec fn items(&self) -> Seq<Seq<char>> {
        self.items.keys()
    }

    /// The set without members.
    pub fn new() -> (s: Self)
        ensures
            s@ == Set::<Seq<char>>::empty(),
    {
        let s = StrSet { items: StrMap::new() };
        assert(s@ =~= Set::<Seq<char>>::empty());
        s
    }

    /// The number of members, which `items` lists in order.
    pub fn len(&self) -> (n: usize)
        ensures
            n == self.items().len(),
            lists_set(self.items(), self@),
    {
        self.items.len()
    }

    /// The member at position `i`.
    pub fn item(&self, i: usize) -> (k: &K)
        requires
            i < self.items().len(),
        ensures
            k.text() == self.items()[i as int],
    {
        self.items.key(i)
    }

    /// Whether `key` is a member.
    pub fn contains(&self, key: &str) -> (r: bool)
        ensures
            r == self@.contains(key@),
    {
        self.items.contains_key(key)
    }

    /// Adds a member.
    pub fn insert(&mut self, key: K)
        ensures
            final(self)@ == old(self)@.insert(key.text()),
    {
        self.items.insert(key, ());
        assert(self@ =~= old(self)@.insert(key.text()));
    }

    /// Adds every member of `other`.
    pub fn union(&mut self, other: Self)
        ensures
            final(self)@ == old(self)@.union(other@),
    {
        let mut other = other;
        let ghost a = self@;
        let ghost b = other@;
        while other.items.len() > 0
            invariant
                other@.subset_of(b),
                self@ == a.union(b.difference(other@)),
            decreases other.items.pairs().len(),
        {
            let ghost o = other@;
            let last = other.items.len() - 1;
            let (key, _) = other.items.remove_at(last);
            assert(other@ =~= o.remove(key.text()));
            self.insert(key);
            assert(self@ =~= a.union(b.difference(other@)));
        }
        assert(other@ =~= Set::<Seq<char>>::empty());
        assert(self@ =~= a.union(b));
    }

    /// Whether every member of `self` is a member of `other`.
    pub fn is_subset(&self, other: &StrSet<K>) -> (r: bool)
        ensures
            r == self@.subset_of(other@),
    {
        let n = self.len();
        let mut i: usize = 0;
        while i < n
            invariant
                i <= n,
                n == self.items().len(),
                lists_set(self.items(), self@),
                forall|j: int| 0 <= j < i ==> other@.contains(#[trigger] self.items()[j]),
            decreases n - i,
        {
            if !other.contains(self.item(i).as_str()) {
                assert(self.items().contains(self.items()[i as int]));
                return false;
            }
            i += 1;
        }
        assert forall|k: Seq<char>| self@.contains(k) implies other@.contains(k) by {
            let j = self.items().index_of(k);
            assert(self.items()[j] == k);
        }
        true
    }
}

} // verus!
