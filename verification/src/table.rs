//! Small collections keyed by values that are compared by their models.
use vstd::prelude::*;

use crate::lists;
use crate::seqs;
use crate::value::Value;

verus! {

/// A map from keys to values.
///
/// Entries are kept in insertion order and searched from the front; a key that is already present
/// keeps its place when its value is replaced.
#[derive(Clone, Debug)]
pub struct Table<K, V> {
    entries: Vec<(K, V)>,
}

/// The map that a list of entries stands for: of two entries with one key, the earlier counts.
pub open spec fn entries_map<K, V>(entries: Seq<(K, V)>) -> Map<K, V>
    decreases entries.len(),
{
    if entries.len() == 0 {
        Map::empty()
    } else {
        entries_map(entries.skip(1)).insert(entries[0].0, entries[0].1)
    }
}

/// No entry holds the key.
pub open spec fn key_absent<K, V>(entries: Seq<(K, V)>, key: K) -> bool {
    forall|i: int| 0 <= i < entries.len() ==> (#[trigger] entries[i]).0 != key
}

proof fn lemma_absent<K, V>(entries: Seq<(K, V)>, key: K)
    requires
        key_absent(entries, key),
    ensures
        !entries_map(entries).contains_key(key),
    decreases entries.len(),
{
    if entries.len() > 0 {
        assert(entries[0].0 != key);
        assert forall|i: int| 0 <= i < entries.skip(1).len() implies (#[trigger] entries.skip(
            1,
        )[i]).0 != key by {
            assert(entries[i + 1].0 != key);
        }
        lemma_absent(entries.skip(1), key);
    }
}

proof fn lemma_found<K, V>(entries: Seq<(K, V)>, at: int)
    requires
        0 <= at < entries.len(),
        key_absent(entries.take(at), entries[at].0),
    ensures
        entries_map(entries).contains_key(entries[at].0),
        entries_map(entries)[entries[at].0] == entries[at].1,
    decreases entries.len(),
{
    if at > 0 {
        assert(entries.take(at)[0].0 != entries[at].0);
        assert(entries.skip(1).take(at - 1) =~= entries.take(at).skip(1));
        assert forall|i: int| 0 <= i < at - 1 implies (#[trigger] entries.skip(1).take(at - 1)[i]).0
            != entries[at].0 by {
            assert(entries.take(at)[i + 1].0 != entries[at].0);
        }
        lemma_found(entries.skip(1), at - 1);
    }
}

proof fn lemma_push<K, V>(entries: Seq<(K, V)>, key: K, value: V)
    requires
        key_absent(entries, key),
    ensures
        entries_map(entries.push((key, value))) == entries_map(entries).insert(key, value),
    decreases entries.len(),
{
    if entries.len() == 0 {
        assert(entries.push((key, value)).skip(1) =~= Seq::<(K, V)>::empty());
        assert(entries_map(entries.push((key, value)).skip(1)) =~= Map::empty());
    } else {
        assert(entries.push((key, value)).skip(1) =~= entries.skip(1).push((key, value)));
        assert forall|i: int| 0 <= i < entries.skip(1).len() implies (#[trigger] entries.skip(
            1,
        )[i]).0 != key by {
            assert(entries[i + 1].0 != key);
        }
        lemma_push(entries.skip(1), key, value);
        assert(entries[0].0 != key);
        assert(entries_map(entries.push((key, value))) =~= entries_map(entries).insert(key, value));
    }
}

proof fn lemma_update<K, V>(entries: Seq<(K, V)>, at: int, value: V)
    requires
        0 <= at < entries.len(),
        key_absent(entries.take(at), entries[at].0),
    ensures
        entries_map(entries.update(at, (entries[at].0, value))) == entries_map(entries).insert(
            entries[at].0,
            value,
        ),
    decreases entries.len(),
{
    let updated = entries.update(at, (entries[at].0, value));
    if at == 0 {
        assert(updated.skip(1) =~= entries.skip(1));
        assert(entries_map(updated) =~= entries_map(entries).insert(entries[at].0, value));
    } else {
        assert(entries.take(at)[0].0 != entries[at].0);
        assert(updated.skip(1) =~= entries.skip(1).update(at - 1, (entries[at].0, value)));
        assert forall|i: int| 0 <= i < at - 1 implies (#[trigger] entries.skip(1).take(at - 1)[i]).0
            != entries[at].0 by {
            assert(entries.take(at)[i + 1].0 != entries[at].0);
        }
        lemma_update(entries.skip(1), at - 1, value);
        assert(entries_map(updated) =~= entries_map(entries).insert(entries[at].0, value));
    }
}

proof fn lemma_present<K, V>(entries: Seq<(K, V)>, at: int)
    requires
        0 <= at < entries.len(),
    ensures
        entries_map(entries).contains_key(entries[at].0),
    decreases entries.len(),
{
    if at > 0 {
        lemma_present(entries.skip(1), at - 1);
    }
}

/// The part of a map whose keys satisfy a predicate.
pub open spec fn restricted<K, V>(map: Map<K, V>, keep: spec_fn(K) -> bool) -> Map<K, V> {
    Map::new(|k: K| map.contains_key(k) && keep(k), |k: K| map[k])
}

proof fn lemma_filter<K, V>(entries: Seq<(K, V)>, keep: spec_fn(K) -> bool)
    ensures
        entries_map(entries.filter(|e: (K, V)| keep(e.0))) == restricted(
            entries_map(entries),
            keep,
        ),
    decreases entries.len(),
{
    let pred = |e: (K, V)| keep(e.0);
    reveal(Seq::filter);
    if entries.len() == 0 {
        assert(restricted(entries_map(entries), keep) =~= Map::empty());
    } else {
        lemma_filter(entries.skip(1), keep);
        assert(entries =~= seq![entries[0]] + entries.skip(1));
        Seq::filter_distributes_over_add(seq![entries[0]], entries.skip(1), pred);
        let head = seq![entries[0]];
        assert(head.drop_last() =~= Seq::<(K, V)>::empty());
        assert(head.drop_last().filter(pred) =~= Seq::<(K, V)>::empty());
        if keep(entries[0].0) {
            assert(head.filter(pred) =~= head);
            assert((head + entries.skip(1).filter(pred)).skip(1) =~= entries.skip(1).filter(pred));
        } else {
            assert(head.filter(pred) =~= Seq::<(K, V)>::empty());
            assert(entries.filter(pred) =~= entries.skip(1).filter(pred));
        }
        assert(entries_map(entries.filter(pred)) =~= restricted(entries_map(entries), keep));
    }
}

impl<K: DeepView, V: DeepView> DeepView for Table<K, V> {
    type V = Map<K::V, V::V>;

    closed spec fn deep_view(&self) -> Map<K::V, V::V> {
        entries_map(self.entries.deep_view())
    }
}

impl<K: Value, V: Value> Table<K, V> {
    /// A table without entries.
    pub fn new() -> (r: Self)
        ensures
            r.deep_view() == Map::<K::V, V::V>::empty(),
    {
        let r = Table { entries: Vec::new() };
        assert(r.entries.deep_view() =~= Seq::<(K::V, V::V)>::empty());
        r
    }

    fn position(&self, key: &K) -> (r: Option<usize>)
        ensures
            match r {
                Some(i) => i < self.entries.len() && self.entries.deep_view()[i as int].0
                    == key.deep_view() && key_absent(
                    self.entries.deep_view().take(i as int),
                    key.deep_view(),
                ),
                None => key_absent(self.entries.deep_view(), key.deep_view()),
            },
    {
        let mut i: usize = 0;
        while i < self.entries.len()
            invariant
                i <= self.entries.len(),
                key_absent(self.entries.deep_view().take(i as int), key.deep_view()),
            decreases self.entries.len() - i,
        {
            if self.entries[i].0.same(key) {
                return Some(i);
            }
            assert(self.entries.deep_view().take(i + 1) =~= self.entries.deep_view().take(
                i as int,
            ).push(self.entries.deep_view()[i as int]));
            i += 1;
        }
        assert(self.entries.deep_view().take(i as int) =~= self.entries.deep_view());
        None
    }

    /// The value stored under a key.
    pub fn get(&self, key: &K) -> (r: Option<&V>)
        ensures
            r.deep_view() == (if self.deep_view().contains_key(key.deep_view()) {
                Some(self.deep_view()[key.deep_view()])
            } else {
                None
            }),
    {
        match self.position(key) {
            Some(i) => {
                proof {
                    lemma_found(self.entries.deep_view(), i as int);
                }
                Some(&self.entries[i].1)
            },
            None => {
                proof {
                    lemma_absent(self.entries.deep_view(), key.deep_view());
                }
                None
            },
        }
    }

    /// Stores a value under a key, and returns the value that it replaces.
    pub fn insert(&mut self, key: K, value: V) -> (r: Option<V>)
        ensures
            final(self).deep_view() == old(self).deep_view().insert(
                key.deep_view(),
                value.deep_view(),
            ),
            r.deep_view() == (if old(self).deep_view().contains_key(key.deep_view()) {
                Some(old(self).deep_view()[key.deep_view()])
            } else {
                None
            }),
    {
        let ghost before = self.entries.deep_view();
        match self.position(&key) {
            Some(i) => {
                let mut previous = value;
                proof {
                    lemma_found(before, i as int);
                    lemma_update(before, i as int, value.deep_view());
                }
                std::mem::swap(&mut self.entries[i].1, &mut previous);
                assert(self.entries.deep_view() =~= before.update(
                    i as int,
                    (before[i as int].0, value.deep_view()),
                ));
                Some(previous)
            },
            None => {
                proof {
                    lemma_absent(before, key.deep_view());
                    lemma_push(before, key.deep_view(), value.deep_view());
                }
                self.entries.push((key, value));
                assert(self.entries.deep_view() =~= before.push(
                    (key.deep_view(), value.deep_view()),
                ));
                None
            },
        }
    }

    /// Keeps the entries whose key satisfies `keep`.
    pub(crate) fn retain<F: Fn(&K) -> bool>(
        &mut self,
        keep: F,
        Ghost(pred): Ghost<spec_fn(K::V) -> bool>,
    )
        requires
            forall|k: &K| #[trigger] call_requires(keep, (k,)),
            forall|k: &K, b: bool| #[trigger]
                call_ensures(keep, (k,), b) ==> b == pred(k.deep_view()),
        ensures
            final(self).deep_view() == restricted(old(self).deep_view(), pred),
    {
        let ghost before = self.entries.deep_view();
        let test = |e: &(K, V)| -> (b: bool)
            ensures
                b == pred(e.0.deep_view()),
        {
            keep(&e.0)
        };
        lists::retain(&mut self.entries, test, Ghost(|e: (K::V, V::V)| pred(e.0)));
        proof {
            lemma_filter(before, pred);
        }
    }

    /// Removes a key together with its value.
    pub fn remove(&mut self, key: &K)
        ensures
            final(self).deep_view() == old(self).deep_view().remove(key.deep_view()),
    {
        let ghost k0 = key.deep_view();
        let keep = |k: &K| -> (b: bool)
            ensures
                b == (k.deep_view() != key.deep_view()),
        {
            !k.same(key)
        };
        self.retain(keep, Ghost(|k: K::V| k != k0));
        assert(self.deep_view() =~= old(self).deep_view().remove(k0));
    }

    /// The keys of all entries.
    pub fn keys(&self) -> (r: Vec<K>)
        ensures
            forall|k: K::V| #[trigger]
                r.deep_view().contains(k) <==> self.deep_view().contains_key(k),
    {
        let ghost all = self.entries.deep_view();
        let mut keys: Vec<K> = Vec::new();
        let mut i: usize = 0;
        while i < self.entries.len()
            invariant
                i <= self.entries.len(),
                keys.len() == i,
                all == self.entries.deep_view(),
                forall|j: int| 0 <= j < i ==> (#[trigger] keys.deep_view()[j]) == all[j].0,
            decreases self.entries.len() - i,
        {
            let ghost before = keys.deep_view();
            keys.push(self.entries[i].0.dup());
            assert(forall|j: int| 0 <= j < i ==> (#[trigger] keys.deep_view()[j]) == before[j]);
            i += 1;
        }
        assert forall|k: K::V| #[trigger]
            keys.deep_view().contains(k) <==> self.deep_view().contains_key(k) by {
            if keys.deep_view().contains(k) {
                let at = choose|j: int| 0 <= j < all.len() && keys.deep_view()[j] == k;
                assert(all[at].0 == k);
                lemma_present(all, at);
            } else {
                assert forall|j: int| 0 <= j < all.len() implies (#[trigger] all[j]).0 != k by {
                    assert(keys.deep_view()[j] == all[j].0);
                }
                lemma_absent(all, k);
            }
        }
        keys
    }

    fn is_part_of(&self, other: &Self) -> (r: bool)
        ensures
            r == (forall|k: K::V| #[trigger]
                self.deep_view().contains_key(k) ==> other.deep_view().contains_key(k)
                    && other.deep_view()[k] == self.deep_view()[k]),
    {
        let ghost all = self.entries.deep_view();
        let ghost here = self.deep_view();
        let ghost there = other.deep_view();
        let mut i: usize = 0;
        while i < self.entries.len()
            invariant
                i <= self.entries.len(),
                all == self.entries.deep_view(),
                here == self.deep_view(),
                there == other.deep_view(),
                forall|j: int|
                    0 <= j < i ==> there.contains_key((#[trigger] all[j]).0) && there[all[j].0]
                        == here[all[j].0],
            decreases self.entries.len() - i,
        {
            let key = &self.entries[i].0;
            assert(all[i as int].0 == key.deep_view());
            proof {
                lemma_present(all, i as int);
            }
            let same = match (self.get(key), other.get(key)) {
                (Some(a), Some(b)) => a.same(b),
                _ => false,
            };
            if !same {
                assert(here.contains_key(key.deep_view()));
                return false;
            }
            i += 1;
        }
        assert forall|k: K::V| #[trigger] here.contains_key(k) implies there.contains_key(k)
            && there[k] == here[k] by {
            if key_absent(all, k) {
                lemma_absent(all, k);
            }
        }
        true
    }

    /// Whether two tables hold the same values under the same keys.
    pub fn agrees(&self, other: &Self) -> (r: bool)
        ensures
            r == (self.deep_view() == other.deep_view()),
    {
        let r = self.is_part_of(other) && other.is_part_of(self);
        if r {
            assert(self.deep_view() =~= other.deep_view());
        }
        r
    }
}

impl<K: Value, V: Value> PartialEq for Table<K, V> {
    fn eq(&self, other: &Self) -> (r: bool) {
        self.agrees(other)
    }
}

impl<K: Value, V: Value> vstd::std_specs::cmp::PartialEqSpecImpl for Table<K, V> {
    open spec fn obeys_eq_spec() -> bool {
        true
    }

    open spec fn eq_spec(&self, other: &Self) -> bool {
        self.deep_view() == other.deep_view()
    }
}

impl<K: Value, V: Value> Eq for Table<K, V> {

}

impl<K: Value, V: Value> Default for Table<K, V> {
    fn default() -> (r: Self)
        ensures
            r.deep_view() == Map::<K::V, V::V>::empty(),
    {
        Table::new()
    }
}

/// A set of keys.
#[derive(Clone, Debug)]
pub struct KeySet<K> {
    entries: Vec<K>,
}

impl<K: DeepView> DeepView for KeySet<K> {
    type V = Set<K::V>;

    closed spec fn deep_view(&self) -> Set<K::V> {
        self.entries.deep_view().to_set()
    }
}

impl<K: Value> KeySet<K> {
    /// A set without members.
    pub fn new() -> (r: Self)
        ensures
            r.deep_view() == Set::<K::V>::empty(),
    {
        let r = KeySet { entries: Vec::new() };
        assert(r.deep_view() =~= Set::<K::V>::empty());
        r
    }

    /// Whether there are no members.
    pub fn is_empty(&self) -> (r: bool)
        ensures
            r == (self.deep_view() == Set::<K::V>::empty()),
    {
        if self.entries.len() == 0 {
            assert(self.deep_view() =~= Set::<K::V>::empty());
            true
        } else {
            assert(self.entries.deep_view().contains(self.entries.deep_view()[0]));
            assert(self.deep_view().contains(self.entries.deep_view()[0]));
            false
        }
    }

    /// Whether a key is a member.
    pub fn contains(&self, key: &K) -> (r: bool)
        ensures
            r == self.deep_view().contains(key.deep_view()),
    {
        let mut i: usize = 0;
        while i < self.entries.len()
            invariant
                i <= self.entries.len(),
                forall|j: int|
                    0 <= j < i ==> (#[trigger] self.entries.deep_view()[j]) != key.deep_view(),
            decreases self.entries.len() - i,
        {
            if self.entries[i].same(key) {
                assert(self.entries.deep_view()[i as int] == key.deep_view());
                return true;
            }
            i += 1;
        }
        false
    }

    /// Makes a key a member, and returns whether it was none before.
    pub fn insert(&mut self, key: K) -> (r: bool)
        ensures
            final(self).deep_view() == old(self).deep_view().insert(key.deep_view()),
            r == !old(self).deep_view().contains(key.deep_view()),
    {
        let ghost before = self.entries.deep_view();
        if self.contains(&key) {
            assert(self.deep_view() =~= self.deep_view().insert(key.deep_view()));
            return false;
        }
        self.entries.push(key);
        assert(self.entries.deep_view() =~= before.push(key.deep_view()));
        assert forall|k: K::V| #[trigger]
            self.deep_view().contains(k) <==> before.to_set().insert(key.deep_view()).contains(
                k,
            ) by {
            let after = before.push(key.deep_view());
            if before.contains(k) {
                let at = choose|j: int| 0 <= j < before.len() && before[j] == k;
                assert(after[at] == k);
            }
            assert(after[before.len() as int] == key.deep_view());
        }
        assert(self.deep_view() =~= before.to_set().insert(key.deep_view()));
        true
    }

    /// Makes a key no member.
    pub fn remove(&mut self, key: &K)
        ensures
            final(self).deep_view() == old(self).deep_view().remove(key.deep_view()),
    {
        let ghost before = self.entries.deep_view();
        let ghost k0 = key.deep_view();
        let ghost other = |k: K::V| k != k0;
        let keep = |k: &K| -> (b: bool)
            ensures
                b == (k.deep_view() != key.deep_view()),
        {
            !k.same(key)
        };
        lists::retain(&mut self.entries, keep, Ghost(other));
        assert forall|k: K::V| #[trigger]
            self.deep_view().contains(k) <==> before.to_set().remove(k0).contains(k) by {
            seqs::lemma_filter_members(before, other, k);
        }
        assert(self.deep_view() =~= before.to_set().remove(k0));
    }

    fn is_part_of(&self, other: &Self) -> (r: bool)
        ensures
            r == self.deep_view().subset_of(other.deep_view()),
    {
        let ghost all = self.entries.deep_view();
        let mut i: usize = 0;
        while i < self.entries.len()
            invariant
                i <= self.entries.len(),
                all == self.entries.deep_view(),
                forall|j: int| 0 <= j < i ==> other.deep_view().contains(#[trigger] all[j]),
            decreases self.entries.len() - i,
        {
            assert(all[i as int] == self.entries[i as int].deep_view());
            if !other.contains(&self.entries[i]) {
                assert(all.contains(all[i as int]));
                assert(self.deep_view().contains(all[i as int]));
                return false;
            }
            i += 1;
        }
        true
    }

    /// Whether two sets have the same members.
    pub fn agrees(&self, other: &Self) -> (r: bool)
        ensures
            r == (self.deep_view() == other.deep_view()),
    {
        let r = self.is_part_of(other) && other.is_part_of(self);
        if r {
            assert(self.deep_view() =~= other.deep_view());
        }
        r
    }
}

impl<K: Value> PartialEq for KeySet<K> {
    fn eq(&self, other: &Self) -> (r: bool) {
        self.agrees(other)
    }
}

impl<K: Value> vstd::std_specs::cmp::PartialEqSpecImpl for KeySet<K> {
    open spec fn obeys_eq_spec() -> bool {
        true
    }

    open spec fn eq_spec(&self, other: &Self) -> bool {
        self.deep_view() == other.deep_view()
    }
}

impl<K: Value> Eq for KeySet<K> {

}

impl<K: Value> Default for KeySet<K> {
    fn default() -> (r: Self)
        ensures
            r.deep_view() == Set::<K::V>::empty(),
    {
        KeySet::new()
    }
}

} // verus!
