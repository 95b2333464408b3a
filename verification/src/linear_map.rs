//! A small map and a small set over any key that can be compared exactly.
//!
//! Both keep their items in a vector. No key occurs twice in a well-formed one, so a
//! [`LinearMap`] stands for a mathematical `Map` and a [`LinearSet`] for a `Set`. The order of
//! the items is not part of what they stand for.

use vstd::prelude::*;

verus! {

/// A key whose comparison decides equality of values.
pub trait Key: Sized {
    /// Whether the two keys are the same value.
    fn same(&self, other: &Self) -> (r: bool)
        ensures
            r == (*self == *other),
    ;
}

/// Whether some entry of `s` has key `k`.
spec fn has_key<K, V>(s: Seq<(K, V)>, k: K) -> bool {
    exists|i: int| 0 <= i < s.len() && (#[trigger] s[i]).0 == k
}

/// The index of an entry of `s` with key `k`.
spec fn index_of_key<K, V>(s: Seq<(K, V)>, k: K) -> int {
    choose|i: int| 0 <= i < s.len() && (#[trigger] s[i]).0 == k
}

/// Whether no key occurs twice in `s`.
spec fn distinct_keys<K, V>(s: Seq<(K, V)>) -> bool {
    forall|i: int, j: int| 0 <= i < j < s.len() ==> (#[trigger] s[i]).0 != (#[trigger] s[j]).0
}

/// The map that the entries of `s` make up.
spec fn entries_map<K, V>(s: Seq<(K, V)>) -> Map<K, V> {
    Map::new(|k: K| has_key(s, k), |k: K| s[index_of_key(s, k)].1)
}

proof fn lemma_entry<K, V>(s: Seq<(K, V)>, i: int)
    requires
        distinct_keys(s),
        0 <= i < s.len(),
    ensures
        entries_map(s).contains_key(s[i].0),
        entries_map(s)[s[i].0] == s[i].1,
{
    let j = index_of_key(s, s[i].0);
    assert(s[j].0 == s[i].0);
}

proof fn lemma_pushed<K, V>(s: Seq<(K, V)>, k: K, v: V)
    requires
        distinct_keys(s),
        !has_key(s, k),
    ensures
        distinct_keys(s.push((k, v))),
        entries_map(s.push((k, v))) == entries_map(s).insert(k, v),
{
    let t = s.push((k, v));
    assert(distinct_keys(t));
    assert forall|x: K| #[trigger] has_key(t, x) == (has_key(s, x) || x == k) by {
        if has_key(s, x) {
            assert(t[index_of_key(s, x)].0 == x);
        }
        if x == k {
            assert(t[s.len() as int].0 == x);
        }
        if has_key(t, x) && x != k {
            assert(s[index_of_key(t, x)].0 == x);
        }
    }
    assert forall|x: K| has_key(t, x) implies #[trigger] entries_map(t)[x] == entries_map(s).insert(
        k,
        v,
    )[x] by {
        if x == k {
            lemma_entry(t, s.len() as int);
        } else {
            let i = index_of_key(s, x);
            assert(has_key(s, x));
            lemma_entry(s, i);
            lemma_entry(t, i);
        }
    }
    assert(entries_map(t) =~= entries_map(s).insert(k, v));
}

/// Taking entry `i` out of `s` by moving the last entry in its place removes its key.
proof fn lemma_swap_removed<K, V>(s: Seq<(K, V)>, i: int)
    requires
        distinct_keys(s),
        0 <= i < s.len(),
    ensures
        distinct_keys(s.update(i, s.last()).drop_last()),
        !has_key(s.update(i, s.last()).drop_last(), s[i].0),
        entries_map(s.update(i, s.last()).drop_last()) == entries_map(s).remove(s[i].0),
{
    let t = s.update(i, s.last()).drop_last();
    let k = s[i].0;
    assert(distinct_keys(t));
    assert forall|x: K| #[trigger] has_key(t, x) == (has_key(s, x) && x != k) by {
        if has_key(t, x) {
            let j = index_of_key(t, x);
            assert(t[j].0 == x);
            if j == i {
                assert(s[s.len() - 1].0 == x);
            } else {
                assert(s[j].0 == x);
            }
        }
        if has_key(s, x) && x != k {
            let j = index_of_key(s, x);
            assert(s[j].0 == x);
            if j == s.len() - 1 {
                assert(t[i].0 == x);
            } else {
                assert(t[j].0 == x);
            }
        }
    }
    assert forall|x: K| has_key(t, x) implies #[trigger] entries_map(t)[x] == entries_map(s)[x] by {
        let j = index_of_key(t, x);
        assert(t[j].0 == x);
        lemma_entry(t, j);
        if j == i {
            lemma_entry(s, s.len() - 1);
        } else {
            lemma_entry(s, j);
        }
    }
    assert(entries_map(t) =~= entries_map(s).remove(k));
}

/// Overwriting the value of entry `i` inserts its key with the new value.
proof fn lemma_overwritten<K, V>(s: Seq<(K, V)>, i: int, v: V)
    requires
        distinct_keys(s),
        0 <= i < s.len(),
    ensures
        distinct_keys(s.update(i, (s[i].0, v))),
        entries_map(s.update(i, (s[i].0, v))) == entries_map(s).insert(s[i].0, v),
{
    let k = s[i].0;
    let t = s.update(i, (k, v));
    assert(forall|j: int| 0 <= j < s.len() ==> (#[trigger] t[j]).0 == s[j].0);
    assert(distinct_keys(t));
    assert forall|x: K| #[trigger] has_key(t, x) == has_key(s, x) by {
        if has_key(s, x) {
            assert(t[index_of_key(s, x)].0 == x);
        }
        if has_key(t, x) {
            assert(s[index_of_key(t, x)].0 == x);
        }
    }
    assert(has_key(s, k)) by {
        assert(s[i].0 == k);
    }
    assert forall|x: K| has_key(t, x) implies #[trigger] entries_map(t)[x] == entries_map(s).insert(
        k,
        v,
    )[x] by {
        let j = index_of_key(t, x);
        assert(t[j].0 == x);
        lemma_entry(t, j);
        lemma_entry(s, j);
    }
    assert(entries_map(t) =~= entries_map(s).insert(k, v));
}

/// A set held as a vector of items.
#[derive(Debug)]
pub struct LinearSet<K> {
    items: Vec<K>,
}

impl<K> View for LinearSet<K> {
    type V = Set<K>;

    closed spec fn view(&self) -> Set<K> {
        self.items@.to_set()
    }
}

impl<K> LinearSet<K> {
    /// No item occurs twice.
    pub closed spec fn wf(&self) -> bool {
        self.items@.no_duplicates()
    }

    /// The items, in the order of [`LinearSet::item_at`].
    pub closed spec fn items(&self) -> Seq<K> {
        self.items@
    }

    /// The items are those of the set, each listed once.
    pub proof fn lemma_items(&self)
        requires
            self.wf(),
        ensures
            self.items().no_duplicates(),
            forall|k: K| #[trigger] self.items().contains(k) <==> self@.contains(k),
    {
    }

    /// The empty set.
    pub fn new() -> (s: Self)
        ensures
            s.wf(),
            s@ == Set::<K>::empty(),
    {
        let s = LinearSet { items: Vec::new() };
        assert(s@ =~= Set::<K>::empty());
        s
    }

    /// The number of items.
    pub fn len(&self) -> (n: usize)
        ensures
            n == self.items().len(),
            self.wf() ==> n == self@.len(),
    {
        proof {
            if self.wf() {
                self.items@.unique_seq_to_set();
            }
        }
        self.items.len()
    }

    /// Whether the set has no item.
    pub fn is_empty(&self) -> (r: bool)
        ensures
            r == (self@ == Set::<K>::empty()),
    {
        let r = self.items.len() == 0;
        proof {
            if r {
                assert(self@ =~= Set::<K>::empty());
            } else {
                assert(self@.contains(self.items@[0]));
            }
        }
        r
    }

    /// The item at position `i`.
    pub fn item_at(&self, i: usize) -> (k: &K)
        requires
            i < self.items().len(),
        ensures
            *k == self.items()[i as int],
            self@.contains(*k),
    {
        assert(self.items@.contains(self.items@[i as int]));
        &self.items[i]
    }

    /// Removes every item.
    pub fn clear(&mut self)
        ensures
            final(self).wf(),
            final(self)@ == Set::<K>::empty(),
    {
        self.items.clear();
        assert(self@ =~= Set::<K>::empty());
    }
}

impl<K: Key> LinearSet<K> {
    /// Whether `k` is in the set.
    pub fn contains(&self, k: &K) -> (r: bool)
        ensures
            r == self@.contains(*k),
    {
        let mut i: usize = 0;
        while i < self.items.len()
            invariant
                i <= self.items@.len(),
                forall|j: int| 0 <= j < i ==> #[trigger] self.items@[j] != *k,
            decreases self.items@.len() - i,
        {
            if self.items[i].same(k) {
                assert(self.items@.contains(*k));
                return true;
            }
            i += 1;
        }
        false
    }

    /// Adds `k`; returns whether it was not in the set.
    pub fn insert(&mut self, k: K) -> (r: bool)
        requires
            old(self).wf(),
        ensures
            final(self).wf(),
            final(self)@ == old(self)@.insert(k),
            r == !old(self)@.contains(k),
    {
        if self.contains(&k) {
            assert(self@.insert(k) =~= self@);
            false
        } else {
            let ghost before = self.items@;
            self.items.push(k);
            proof {
                assert(self.items@[before.len() as int] == k);
                assert forall|x: K| #[trigger] self.items@.contains(x) == (before.contains(x) || x
                    == k) by {
                    if before.contains(x) {
                        let i = choose|i: int| 0 <= i < before.len() && before[i] == x;
                        assert(self.items@[i] == x);
                    }
                }
                assert(self@ =~= old(self)@.insert(k));
            }
            true
        }
    }

    /// The set of what `list` holds.
    pub fn from_list(list: &Vec<K>) -> (s: Self) where K: Copy
        ensures
            s.wf(),
            s@ == list@.to_set(),
    {
        let mut s = LinearSet::new();
        let mut i: usize = 0;
        while i < list.len()
            invariant
                i <= list@.len(),
                s.wf(),
                s@ == list@.take(i as int).to_set(),
            decreases list@.len() - i,
        {
            s.insert(list[i]);
            proof {
                lemma_take_to_set(list@, i as int);
            }
            i += 1;
        }
        assert(list@.take(i as int) =~= list@);
        s
    }

    /// The items, each once.
    pub fn to_list(&self) -> (r: Vec<K>) where K: Copy
        requires
            self.wf(),
        ensures
            r@.no_duplicates(),
            r@.to_set() == self@,
    {
        let none = LinearSet::new();
        let r = self.difference(&none);
        assert(self@.difference(Set::<K>::empty()) =~= self@);
        r
    }

    /// The items that `other` lacks, each once.
    pub fn difference(&self, other: &LinearSet<K>) -> (r: Vec<K>) where K: Copy
        requires
            self.wf(),
        ensures
            r@.no_duplicates(),
            r@.to_set() == self@.difference(other@),
    {
        let mut r: Vec<K> = Vec::new();
        let mut i: usize = 0;
        while i < self.items.len()
            invariant
                i <= self.items@.len(),
                self.wf(),
                r@.no_duplicates(),
                r@.to_set() == self.items@.take(i as int).to_set().difference(other@),
            decreases self.items@.len() - i,
        {
            let k = self.items[i];
            let ghost before = r@;
            proof {
                lemma_take_to_set(self.items@, i as int);
                if before.contains(k) {
                    assert(before.to_set().contains(k));
                    assert(self.items@.take(i as int).contains(k));
                }
            }
            if !other.contains(&k) {
                r.push(k);
                proof {
                    lemma_take_to_set(r@, before.len() as int);
                    assert(r@.take(before.len() as int) =~= before);
                    assert(r@.take(r@.len() as int) =~= r@);
                }
            }
            assert(r@.to_set() =~= self.items@.take(i + 1).to_set().difference(other@));
            i += 1;
        }
        assert(self.items@.take(i as int) =~= self.items@);
        r
    }
}

/// What a list holds after a push.
pub(crate) proof fn lemma_push_contains<A>(s: Seq<A>, a: A, x: A)
    ensures
        s.push(a).contains(x) <==> s.contains(x) || x == a,
{
    if s.contains(x) {
        let i = choose|i: int| 0 <= i < s.len() && s[i] == x;
        assert(s.push(a)[i] == x);
    }
    assert(s.push(a)[s.len() as int] == a);
}

/// What the first `i + 1` items hold is what the first `i` hold and item `i`.
proof fn lemma_take_to_set<K>(s: Seq<K>, i: int)
    requires
        0 <= i < s.len(),
    ensures
        s.take(i + 1).to_set() == s.take(i).to_set().insert(s[i]),
{
    let t = s.take(i + 1);
    assert forall|x: K| #[trigger] t.contains(x) == (s.take(i).contains(x) || x == s[i]) by {
        if s.take(i).contains(x) {
            let j = choose|j: int| 0 <= j < i && s.take(i)[j] == x;
            assert(t[j] == x);
        }
        if x == s[i] {
            assert(t[i] == x);
        }
        if t.contains(x) && x != s[i] {
            let j = choose|j: int| 0 <= j < i + 1 && t[j] == x;
            assert(s.take(i)[j] == x);
        }
    }
    assert(t.to_set() =~= s.take(i).to_set().insert(s[i]));
}

/// A map held as a vector of entries.
#[derive(Debug)]
pub struct LinearMap<K, V> {
    entries: Vec<(K, V)>,
}

impl<K, V> View for LinearMap<K, V> {
    type V = Map<K, V>;

    closed spec fn view(&self) -> Map<K, V> {
        entries_map(self.entries@)
    }
}

impl<K, V> LinearMap<K, V> {
    /// No key occurs twice.
    pub closed spec fn wf(&self) -> bool {
        distinct_keys(self.entries@)
    }

    /// The keys, in the order of [`LinearMap::key_at`].
    pub closed spec fn keys(&self) -> Seq<K> {
        self.entries@.map_values(|e: (K, V)| e.0)
    }

    /// The keys are those of the map, each listed once.
    pub proof fn lemma_keys(&self)
        requires
            self.wf(),
        ensures
            self.keys().no_duplicates(),
            forall|k: K| #[trigger] self.keys().contains(k) <==> self@.contains_key(k),
    {
        assert forall|k: K| #[trigger] self.keys().contains(k) <==> self@.contains_key(k) by {
            if self.keys().contains(k) {
                let i = choose|i: int| 0 <= i < self.keys().len() && self.keys()[i] == k;
                assert(self.entries@[i].0 == k);
            }
            if self@.contains_key(k) {
                let i = index_of_key(self.entries@, k);
                assert(self.entries@[i].0 == k);
                assert(self.keys()[i] == k);
            }
        }
    }

    /// The empty map.
    pub fn new() -> (m: Self)
        ensures
            m.wf(),
            m@ == Map::<K, V>::empty(),
            m.keys() == Seq::<K>::empty(),
    {
        let m = LinearMap { entries: Vec::new() };
        assert(m@ =~= Map::<K, V>::empty());
        assert(m.keys() =~= Seq::<K>::empty());
        m
    }

    /// The number of keys.
    pub fn len(&self) -> (n: usize)
        ensures
            n == self.keys().len(),
            self.wf() ==> n == self@.len(),
    {
        proof {
            if self.wf() {
                self.lemma_keys();
                self.keys().unique_seq_to_set();
                assert(self.keys().to_set() =~= self@.dom());
            }
        }
        self.entries.len()
    }

    /// Whether the map has no key.
    pub fn is_empty(&self) -> (r: bool)
        requires
            self.wf(),
        ensures
            r == (self@ == Map::<K, V>::empty()),
    {
        let r = self.entries.len() == 0;
        proof {
            if r {
                assert(self@ =~= Map::<K, V>::empty());
            } else {
                lemma_entry(self.entries@, 0);
                assert(self@.contains_key(self.entries@[0].0));
            }
        }
        r
    }

    /// The key at position `i`.
    pub fn key_at(&self, i: usize) -> (k: &K)
        requires
            self.wf(),
            i < self.keys().len(),
        ensures
            *k == self.keys()[i as int],
            self@.contains_key(*k),
    {
        proof {
            lemma_entry(self.entries@, i as int);
        }
        &self.entries[i].0
    }

    /// The value of the key at position `i`.
    pub fn value_at(&self, i: usize) -> (v: &V)
        requires
            self.wf(),
            i < self.keys().len(),
        ensures
            self@.contains_key(self.keys()[i as int]),
            *v == self@[self.keys()[i as int]],
    {
        proof {
            lemma_entry(self.entries@, i as int);
        }
        &self.entries[i].1
    }

    /// Removes every key.
    pub fn clear(&mut self)
        ensures
            final(self).wf(),
            final(self)@ == Map::<K, V>::empty(),
    {
        self.entries.clear();
        assert(self@ =~= Map::<K, V>::empty());
    }
}

impl<K: Key, V> LinearMap<K, V> {
    fn position(&self, k: &K) -> (r: Option<usize>)
        ensures
            match r {
                Some(i) => i < self.entries@.len() && self.entries@[i as int].0 == *k,
                None => !has_key(self.entries@, *k),
            },
    {
        let mut i: usize = 0;
        while i < self.entries.len()
            invariant
                i <= self.entries@.len(),
                forall|j: int| 0 <= j < i ==> (#[trigger] self.entries@[j]).0 != *k,
            decreases self.entries@.len() - i,
        {
            if self.entries[i].0.same(k) {
                return Some(i);
            }
            i += 1;
        }
        None
    }

    /// Whether the map has key `k`.
    pub fn contains_key(&self, k: &K) -> (r: bool)
        ensures
            r == self@.contains_key(*k),
    {
        self.position(k).is_some()
    }

    /// The value of key `k`.
    pub fn get(&self, k: &K) -> (r: Option<&V>)
        requires
            self.wf(),
        ensures
            match r {
                Some(v) => self@.contains_key(*k) && *v == self@[*k],
                None => !self@.contains_key(*k),
            },
    {
        match self.position(k) {
            Some(i) => {
                proof {
                    lemma_entry(self.entries@, i as int);
                }
                Some(&self.entries[i].1)
            },
            None => None,
        }
    }

    /// The value of key `k`, for change in place.
    pub fn get_mut(&mut self, k: &K) -> (r: Option<&mut V>)
        requires
            old(self).wf(),
        ensures
            final(self).wf(),
            match r {
                Some(v) => {
                    &&& old(self)@.contains_key(*k)
                    &&& *v == old(self)@[*k]
                    &&& final(self)@ == old(self)@.insert(*k, *final(v))
                },
                None => !old(self)@.contains_key(*k) && *final(self) == *old(self),
            },
    {
        match self.position(k) {
            Some(i) => {
                proof {
                    lemma_entry(self.entries@, i as int);
                    assert forall|v: V| #[trigger]
                        entries_map(self.entries@.update(i as int, (*k, v))) == entries_map(
                            self.entries@,
                        ).insert(*k, v) && distinct_keys(
                            self.entries@.update(i as int, (*k, v)),
                        ) by {
                        lemma_overwritten(self.entries@, i as int, v);
                    }
                }
                Some(&mut self.entries[i].1)
            },
            None => None,
        }
    }

    /// Gives key `k` the value `v`; returns the value that it had.
    pub fn insert(&mut self, k: K, v: V) -> (r: Option<V>)
        requires
            old(self).wf(),
        ensures
            final(self).wf(),
            final(self)@ == old(self)@.insert(k, v),
            r == old(self)@.get(k),
    {
        let r = self.remove(&k);
        let ghost without = self.entries@;
        let ghost self_without = self@;
        self.entries.push((k, v));
        proof {
            assert(!self_without.contains_key(k));
            lemma_pushed(without, k, v);
            assert(old(self)@.remove(k).insert(k, v) =~= old(self)@.insert(k, v));
        }
        r
    }

    /// The keys, each once.
    pub fn key_list(&self) -> (r: Vec<K>) where K: Copy
        requires
            self.wf(),
        ensures
            r@.no_duplicates(),
            r@.to_set() == self@.dom(),
    {
        let mut r: Vec<K> = Vec::new();
        let mut i: usize = 0;
        while i < self.entries.len()
            invariant
                i <= self.entries@.len(),
                r@ == self.keys().take(i as int),
            decreases self.entries@.len() - i,
        {
            r.push(self.entries[i].0);
            assert(self.keys().take(i + 1) =~= self.keys().take(i as int).push(
                self.keys()[i as int],
            ));
            i += 1;
        }
        proof {
            self.lemma_keys();
            assert(self.keys().take(i as int) =~= self.keys());
            assert(r@.to_set() =~= self@.dom());
        }
        r
    }

    /// A copy of the map.
    pub fn copied(&self) -> (m: Self) where K: Copy, V: Copy
        requires
            self.wf(),
        ensures
            m.wf(),
            m@ == self@,
    {
        let mut entries: Vec<(K, V)> = Vec::new();
        let mut i: usize = 0;
        while i < self.entries.len()
            invariant
                i <= self.entries@.len(),
                entries@ == self.entries@.take(i as int),
            decreases self.entries@.len() - i,
        {
            entries.push((self.entries[i].0, self.entries[i].1));
            assert(self.entries@.take(i + 1) =~= self.entries@.take(i as int).push(
                self.entries@[i as int],
            ));
            i += 1;
        }
        assert(self.entries@.take(i as int) =~= self.entries@);
        LinearMap { entries }
    }

    /// Removes key `k`; returns the value that it had.
    pub fn remove(&mut self, k: &K) -> (r: Option<V>)
        requires
            old(self).wf(),
        ensures
            final(self).wf(),
            final(self)@ == old(self)@.remove(*k),
            r == old(self)@.get(*k),
    {
        match self.position(k) {
            Some(i) => {
                proof {
                    lemma_swap_removed(self.entries@, i as int);
                    lemma_entry(self.entries@, i as int);
                }
                let e = self.entries.swap_remove(i);
                Some(e.1)
            },
            None => {
                assert(self@.remove(*k) =~= self@);
                None
            },
        }
    }
}

/// A value is read back under the key that it was given last; every other key reads as before.
pub proof fn law_inserted_value_is_read_back<K: Key, V>(
    m: &mut LinearMap<K, V>,
    k: K,
    v: V,
    previous: Option<V>,
    other: K,
    before: Option<&V>,
    after: Option<&V>,
)
    requires
        call_ensures(LinearMap::<K, V>::insert, (m, k, v), previous),
        call_ensures(LinearMap::<K, V>::get, (&*old(m), &other), before),
    ensures
        other == k ==> (match before {
            Some(before) => previous == Some(*before),
            None => previous is None,
        }),
        call_ensures(LinearMap::<K, V>::get, (&*final(m), &other), after) ==> (if other == k {
            after == Some(&v)
        } else {
            after == before
        }),
{
}

/// A key that was removed reads as absent; every other key reads as before.
pub proof fn law_removed_key_is_absent<K: Key, V>(
    m: &mut LinearMap<K, V>,
    k: K,
    previous: Option<V>,
    other: K,
    before: Option<&V>,
    after: Option<&V>,
    present: bool,
)
    requires
        call_ensures(LinearMap::<K, V>::remove, (m, &k), previous),
        call_ensures(LinearMap::<K, V>::get, (&*old(m), &other), before),
    ensures
        other == k ==> (match before {
            Some(before) => previous == Some(*before),
            None => previous is None,
        }),
        call_ensures(LinearMap::<K, V>::get, (&*final(m), &other), after) ==> (if other == k {
            after is None
        } else {
            after == before
        }),
        call_ensures(LinearMap::<K, V>::contains_key, (&*final(m), &other), present) ==> (present
            <==> other != k && before is Some),
{
}

/// An item is in a set that it was added to; every other item is in it exactly if it was before.
pub proof fn law_inserted_item_is_contained<K: Key>(
    s: &mut LinearSet<K>,
    k: K,
    added: bool,
    other: K,
    before: bool,
    after: bool,
)
    requires
        call_ensures(LinearSet::<K>::insert, (s, k), added),
        call_ensures(LinearSet::<K>::contains, (&*old(s), &other), before),
    ensures
        other == k ==> added == !before,
        call_ensures(LinearSet::<K>::contains, (&*final(s), &other), after) ==> (after <==> before
            || other == k),
{
}

/// A set that is made of a list contains what the list does, and lists it, each item once.
pub proof fn law_set_of_a_list<K: Key + Copy>(
    list: &Vec<K>,
    s: LinearSet<K>,
    k: K,
    contained: bool,
    listed: Vec<K>,
    i: int,
    j: int,
)
    requires
        call_ensures(LinearSet::<K>::from_list, (list,), s),
        call_ensures(LinearSet::<K>::contains, (&s, &k), contained),
        call_ensures(LinearSet::<K>::to_list, (&s,), listed),
    ensures
        contained <==> list@.contains(k),
        listed@.contains(k) <==> list@.contains(k),
        0 <= i < j < listed@.len() ==> listed@[i] != listed@[j],
{
    assert(listed@.to_set().contains(k) <==> listed@.contains(k));
    assert(list@.to_set().contains(k) <==> list@.contains(k));
}

/// The difference of two sets lists the items that the one contains and the other does not, each
/// once.
pub proof fn law_difference_of_sets<K: Key + Copy>(
    s: LinearSet<K>,
    other: LinearSet<K>,
    list: Vec<K>,
    k: K,
    in_s: bool,
    in_other: bool,
    i: int,
    j: int,
)
    requires
        call_ensures(LinearSet::<K>::difference, (&s, &other), list),
        call_ensures(LinearSet::<K>::contains, (&s, &k), in_s),
        call_ensures(LinearSet::<K>::contains, (&other, &k), in_other),
    ensures
        list@.contains(k) <==> in_s && !in_other,
        0 <= i < j < list@.len() ==> list@[i] != list@[j],
{
    assert(list@.to_set().contains(k) <==> list@.contains(k));
}

/// A copy of a map reads as the map does, and its keys are listed, each once.
pub proof fn law_copy_reads_the_same<K: Key + Copy, V: Copy>(
    m: LinearMap<K, V>,
    copy: LinearMap<K, V>,
    k: K,
    value: Option<&V>,
    copied: Option<&V>,
    keys: Vec<K>,
    i: int,
    j: int,
)
    requires
        call_ensures(LinearMap::<K, V>::copied, (&m,), copy),
        call_ensures(LinearMap::<K, V>::get, (&m, &k), value),
        call_ensures(LinearMap::<K, V>::get, (&copy, &k), copied),
        call_ensures(LinearMap::<K, V>::key_list, (&copy,), keys),
    ensures
        copied == value,
        keys@.contains(k) <==> value is Some,
        0 <= i < j < keys@.len() ==> keys@[i] != keys@[j],
{
    assert(keys@.to_set().contains(k) <==> keys@.contains(k));
}

/// New and cleared maps and sets have no key and no item.
pub proof fn law_new_and_cleared_are_empty<K: Key, V>(
    m: LinearMap<K, V>,
    s: LinearSet<K>,
    cleared_map: &mut LinearMap<K, V>,
    cleared_set: &mut LinearSet<K>,
    k: K,
    value: Option<&V>,
    contained: bool,
)
    requires
        call_ensures(LinearMap::<K, V>::new, (), m),
        call_ensures(LinearSet::<K>::new, (), s),
        call_ensures(LinearMap::<K, V>::clear, (cleared_map,), ()),
        call_ensures(LinearSet::<K>::clear, (cleared_set,), ()),
    ensures
        call_ensures(LinearMap::<K, V>::get, (&m, &k), value) ==> value is None,
        call_ensures(LinearSet::<K>::contains, (&s, &k), contained) ==> !contained,
        call_ensures(LinearMap::<K, V>::get, (&*final(cleared_map), &k), value) ==> value is None,
        call_ensures(LinearSet::<K>::contains, (&*final(cleared_set), &k), contained)
            ==> !contained,
{
}

/// The length of a well-formed map is the number of its keys, and it is empty exactly if it has
/// none; so it is with the items of a set.
pub proof fn law_lengths_count_keys<K, V>(
    m: LinearMap<K, V>,
    s: LinearSet<K>,
    keys: usize,
    no_key: bool,
    items: usize,
    no_item: bool,
)
    requires
        m.wf(),
        s.wf(),
        call_ensures(LinearMap::<K, V>::len, (&m,), keys),
        call_ensures(LinearMap::<K, V>::is_empty, (&m,), no_key),
        call_ensures(LinearSet::<K>::len, (&s,), items),
        call_ensures(LinearSet::<K>::is_empty, (&s,), no_item),
    ensures
        keys == m@.dom().len(),
        no_key <==> forall|k: K| !m@.contains_key(k),
        items == s@.len(),
        no_item <==> forall|k: K| !s@.contains(k),
{
    if forall|k: K| !m@.contains_key(k) {
        assert(m@ =~= Map::<K, V>::empty());
    }
    if forall|k: K| !s@.contains(k) {
        assert(s@ =~= Set::<K>::empty());
    }
}

/// The value at a position is the one that is read under the key at that position. No key and no
/// item stands at two positions, and each stands at one.
pub proof fn law_positions_list_every_key<K: Key, V>(
    m: LinearMap<K, V>,
    s: LinearSet<K>,
    i: usize,
    key: &K,
    value: &V,
    j: usize,
    other_key: &K,
    read: Option<&V>,
    item: &K,
    other_item: &K,
)
    requires
        m.wf(),
        s.wf(),
        i < m.keys().len(),
        j < m.keys().len(),
        i < s.items().len(),
        j < s.items().len(),
        call_ensures(LinearMap::<K, V>::key_at, (&m, i), key),
        call_ensures(LinearMap::<K, V>::value_at, (&m, i), value),
        call_ensures(LinearMap::<K, V>::key_at, (&m, j), other_key),
        call_ensures(LinearMap::<K, V>::get, (&m, key), read),
        call_ensures(LinearSet::<K>::item_at, (&s, i), item),
        call_ensures(LinearSet::<K>::item_at, (&s, j), other_item),
    ensures
        read == Some(value),
        i != j ==> *key != *other_key,
        i != j ==> *item != *other_item,
        s@.contains(*item),
        forall|k: K| m@.contains_key(k) ==> exists|n: int|
            0 <= n < m.keys().len() && #[trigger] m.keys()[n] == k,
        forall|k: K| s@.contains(k) ==> exists|n: int|
            0 <= n < s.items().len() && #[trigger] s.items()[n] == k,
{
    m.lemma_keys();
    s.lemma_items();
    assert forall|k: K| m@.contains_key(k) implies exists|n: int|
        0 <= n < m.keys().len() && #[trigger] m.keys()[n] == k by {
        assert(m.keys().contains(k));
    }
    assert forall|k: K| s@.contains(k) implies exists|n: int|
        0 <= n < s.items().len() && #[trigger] s.items()[n] == k by {
        assert(s.items().contains(k));
    }
}

/// A value that is changed in place is read back as what it was changed to; every other key reads
/// as before.
pub proof fn law_changed_value_is_read_back<K: Key, V>(
    m: &mut LinearMap<K, V>,
    k: K,
    value: Option<&mut V>,
    other: K,
    before: Option<&V>,
    after: Option<&V>,
)
    requires
        call_ensures(LinearMap::<K, V>::get_mut, (m, &k), value),
        call_ensures(LinearMap::<K, V>::get, (&*old(m), &other), before),
    ensures
        other == k ==> (value is Some <==> before is Some),
        value matches Some(value) ==> (other == k ==> before == Some(&*value)),
        call_ensures(LinearMap::<K, V>::get, (&*final(m), &other), after) ==> (match value {
            Some(value) => if other == k {
                after == Some(&*final(value))
            } else {
                after == before
            },
            None => after == before,
        }),
{
}

} // verus!
