//! A capacity-bounded cache keyed by row index, evicting in insertion order.

use std::collections::BTreeMap;
use vstd::prelude::*;

verus! {

broadcast use {vstd::std_specs::btree::group_btree_axioms, vstd::laws_cmp::group_laws_cmp};

/// A cache that holds at most `capacity` entries and evicts the entry that
/// was inserted first once it is full.
#[derive(Debug)]
pub struct RingBufferCache<T> {
    /// Storage keyed by row index.
    storage: BTreeMap<usize, T>,
    /// Maximum number of entries.
    capacity: usize,
    /// Keys in insertion order, oldest first.
    keys: Vec<usize>,
    /// Number of lookups that found their key.
    hits: usize,
    /// Number of lookups that did not.
    misses: usize,
}

/// Position of the first occurrence of `key` in `order`, or the length of
/// `order` if it does not occur.
pub open spec fn first_index_of(order: Seq<usize>, key: usize) -> int
    decreases order.len(),
{
    if order.len() == 0 {
        0
    } else if order[0] == key {
        0
    } else {
        1 + first_index_of(order.drop_first(), key)
    }
}

/// `order` without its first occurrence of `key`.
pub open spec fn without_key(order: Seq<usize>, key: usize) -> Seq<usize> {
    let i = first_index_of(order, key);
    if i < order.len() {
        order.remove(i)
    } else {
        order
    }
}

/// What `first_index_of` returns: the least index at which `key` stands.
pub proof fn lemma_first_index_of(order: Seq<usize>, key: usize)
    ensures
        0 <= first_index_of(order, key) <= order.len(),
        first_index_of(order, key) < order.len() ==> order[first_index_of(order, key)] == key,
        forall|j: int| 0 <= j < first_index_of(order, key) ==> order[j] != key,
        first_index_of(order, key) < order.len() <==> order.contains(key),
    decreases order.len(),
{
    if order.len() == 0 {
    } else if order[0] == key {
        assert(order.contains(key));
    } else {
        let rest = order.drop_first();
        lemma_first_index_of(rest, key);
        let i = first_index_of(rest, key);
        assert forall|j: int| 0 <= j < 1 + i implies order[j] != key by {
            if j > 0 {
                assert(rest[j - 1] == order[j]);
            }
        }
        if i < rest.len() {
            assert(order[1 + i] == rest[i]);
            assert(order.contains(key));
        } else {
            if order.contains(key) {
                let w = choose|w: int| 0 <= w < order.len() && order[w] == key;
                assert(rest[w - 1] == key);
                assert(rest.contains(key));
            }
        }
    }
}

impl<T> RingBufferCache<T> {
    /// The cached entries as a map from key to value.
    pub closed spec fn entries(&self) -> Map<usize, T> {
        self.storage@
    }

    /// The keys in the order in which they will be evicted, oldest first.
    pub closed spec fn order(&self) -> Seq<usize> {
        self.keys@
    }

    /// The capacity as a specification value.
    pub closed spec fn spec_capacity(&self) -> usize {
        self.capacity
    }

    /// The hit counter as a specification value.
    pub closed spec fn spec_hits(&self) -> usize {
        self.hits
    }

    /// The miss counter as a specification value.
    pub closed spec fn spec_misses(&self) -> usize {
        self.misses
    }

    /// The invariant of the cache: the eviction order lists exactly the
    /// stored keys, each once, and never more than the capacity.
    pub closed spec fn well_formed(&self) -> bool {
        &&& self.capacity > 0
        &&& self.keys@.len() <= self.capacity
        &&& self.keys@.no_duplicates()
        &&& self.storage@.dom().finite()
        &&& forall|k: usize| self.storage@.dom().contains(k) <==> self.keys@.contains(k)
    }

    /// What well-formedness means in terms of the public model.
    pub proof fn lemma_well_formed(&self)
        requires
            self.well_formed(),
        ensures
            self.spec_capacity() > 0,
            self.order().len() <= self.spec_capacity(),
            self.order().no_duplicates(),
            self.entries().dom().finite(),
            forall|k: usize| self.entries().contains_key(k) <==> self.order().contains(k),
            self.entries().len() == self.order().len(),
    {
        assert(self.keys@.to_set() =~= self.storage@.dom());
        self.keys@.unique_seq_to_set();
    }

    /// Creates an empty cache that holds at most `capacity` entries.
    pub fn new(capacity: usize) -> (cache: Self)
        requires
            capacity > 0,
        ensures
            cache.well_formed(),
            cache.spec_capacity() == capacity,
            cache.entries() == Map::<usize, T>::empty(),
            cache.order() == Seq::<usize>::empty(),
            cache.spec_hits() == 0,
            cache.spec_misses() == 0,
    {
        Self {
            storage: BTreeMap::new(),
            capacity,
            keys: Vec::with_capacity(capacity),
            hits: 0,
            misses: 0,
        }
    }

    /// The maximum number of entries.
    pub fn capacity(&self) -> (c: usize)
        requires
            self.well_formed(),
        ensures
            c == self.spec_capacity(),
            c > 0,
    {
        proof {
        }
        self.capacity
    }

    /// The current number of entries.
    pub fn len(&self) -> (n: usize)
        requires
            self.well_formed(),
        ensures
            n == self.entries().len(),
            n == self.order().len(),
            n <= self.spec_capacity(),
    {
        proof {
            self.lemma_well_formed();
        }
        self.keys.len()
    }

    /// Whether the cache holds no entry.
    pub fn is_empty(&self) -> (b: bool)
        requires
            self.well_formed(),
        ensures
            b == (self.entries().len() == 0),
            b == (self.order().len() == 0),
    {
        proof {
            self.lemma_well_formed();
        }
        self.keys.len() == 0
    }

    /// Looks `key` up and counts the lookup as a hit or a miss.
    pub fn get(&mut self, key: &usize) -> (found: Option<&T>)
        requires
            old(self).well_formed(),
            old(self).spec_hits() < usize::MAX,
            old(self).spec_misses() < usize::MAX,
        ensures
            final(self).well_formed(),
            final(self).entries() == old(self).entries(),
            final(self).order() == old(self).order(),
            final(self).spec_capacity() == old(self).spec_capacity(),
            old(self).entries().contains_key(*key) ==> found == Some(&old(self).entries()[*key])
                && final(self).spec_hits() == old(self).spec_hits() + 1
                && final(self).spec_misses() == old(self).spec_misses(),
            !old(self).entries().contains_key(*key) ==> found.is_none()
                && final(self).spec_hits() == old(self).spec_hits()
                && final(self).spec_misses() == old(self).spec_misses() + 1,
    {
        if self.storage.contains_key(key) {
            self.hits += 1;
            self.storage.get(key)
        } else {
            self.misses += 1;
            None
        }
    }

    /// Stores `value` under `key`.
    ///
    /// A key that is already present keeps its place in the eviction order
    /// and its old value is returned. A new key goes to the end of the
    /// order; if the cache was full, the oldest entry is evicted first.
    pub fn insert(&mut self, key: usize, value: T) -> (previous: Option<T>)
        requires
            old(self).well_formed(),
        ensures
            final(self).well_formed(),
            final(self).spec_capacity() == old(self).spec_capacity(),
            final(self).spec_hits() == old(self).spec_hits(),
            final(self).spec_misses() == old(self).spec_misses(),
            final(self).entries() == insert_entries(
                old(self).entries(),
                old(self).order(),
                old(self).spec_capacity(),
                key,
                value,
            ),
            final(self).order() == insert_order(
                old(self).entries(),
                old(self).order(),
                old(self).spec_capacity(),
                key,
            ),
            previous == if old(self).entries().contains_key(key) {
                Some(old(self).entries()[key])
            } else {
                None
            },
    {
        let is_new_key = !self.storage.contains_key(&key);
        if is_new_key {
            if self.keys.len() == self.capacity {
                let oldest_key = self.keys[0];
                let ghost before = self.keys@;
                self.storage.remove(&oldest_key);
                self.keys.remove(0);
                proof {
                    assert(self.keys@ =~= before.drop_first());
                    assert forall|k: usize| self.storage@.dom().contains(k) implies self.keys@.contains(k) by {
                        assert(before.contains(k));
                        let w = choose|w: int| 0 <= w < before.len() && before[w] == k;
                        assert(w != 0);
                        assert(self.keys@[w - 1] == k);
                    }
                    assert forall|k: usize| self.keys@.contains(k) implies self.storage@.dom().contains(k) by {
                        let w = choose|w: int| 0 <= w < self.keys@.len() && self.keys@[w] == k;
                        assert(before[w + 1] == k);
                        assert(before.contains(k));
                    }
                }
            }
            let ghost mid = self.keys@;
            self.keys.push(key);
            proof {
                assert(!mid.contains(key));
                assert forall|k: usize| self.storage@.insert(key, value).dom().contains(k) <==> self.keys@.contains(k) by {
                    if k == key {
                        assert(self.keys@[mid.len() as int] == key);
                    } else {
                        if mid.contains(k) {
                            let w = choose|w: int| 0 <= w < mid.len() && mid[w] == k;
                            assert(self.keys@[w] == k);
                        }
                        if self.keys@.contains(k) {
                            let w = choose|w: int| 0 <= w < self.keys@.len() && self.keys@[w] == k;
                            assert(mid[w] == k);
                        }
                    }
                }
            }
        } else {
            proof {
                assert forall|k: usize| self.storage@.insert(key, value).dom().contains(k) <==> self.keys@.contains(k) by {}
            }
        }
        self.storage.insert(key, value)
    }

    /// Removes every entry and resets the statistics. The capacity stays.
    pub fn clear(&mut self)
        requires
            old(self).well_formed(),
        ensures
            final(self).well_formed(),
            final(self).spec_capacity() == old(self).spec_capacity(),
            final(self).entries() == Map::<usize, T>::empty(),
            final(self).order() == Seq::<usize>::empty(),
            final(self).spec_hits() == 0,
            final(self).spec_misses() == 0,
    {
        self.storage.clear();
        self.keys.clear();
        self.hits = 0;
        self.misses = 0;
    }

    /// Removes every entry and resets the statistics, as `clear` does.
    pub fn invalidate_all(&mut self)
        requires
            old(self).well_formed(),
        ensures
            final(self).well_formed(),
            final(self).spec_capacity() == old(self).spec_capacity(),
            final(self).entries() == Map::<usize, T>::empty(),
            final(self).order() == Seq::<usize>::empty(),
            final(self).spec_hits() == 0,
            final(self).spec_misses() == 0,
    {
        self.clear();
    }

    /// Removes the entry stored under `key`, if there is one, and returns
    /// its value. The other entries keep their eviction order.
    pub fn invalidate(&mut self, key: usize) -> (removed: Option<T>)
        requires
            old(self).well_formed(),
        ensures
            final(self).well_formed(),
            final(self).spec_capacity() == old(self).spec_capacity(),
            final(self).spec_hits() == old(self).spec_hits(),
            final(self).spec_misses() == old(self).spec_misses(),
            final(self).entries() == old(self).entries().remove(key),
            final(self).order() == without_key(old(self).order(), key),
            removed == if old(self).entries().contains_key(key) {
                Some(old(self).entries()[key])
            } else {
                None
            },
    {
        proof {
            lemma_first_index_of(self.keys@, key);
        }
        let ghost before = self.keys@;
        let mut pos: usize = 0;
        while pos < self.keys.len() && self.keys[pos] != key
            invariant
                pos <= self.keys.len(),
                self.keys@ == before,
                forall|j: int| 0 <= j < pos ==> before[j] != key,
            decreases self.keys.len() - pos,
        {
            pos += 1;
        }
        assert(pos == first_index_of(before, key)) by {
            lemma_first_index_of(before, key);
            let i = first_index_of(before, key);
            if i < pos {
            } else if pos < i {
            }
        }
        if pos < self.keys.len() {
            self.keys.remove(pos);
            proof {
                assert(self.keys@ =~= before.remove(pos as int));
                assert forall|k: usize| self.storage@.remove(key).dom().contains(k) <==> self.keys@.contains(k) by {
                    if k != key {
                        if before.contains(k) {
                            let w = choose|w: int| 0 <= w < before.len() && before[w] == k;
                            if w < pos {
                                assert(self.keys@[w] == k);
                            } else {
                                assert(self.keys@[w - 1] == k);
                            }
                        }
                        if self.keys@.contains(k) {
                            let w = choose|w: int| 0 <= w < self.keys@.len() && self.keys@[w] == k;
                            if w < pos {
                                assert(before[w] == k);
                            } else {
                                assert(before[w + 1] == k);
                            }
                        }
                    } else {
                        if self.keys@.contains(k) {
                            let w = choose|w: int| 0 <= w < self.keys@.len() && self.keys@[w] == k;
                            if w < pos {
                                assert(before[w] == k);
                            } else {
                                assert(before[w + 1] == k);
                            }
                        }
                    }
                }
                assert(self.keys@.no_duplicates()) by {
                    assert forall|a: int, b: int| 0 <= a < self.keys@.len() && 0 <= b < self.keys@.len() && a != b implies self.keys@[a] != self.keys@[b] by {
                        let a2 = if a < pos { a } else { a + 1 };
                        let b2 = if b < pos { b } else { b + 1 };
                        assert(before[a2] == self.keys@[a]);
                        assert(before[b2] == self.keys@[b]);
                    }
                }
            }
        } else {
            proof {
                assert(self.storage@.remove(key) =~= self.storage@);
            }
        }
        self.storage.remove(&key)
    }

    /// The number of lookups that found their key.
    pub fn get_hit_count(&self) -> (n: usize)
        ensures
            n == self.spec_hits(),
    {
        self.hits
    }

    /// The number of lookups that did not find their key.
    pub fn get_miss_count(&self) -> (n: usize)
        ensures
            n == self.spec_misses(),
    {
        self.misses
    }

    /// Sets both statistics back to zero and leaves the entries alone.
    pub fn reset_stats(&mut self)
        requires
            old(self).well_formed(),
        ensures
            final(self).well_formed(),
            final(self).spec_capacity() == old(self).spec_capacity(),
            final(self).entries() == old(self).entries(),
            final(self).order() == old(self).order(),
            final(self).spec_hits() == 0,
            final(self).spec_misses() == 0,
    {
        self.hits = 0;
        self.misses = 0;
    }
}

impl<T: Clone> Clone for RingBufferCache<T> {
    /// A cache with the same entries, eviction order and statistics.
    fn clone(&self) -> (copy: Self)
        ensures
            copy.entries() == self.entries(),
            copy.order() == self.order(),
            copy.spec_capacity() == self.spec_capacity(),
            copy.spec_hits() == self.spec_hits(),
            copy.spec_misses() == self.spec_misses(),
            self.well_formed() ==> copy.well_formed(),
    {
        let mut keys: Vec<usize> = Vec::with_capacity(self.keys.len());
        let mut i: usize = 0;
        while i < self.keys.len()
            invariant
                i <= self.keys.len(),
                keys@ == self.keys@.take(i as int),
            decreases self.keys.len() - i,
        {
            keys.push(self.keys[i]);
            i += 1;
            assert(keys@ =~= self.keys@.take(i as int));
        }
        assert(self.keys@.take(self.keys@.len() as int) =~= self.keys@);
        Self {
            storage: self.storage.clone(),
            capacity: self.capacity,
            keys,
            hits: self.hits,
            misses: self.misses,
        }
    }
}

/// The entries after `insert(key, value)` on a cache with the given entries,
/// eviction order and capacity.
pub open spec fn insert_entries<T>(
    entries: Map<usize, T>,
    order: Seq<usize>,
    capacity: usize,
    key: usize,
    value: T,
) -> Map<usize, T> {
    if entries.contains_key(key) || order.len() < capacity {
        entries.insert(key, value)
    } else {
        entries.remove(order[0]).insert(key, value)
    }
}

/// The eviction order after `insert(key, ..)` on a cache with the given
/// entries, eviction order and capacity.
pub open spec fn insert_order<T>(
    entries: Map<usize, T>,
    order: Seq<usize>,
    capacity: usize,
    key: usize,
) -> Seq<usize> {
    if entries.contains_key(key) {
        order
    } else if order.len() < capacity {
        order.push(key)
    } else {
        order.drop_first().push(key)
    }
}

} // verus!
