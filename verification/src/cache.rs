//! A small least-recently-used cache.

use std::collections::HashMap;
use std::hash::Hash;

use vstd::prelude::*;
use vstd::std_specs::hash::obeys_key_model;

verus! {

/// A small least-recently-used cache. Capacity is tiny, so a linear scan to find
/// the eviction victim is cheaper than the bookkeeping a heavier structure needs.
///
/// Every entry carries the tick of its last use.
pub struct LruCache<K, V> {
    pub capacity: usize,
    pub tick: u64,
    pub entries: HashMap<K, (V, u64)>,
}

/// `key` is the entry that was used the longest ago.
pub open spec fn least_recent<K, V>(entries: Map<K, (V, u64)>, key: K) -> bool {
    &&& entries.contains_key(key)
    &&& forall|other: K| #[trigger]
        entries.contains_key(other) ==> entries[key].1 <= entries[other].1
}

/// `after` is `before` with the entry of `key`, if there is one, used just now.
pub open spec fn looked_up<K, V>(before: LruCache<K, V>, after: LruCache<K, V>, key: K) -> bool {
    &&& after.capacity == before.capacity
    &&& after.tick == before.tick + 1
    &&& after.entries@ == if before.entries@.contains_key(key) {
        before.entries@.insert(key, (before.entries@[key].0, after.tick))
    } else {
        before.entries@
    }
}

/// `after` is `before` with `value` stored under `key` just now. Where that is one
/// entry too many, the one that was used the longest ago is gone.
pub open spec fn stored<K, V>(
    before: LruCache<K, V>,
    after: LruCache<K, V>,
    key: K,
    value: V,
) -> bool {
    let filled = before.entries@.insert(key, (value, after.tick));
    &&& after.capacity == before.capacity
    &&& after.tick == before.tick + 1
    &&& if filled.len() <= before.capacity {
        after.entries@ == filled
    } else {
        exists|victim: K| #[trigger]
            least_recent(filled, victim) && after.entries@ == filled.remove(victim)
    }
}

/// What is stored under each key.
pub open spec fn contents<K, V>(cache: LruCache<K, V>) -> Map<K, V> {
    cache.entries@.map_values(|entry: (V, u64)| entry.0)
}

/// `keys` are the keys of the cache, from the one whose last use is the oldest to
/// the one used last.
pub open spec fn by_recency<K, V>(cache: LruCache<K, V>, keys: Seq<K>) -> bool {
    &&& forall|i: int| 0 <= i < keys.len() ==> cache.entries@.contains_key(#[trigger] keys[i])
    &&& forall|key: K| #[trigger] cache.entries@.contains_key(key) ==> keys.contains(key)
    &&& forall|i: int, j: int|
        0 <= i < j < keys.len() ==> cache.entries@[#[trigger] keys[i]].1
            < cache.entries@[#[trigger] keys[j]].1
}

/// `keys` with one of them moved to the end.
pub open spec fn moved_to_end<K>(keys: Seq<K>, key: K) -> Seq<K> {
    keys.remove(keys.index_of(key)).push(key)
}

impl<K: Eq + Hash + Copy, V: Clone> LruCache<K, V> {
    /// There is never more than `capacity` entries, and no two were last used at
    /// the same tick.
    pub open spec fn wf(&self) -> bool {
        &&& obeys_key_model::<K>()
        &&& self.entries@.len() <= self.capacity
        &&& forall|key: K| #[trigger]
            self.entries@.contains_key(key) ==> self.entries@[key].1 <= self.tick
        &&& forall|a: K, b: K|
            #![trigger self.entries@.contains_key(a), self.entries@.contains_key(b)]
            self.entries@.contains_key(a) && self.entries@.contains_key(b) && a != b
                ==> self.entries@[a].1 != self.entries@[b].1
    }

    /// An empty cache for `capacity` entries.
    pub fn new(capacity: usize) -> (cache: Self)
        requires
            obeys_key_model::<K>(),
        ensures
            cache.wf(),
            cache.capacity == capacity,
            cache.tick == 0,
            cache.entries@ == Map::<K, (V, u64)>::empty(),
            contents(cache) == Map::<K, V>::empty(),
            by_recency(cache, Seq::<K>::empty()),
    {
        Self { capacity, tick: 0, entries: HashMap::new() }
    }

    /// Returns a clone of the cached value, refreshing its recency.
    pub fn get(&mut self, key: &K) -> (value: Option<V>)
        requires
            old(self).wf(),
            old(self).tick < u64::MAX,
        ensures
            final(self).wf(),
            looked_up(*old(self), *final(self), *key),
            value is Some <==> old(self).entries@.contains_key(*key),
            value matches Some(copy) ==> cloned(old(self).entries@[*key].0, copy),
    {
        self.tick += 1;
        match self.entries.remove(key) {
            None => {
                assert(self.entries@ =~= old(self).entries@);
                None
            },
            Some((kept, _)) => {
                let copy: V = kept.clone();
                self.entries.insert(*key, (kept, self.tick));
                assert(self.entries@ =~= old(self).entries@.insert(*key, (kept, self.tick)));
                Some(copy)
            },
        }
    }

    /// Stores a value as the most recently used one. If that is one too many, the
    /// least recently used entry goes.
    pub fn put(&mut self, key: K, value: V)
        requires
            old(self).wf(),
            old(self).tick < u64::MAX,
        ensures
            final(self).wf(),
            stored(*old(self), *final(self), key, value),
    {
        self.tick += 1;
        self.entries.insert(key, (value, self.tick));
        let ghost filled = self.entries@;
        if self.entries.len() > self.capacity {
            let mut oldest: K = key;
            let mut oldest_tick: u64 = self.tick;
            for (other, entry) in it: self.entries.iter()
                invariant
                    filled == self.entries@,
                    filled.contains_key(key),
                    filled.contains_key(oldest),
                    filled[oldest].1 == oldest_tick,
                    forall|i: int|
                        0 <= i < it.index() ==> oldest_tick <= (#[trigger] it.seq()[i]).1.1,
            {
                if entry.1 < oldest_tick {
                    oldest = *other;
                    oldest_tick = entry.1;
                }
            }
            assert(least_recent(filled, oldest));
            self.entries.remove(&oldest);
        }
    }
}

/// A value can be read back right after it was stored, unless the cache holds
/// nothing at all.
pub proof fn law_get_returns_what_was_put<K: Eq + Hash + Copy, V: Clone>(
    before: LruCache<K, V>,
    after: LruCache<K, V>,
    key: K,
    value: V,
)
    requires
        before.wf(),
        before.capacity > 0,
        stored(before, after, key, value),
    ensures
        after.entries@.contains_key(key),
        after.entries@[key].0 == value,
{
    let filled = before.entries@.insert(key, (value, after.tick));
    if filled.len() > before.capacity {
        let victim = choose|victim: K| #[trigger]
            least_recent(filled, victim) && after.entries@ == filled.remove(victim);
        if victim == key {
            assert(before.entries@.len() > 0);
            let other = before.entries@.dom().choose();
            assert(before.entries@.contains_key(other));
            assert(filled.contains_key(other));
            if other == key {
                assert(filled.dom() =~= before.entries@.dom());
            }
        }
    }
}

/// Storing under a key that is present replaces its value and evicts nothing.
pub proof fn law_overwriting_does_not_grow<K: Eq + Hash + Copy, V: Clone>(
    before: LruCache<K, V>,
    after: LruCache<K, V>,
    key: K,
    value: V,
)
    requires
        before.wf(),
        before.entries@.contains_key(key),
        stored(before, after, key, value),
    ensures
        after.entries@ == before.entries@.insert(key, (value, after.tick)),
        after.entries@.len() == before.entries@.len(),
{
    let filled = before.entries@.insert(key, (value, after.tick));
    assert(filled.dom() =~= before.entries@.dom());
}

/// Where storing evicts, exactly one entry goes, every other entry was used later
/// than it, and all of them stay with their values.
pub proof fn law_evicts_least_recently_used<K: Eq + Hash + Copy, V: Clone>(
    before: LruCache<K, V>,
    after: LruCache<K, V>,
    key: K,
    value: V,
    gone: K,
)
    requires
        before.wf(),
        before.capacity > 0,
        stored(before, after, key, value),
        before.entries@.contains_key(gone),
        !after.entries@.contains_key(gone),
    ensures
        !before.entries@.contains_key(key),
        before.entries@.len() == before.capacity,
        forall|other: K|
            before.entries@.contains_key(other) && other != gone ==> {
                &&& before.entries@[gone].1 < (#[trigger] before.entries@[other]).1
                &&& after.entries@.contains_key(other)
                &&& after.entries@[other] == before.entries@[other]
            },
{
    let filled = before.entries@.insert(key, (value, after.tick));
    law_get_returns_what_was_put(before, after, key, value);
    if before.entries@.contains_key(key) {
        law_overwriting_does_not_grow(before, after, key, value);
    }
    let victim = choose|victim: K| #[trigger]
        least_recent(filled, victim) && after.entries@ == filled.remove(victim);
    assert(filled.contains_key(gone));
    assert(victim == gone);
    assert forall|other: K| before.entries@.contains_key(other) && other != gone implies {
        &&& before.entries@[gone].1 < (#[trigger] before.entries@[other]).1
        &&& after.entries@.contains_key(other)
        &&& after.entries@[other] == before.entries@[other]
    } by {
        assert(filled.contains_key(other));
    }
}

/// An entry that was looked up just now survives the next store of another key,
/// as long as the cache holds two entries or more.
pub proof fn law_touched_entry_survives<K: Eq + Hash + Copy, V: Clone>(
    before: LruCache<K, V>,
    touched: LruCache<K, V>,
    after: LruCache<K, V>,
    used: K,
    key: K,
    value: V,
)
    requires
        before.wf(),
        touched.wf(),
        before.capacity >= 2,
        before.entries@.contains_key(used),
        looked_up(before, touched, used),
        stored(touched, after, key, value),
        key != used,
    ensures
        after.entries@.contains_key(used),
        after.entries@[used].0 == before.entries@[used].0,
{
    if !after.entries@.contains_key(used) {
        law_evicts_least_recently_used(touched, after, key, value, used);
        let others = touched.entries@.dom().remove(used);
        assert(others.len() > 0);
        let other = others.choose();
        assert(others.contains(other));
        assert(touched.entries@.contains_key(other) && other != used);
        assert(before.entries@.contains_key(other));
        assert(touched.entries@[other].1 <= before.tick);
    } else {
        let filled = touched.entries@.insert(key, (value, after.tick));
        assert(filled[used] == touched.entries@[used]);
    }
}

/// Each key stands once in the order of use.
proof fn lemma_by_recency<K, V>(cache: LruCache<K, V>, keys: Seq<K>)
    requires
        by_recency(cache, keys),
    ensures
        keys.no_duplicates(),
        keys.len() == cache.entries@.len(),
{
    assert forall|i: int, j: int| 0 <= i < keys.len() && 0 <= j < keys.len() && i != j implies keys[i]
        != keys[j] by {
        if i < j {
            assert(cache.entries@[keys[i]].1 < cache.entries@[keys[j]].1);
        } else {
            assert(cache.entries@[keys[j]].1 < cache.entries@[keys[i]].1);
        }
    }
    keys.unique_seq_to_set();
    assert(keys.to_set() =~= cache.entries@.dom());
}

/// A key that is used becomes the last one; the others keep their order.
proof fn lemma_used_last<K, V>(
    before: LruCache<K, V>,
    after: LruCache<K, V>,
    keys: Seq<K>,
    key: K,
)
    requires
        by_recency(before, keys),
        before.entries@.contains_key(key),
        after.entries@.dom() == before.entries@.dom(),
        forall|other: K|
            before.entries@.contains_key(other) && other != key ==> #[trigger] after.entries@[other].1
                == before.entries@[other].1 && before.entries@[other].1 < after.entries@[key].1,
    ensures
        by_recency(after, moved_to_end(keys, key)),
{
    lemma_by_recency(before, keys);
    let at = keys.index_of(key);
    assert(keys.contains(key));
    assert(0 <= at < keys.len() && keys[at] == key);
    let rest = keys.remove(at);
    let moved = moved_to_end(keys, key);
    assert forall|i: int| 0 <= i < rest.len() implies rest[i] == keys[if i < at { i } else { i + 1 }]
        && #[trigger] rest[i] != key && before.entries@.contains_key(rest[i]) by {
        let k = if i < at { i } else { i + 1 };
        assert(rest[i] == keys[k]);
        assert(before.entries@.contains_key(keys[k]));
    }
    assert forall|i: int| 0 <= i < moved.len() implies after.entries@.contains_key(
        #[trigger] moved[i],
    ) by {
        if i < rest.len() {
            assert(moved[i] == rest[i]);
        }
    }
    assert forall|other: K| #[trigger] after.entries@.contains_key(other) implies moved.contains(
        other,
    ) by {
        assert(before.entries@.contains_key(other));
        assert(keys.contains(other));
        let k = keys.index_of(other);
        if other == key {
            assert(moved[moved.len() - 1] == other);
        } else if k < at {
            assert(moved[k] == other);
        } else {
            assert(moved[k - 1] == other);
        }
    }
    assert forall|i: int, j: int| 0 <= i < j < moved.len() implies after.entries@[#[trigger] moved[i]].1
        < after.entries@[#[trigger] moved[j]].1 by {
        assert(moved[i] == rest[i]);
        if j < rest.len() {
            assert(moved[j] == rest[j]);
            let a = if i < at { i } else { i + 1 };
            let b = if j < at { j } else { j + 1 };
            assert(rest[i] == keys[a] && rest[j] == keys[b]);
            assert(before.entries@[keys[a]].1 < before.entries@[keys[b]].1);
        }
    }
}

/// Looking a key up changes nothing that is stored. Where it is found, it becomes the
/// most recently used one, and the others keep their order; where it is not, the
/// order stays, and with it what the next store evicts.
pub proof fn law_looking_up_only_touches<K: Eq + Hash + Copy, V: Clone>(
    before: LruCache<K, V>,
    after: LruCache<K, V>,
    key: K,
    keys: Seq<K>,
)
    requires
        before.wf(),
        looked_up(before, after, key),
        by_recency(before, keys),
    ensures
        contents(after) == contents(before),
        by_recency(
            after,
            if before.entries@.contains_key(key) {
                moved_to_end(keys, key)
            } else {
                keys
            },
        ),
{
    assert(contents(after) =~= contents(before));
    if before.entries@.contains_key(key) {
        assert(after.entries@.dom() =~= before.entries@.dom());
        lemma_used_last(before, after, keys, key);
    }
}

/// Storing sets the value of the key, which becomes the most recently used one. Where
/// the cache was full and the key is new, the least recently used entry goes, and no
/// other; nothing else changes. A cache for nothing stays empty.
pub proof fn law_storing_evicts_at_most_the_oldest<K: Eq + Hash + Copy, V: Clone>(
    before: LruCache<K, V>,
    after: LruCache<K, V>,
    key: K,
    value: V,
    keys: Seq<K>,
)
    requires
        before.wf(),
        stored(before, after, key, value),
        by_recency(before, keys),
    ensures
        keys.len() == before.entries@.len() <= before.capacity,
        after.entries@.len() <= after.capacity,
        before.capacity == 0 ==> contents(after) == Map::<K, V>::empty() && by_recency(
            after,
            Seq::<K>::empty(),
        ),
        before.entries@.contains_key(key) ==> contents(after) == contents(before).insert(
            key,
            value,
        ) && by_recency(after, moved_to_end(keys, key)),
        !before.entries@.contains_key(key) && keys.len() < before.capacity ==> contents(after)
            == contents(before).insert(key, value) && by_recency(after, keys.push(key)),
        !before.entries@.contains_key(key) && 0 < keys.len() == before.capacity ==> contents(after)
            == contents(before).remove(keys[0]).insert(key, value) && by_recency(
            after,
            keys.drop_first().push(key),
        ),
{
    lemma_by_recency(before, keys);
    let filled = before.entries@.insert(key, (value, after.tick));
    if before.entries@.contains_key(key) {
        law_overwriting_does_not_grow(before, after, key, value);
        assert(contents(after) =~= contents(before).insert(key, value));
        assert(after.entries@.dom() =~= before.entries@.dom());
        lemma_used_last(before, after, keys, key);
    } else if keys.len() < before.capacity {
        assert(contents(after) =~= contents(before).insert(key, value));
        let grown = keys.push(key);
        assert forall|other: K| #[trigger] after.entries@.contains_key(other) implies grown.contains(
            other,
        ) by {
            if other == key {
                assert(grown[grown.len() - 1] == other);
            } else {
                assert(before.entries@.contains_key(other));
                assert(grown[keys.index_of(other)] == other);
            }
        }
    } else {
        let victim = choose|victim: K| #[trigger]
            least_recent(filled, victim) && after.entries@ == filled.remove(victim);
        if before.capacity == 0 {
            assert(before.entries@.dom() =~= Set::<K>::empty());
            assert(filled.contains_key(victim));
            assert(contents(after) =~= Map::<K, V>::empty());
        } else {
            assert(before.entries@.contains_key(keys[0]));
            assert(filled.contains_key(keys[0]));
            assert(victim == keys[0]) by {
                if victim != keys[0] && victim != key {
                    assert(before.entries@.contains_key(victim));
                    let k = keys.index_of(victim);
                    assert(keys.contains(victim));
                    assert(before.entries@[keys[0]].1 < before.entries@[keys[k]].1);
                }
            }
            assert(contents(after) =~= contents(before).remove(keys[0]).insert(key, value));
            let left = keys.drop_first().push(key);
            assert forall|i: int| 0 <= i < left.len() implies after.entries@.contains_key(
                #[trigger] left[i],
            ) by {
                if i < left.len() - 1 {
                    assert(left[i] == keys[i + 1]);
                    assert(keys[i + 1] != keys[0]);
                    assert(before.entries@.contains_key(keys[i + 1]));
                }
            }
            assert forall|other: K| #[trigger] after.entries@.contains_key(other) implies left.contains(
                other,
            ) by {
                if other == key {
                    assert(left[left.len() - 1] == other);
                } else {
                    assert(before.entries@.contains_key(other));
                    assert(keys.contains(other));
                    assert(left[keys.index_of(other) - 1] == other);
                }
            }
            assert forall|i: int, j: int| 0 <= i < j < left.len() implies after.entries@[#[trigger] left[i]].1
                < after.entries@[#[trigger] left[j]].1 by {
                assert(left[i] == keys[i + 1]);
                assert(before.entries@.contains_key(keys[i + 1]));
                if j < left.len() - 1 {
                    assert(left[j] == keys[j + 1]);
                    assert(before.entries@[keys[i + 1]].1 < before.entries@[keys[j + 1]].1);
                }
            }
        }
    }
}

}
