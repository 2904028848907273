//! A bounded cache that forgets the entry used longest ago.

use vstd::prelude::*;

verus! {

/// A key that can be compared in executable code; two keys are the same
/// when their views are equal.
pub trait LruKey: View + Sized {
    fn same(&self, other: &Self) -> (b: bool)
        ensures
            b == (self@ == other@),
    ;
}

/// Whether some entry has the key.
pub open spec fn has_key<K, V>(entries: Seq<(K, V)>, key: K) -> bool {
    exists|i: int| 0 <= i < entries.len() && (#[trigger] entries[i]).0 == key
}

/// Index of an entry with the key, if there is one.
pub open spec fn key_index<K, V>(entries: Seq<(K, V)>, key: K) -> int {
    choose|i: int| 0 <= i < entries.len() && (#[trigger] entries[i]).0 == key
}

/// No key occurs twice.
pub open spec fn distinct_keys<K, V>(entries: Seq<(K, V)>) -> bool {
    forall|i: int, j: int|
        0 <= i < j < entries.len() ==> (#[trigger] entries[i]).0 != (#[trigger] entries[j]).0
}

/// The value stored under the key.
pub open spec fn value_of<K, V>(entries: Seq<(K, V)>, key: K) -> Option<V> {
    if has_key(entries, key) {
        Some(entries[key_index(entries, key)].1)
    } else {
        None
    }
}

/// The entries after a touch of `key`: its entry moves to the most recent
/// end; nothing changes when the key has no entry.
pub open spec fn touched<K, V>(entries: Seq<(K, V)>, key: K) -> Seq<(K, V)> {
    if has_key(entries, key) {
        let i = key_index(entries, key);
        entries.remove(i).push(entries[i])
    } else {
        entries
    }
}

/// The entries after `key` is stored with `value` under a bound of
/// `limit` entries: an entry for the key is replaced and becomes the most
/// recent; otherwise the oldest entry leaves first if the bound is reached.
pub open spec fn inserted<K, V>(entries: Seq<(K, V)>, limit: nat, key: K, value: V) -> Seq<(K, V)> {
    if has_key(entries, key) {
        entries.remove(key_index(entries, key)).push((key, value))
    } else if entries.len() >= limit && entries.len() > 0 {
        entries.drop_first().push((key, value))
    } else {
        entries.push((key, value))
    }
}

/// With distinct keys, an index that holds the key is the key's index.
pub proof fn lemma_key_index_unique<K, V>(entries: Seq<(K, V)>, key: K, i: int)
    requires
        distinct_keys(entries),
        0 <= i < entries.len(),
        entries[i].0 == key,
    ensures
        has_key(entries, key),
        key_index(entries, key) == i,
{
    let j = key_index(entries, key);
    assert(entries[j].0 == key);
}

/// Touching keeps the keys distinct and the number of entries, and puts the
/// touched key last.
pub proof fn lemma_touched<K, V>(entries: Seq<(K, V)>, key: K)
    requires
        distinct_keys(entries),
    ensures
        distinct_keys(touched(entries, key)),
        touched(entries, key).len() == entries.len(),
        has_key(entries, key) ==> touched(entries, key).last().0 == key,
        forall|other: K| has_key(touched(entries, key), other) <==> has_key(entries, other),
{
    let after = touched(entries, key);
    if has_key(entries, key) {
        let i = key_index(entries, key);
        assert forall|a: int, b: int| 0 <= a < b < after.len() implies (#[trigger] after[a]).0 != (
        #[trigger] after[b]).0 by {
            let sa = if a < i { a } else { a + 1 };
            let sb = if b == after.len() - 1 { i } else if b < i { b } else { b + 1 };
            assert(after[a] == entries[sa]);
            assert(after[b] == entries[sb]);
            if sa < sb {
                assert(entries[sa].0 != entries[sb].0);
            } else {
                assert(entries[sb].0 != entries[sa].0);
            }
        }
        assert forall|other: K| has_key(after, other) <==> has_key(entries, other) by {
            if has_key(after, other) {
                let a = key_index(after, other);
                let sa = if a == after.len() - 1 { i } else if a < i { a } else { a + 1 };
                assert(after[a] == entries[sa]);
            }
            if has_key(entries, other) {
                let s = key_index(entries, other);
                let a = if s == i { after.len() - 1 } else if s < i { s } else { s - 1 };
                assert(after[a] == entries[s]);
            }
        }
    }
}

/// A touch leaves the value under the touched key as it was.
pub proof fn lemma_value_kept<K, V>(entries: Seq<(K, V)>, key: K)
    requires
        distinct_keys(entries),
    ensures
        value_of(touched(entries, key), key) == value_of(entries, key),
{
    if has_key(entries, key) {
        let i = key_index(entries, key);
        let after = touched(entries, key);
        lemma_touched(entries, key);
        assert(after[after.len() - 1] == entries[i]);
        lemma_key_index_unique(after, key, after.len() - 1);
    } else {
        lemma_touched(entries, key);
    }
}

/// Inserting keeps the keys distinct, never holds more than
/// `max(limit, 1)` entries when it held no more before, and puts the
/// inserted key with its value last.
pub proof fn lemma_inserted<K, V>(entries: Seq<(K, V)>, limit: nat, key: K, value: V)
    requires
        distinct_keys(entries),
    ensures
        distinct_keys(inserted(entries, limit, key, value)),
        inserted(entries, limit, key, value).last() == (key, value),
        entries.len() <= limit || entries.len() <= 1 ==> inserted(entries, limit, key, value).len()
            <= limit || inserted(entries, limit, key, value).len() <= 1,
        inserted(entries, limit, key, value).len() <= entries.len() + 1,
{
    let after = inserted(entries, limit, key, value);
    if has_key(entries, key) {
        let i = key_index(entries, key);
        assert forall|a: int, b: int| 0 <= a < b < after.len() implies (#[trigger] after[a]).0 != (
        #[trigger] after[b]).0 by {
            let sa = if a < i { a } else { a + 1 };
            assert(after[a] == entries[sa]);
            if b == after.len() - 1 {
                if sa < i {
                    assert(entries[sa].0 != entries[i].0);
                } else {
                    assert(entries[i].0 != entries[sa].0);
                }
            } else {
                let sb = if b < i { b } else { b + 1 };
                assert(after[b] == entries[sb]);
                assert(entries[sa].0 != entries[sb].0);
            }
        }
    } else {
        let shift: int = if entries.len() >= limit && entries.len() > 0 { 1 } else { 0 };
        assert forall|a: int, b: int| 0 <= a < b < after.len() implies (#[trigger] after[a]).0 != (
        #[trigger] after[b]).0 by {
            assert(after[a] == entries[a + shift]);
            if b == after.len() - 1 {
                assert(entries[a + shift].0 != key);
            } else {
                assert(after[b] == entries[b + shift]);
                assert(entries[a + shift].0 != entries[b + shift].0);
            }
        }
    }
}

/// The entries with each key replaced by its view.
pub open spec fn views_of<K: View, V>(entries: Seq<(K, V)>) -> Seq<(K::V, V)> {
    Seq::new(entries.len(), |i: int| (entries[i].0@, entries[i].1))
}

/// A bounded mapping from keys to values with least-recently-used eviction.
/// Entries are kept from the least to the most recently inserted or touched.
pub struct LruCache<K: LruKey, V> {
    entries: Vec<(K, V)>,
    limit: usize,
}

impl<K: LruKey, V> LruCache<K, V> {
    /// The entries, oldest first, each key by its view.
    pub closed spec fn view(&self) -> Seq<(K::V, V)> {
        views_of(self.entries@)
    }

    /// The bound the cache was made with.
    pub closed spec fn limit(&self) -> nat {
        self.limit as nat
    }

    /// Keys are distinct and the bound is kept; a bound of zero still
    /// leaves room for one entry.
    pub open spec fn wf(&self) -> bool {
        &&& distinct_keys(self@)
        &&& (self@.len() <= self.limit() || self@.len() <= 1)
    }

    #[verifier::type_invariant]
    spec fn inv(&self) -> bool {
        self.wf()
    }

    /// An empty cache holding at most `limit` entries.
    pub fn new(limit: usize) -> (cache: Self)
        ensures
            cache@ == Seq::<(K::V, V)>::empty(),
            cache.limit() == limit,
            cache.wf(),
    {
        let cache = LruCache { entries: Vec::new(), limit };
        assert(cache@ =~= Seq::<(K::V, V)>::empty());
        cache
    }

    /// Number of entries.
    pub fn len(&self) -> (n: usize)
        ensures
            n == self@.len(),
            self.wf(),
    {
        proof {
            use_type_invariant(self);
        }
        self.entries.len()
    }

    /// Whether the cache holds nothing.
    pub fn is_empty(&self) -> (b: bool)
        ensures
            b == (self@.len() == 0),
    {
        self.entries.len() == 0
    }

    /// The bound on the number of entries.
    pub fn capacity(&self) -> (n: usize)
        ensures
            n == self.limit(),
    {
        self.limit
    }

    fn position(&self, key: &K) -> (r: Option<usize>)
        ensures
            self.wf(),
            match r {
                Some(i) => has_key(self@, key@) && i == key_index(self@, key@) && i < self@.len(),
                None => !has_key(self@, key@),
            },
    {
        proof {
            use_type_invariant(self);
        }
        let mut i: usize = 0;
        while i < self.entries.len()
            invariant
                self.wf(),
                i <= self.entries@.len(),
                self@.len() == self.entries@.len(),
                forall|j: int| 0 <= j < i ==> (#[trigger] self@[j]).0 != key@,
            decreases self.entries@.len() - i,
        {
            if self.entries[i].0.same(key) {
                proof {
                    assert(self@[i as int].0 == key@);
                    lemma_key_index_unique(self@, key@, i as int);
                }
                return Some(i);
            }
            i = i + 1;
        }
        None
    }

    /// The entry at a position, counted from the oldest.
    pub fn entry(&self, i: usize) -> (r: (&K, &V))
        requires
            i < self@.len(),
        ensures
            (r.0@, *r.1) == self@[i as int],
    {
        (&self.entries[i].0, &self.entries[i].1)
    }

    /// Whether the key has an entry.
    pub fn contains_key(&self, key: &K) -> (b: bool)
        ensures
            b == has_key(self@, key@),
    {
        self.position(key).is_some()
    }

    /// The value stored under the key; recency is left as it is.
    pub fn peek(&self, key: &K) -> (r: Option<&V>)
        ensures
            match r {
                Some(v) => Some(*v) == value_of(self@, key@),
                None => value_of(self@, key@) is None,
            },
    {
        match self.position(key) {
            Some(i) => Some(&self.entries[i].1),
            None => None,
        }
    }

    /// Make the key's entry the most recent. Returns whether the key has
    /// an entry.
    pub fn touch(&mut self, key: &K) -> (hit: bool)
        ensures
            hit == has_key(old(self)@, key@),
            final(self)@ == touched(old(self)@, key@),
            final(self).limit() == old(self).limit(),
            old(self).wf(),
            final(self).wf(),
    {
        proof {
            use_type_invariant(&*self);
            lemma_touched(self@, key@);
        }
        match self.position(key) {
            Some(i) => {
                let ghost before = self@;
                let mut entries: Vec<(K, V)> = Vec::new();
                std::mem::swap(&mut self.entries, &mut entries);
                let entry = entries.remove(i);
                entries.push(entry);
                proof {
                    assert(views_of(entries@) =~= touched(before, key@));
                }
                std::mem::swap(&mut self.entries, &mut entries);
                true
            },
            None => false,
        }
    }

    /// Store a value under a key and make it the most recent entry. An
    /// entry for the key is replaced; otherwise, if the cache is full, the
    /// oldest entry is dropped first.
    pub fn insert(&mut self, key: K, value: V)
        ensures
            final(self)@ == inserted(old(self)@, old(self).limit(), key@, value),
            final(self).limit() == old(self).limit(),
            old(self).wf(),
            final(self).wf(),
    {
        proof {
            use_type_invariant(&*self);
            lemma_inserted(self@, self.limit(), key@, value);
        }
        let ghost before = self@;
        let found = self.position(&key);
        let mut entries: Vec<(K, V)> = Vec::new();
        std::mem::swap(&mut self.entries, &mut entries);
        match found {
            Some(i) => {
                let _ = entries.remove(i);
            },
            None => {
                if entries.len() >= self.limit && entries.len() > 0 {
                    let _ = entries.remove(0);
                }
            },
        }
        let ghost ghost_key = key@;
        entries.push((key, value));
        proof {
            assert(views_of(entries@) =~= inserted(before, self.limit(), ghost_key, value));
        }
        std::mem::swap(&mut self.entries, &mut entries);
    }

    /// Drop every entry.
    pub fn clear(&mut self)
        ensures
            final(self)@ == Seq::<(K::V, V)>::empty(),
            final(self).limit() == old(self).limit(),
            final(self).wf(),
    {
        let mut entries: Vec<(K, V)> = Vec::new();
        proof {
            assert(views_of(entries@) =~= Seq::<(K::V, V)>::empty());
        }
        std::mem::swap(&mut self.entries, &mut entries);
    }
}

} // verus!
