//! The memoization cache: snapshots of tile values keyed by a hash of the input values.
use vstd::prelude::*;

use rustc_hash::FxHashMap;
use std::collections::VecDeque;

verus! {

/// The hasher of `rustc_hash`, carried through without looking inside.
#[verifier::external_type_specification]
#[verifier::external_body]
pub struct ExFxBuildHasher(rustc_hash::FxBuildHasher);

/// A snapshot: the input values it was taken for and the output values it restores.
///
/// A lookup is by hash, so the inputs are kept to tell a hit from a collision.
#[derive(Debug, Clone)]
pub struct CacheEntry {
    pub inputs: Vec<u64>,
    pub outputs: Vec<u64>,
}

/// The map with no entries.
pub open spec fn no_entries() -> Map<u64, CacheEntry> {
    Map::empty()
}

/// `FxHashMap::default`: a map with no entries.
#[verifier::external_body]
fn fx_new() -> (m: FxHashMap<u64, CacheEntry>)
    ensures
        m@ == no_entries(),
{
    FxHashMap::default()
}

/// `HashMap::get` on an `FxHashMap`: the entry of a key, if it has one.
#[verifier::external_body]
fn fx_get(m: &FxHashMap<u64, CacheEntry>, key: u64) -> (r: Option<&CacheEntry>)
    ensures
        match r {
            Some(e) => m@.contains_key(key) && *e == m@[key],
            None => !m@.contains_key(key),
        },
{
    m.get(&key)
}

/// `HashMap::insert` on an `FxHashMap`: the key has the entry, whatever it had before.
#[verifier::external_body]
fn fx_insert(m: &mut FxHashMap<u64, CacheEntry>, key: u64, entry: CacheEntry)
    ensures
        final(m)@ == old(m)@.insert(key, entry),
{
    m.insert(key, entry);
}

/// `HashMap::remove` on an `FxHashMap`: the key has no entry.
#[verifier::external_body]
fn fx_remove(m: &mut FxHashMap<u64, CacheEntry>, key: u64)
    ensures
        final(m)@ == old(m)@.remove(key),
{
    m.remove(&key);
}

/// `HashMap::len` on an `FxHashMap`: how many keys have an entry.
#[verifier::external_body]
fn fx_len(m: &FxHashMap<u64, CacheEntry>) -> (n: usize)
    ensures
        n == m@.dom().len(),
{
    m.len()
}

/// `HashMap::clear` on an `FxHashMap`: no key has an entry.
#[verifier::external_body]
fn fx_clear(m: &mut FxHashMap<u64, CacheEntry>)
    ensures
        final(m)@ == no_entries(),
{
    m.clear();
}

/// The keys listed in `order`.
pub open spec fn key_set(order: Seq<u64>) -> Set<u64> {
    Set::new(|k: u64| order.contains(k))
}

/// A cache bounded by its capacity, with first-in first-out eviction.
#[derive(Debug, Clone)]
pub struct BackboneCache {
    pub map: FxHashMap<u64, CacheEntry>,
    /// The keys, oldest first.
    pub order: VecDeque<u64>,
    pub capacity: usize,
}

impl BackboneCache {
    /// The cache lists each of its keys once and nothing else, and is within its capacity.
    pub open spec fn wf(self) -> bool {
        &&& self.order@.no_duplicates()
        &&& self.map@.dom() == key_set(self.order@)
        &&& self.order@.len() <= self.capacity
    }

    /// The keys that stay when a new key comes: all of them, or all but the oldest when the
    /// cache is full.
    pub open spec fn after_eviction(self) -> Seq<u64> {
        if self.order@.len() >= self.capacity && self.order@.len() > 0 {
            self.order@.subrange(1, self.order@.len() as int)
        } else {
            self.order@
        }
    }

    /// The cache is `before` with a snapshot kept. A key that was kept has the new snapshot in
    /// place; a new key comes last, after the oldest has left a full cache; every other key has
    /// the snapshot it had. A cache without capacity keeps nothing.
    pub open spec fn keeps(
        self,
        before: BackboneCache,
        key: u64,
        inputs: Seq<u64>,
        outputs: Seq<u64>,
    ) -> bool {
        &&& self.capacity == before.capacity
        &&& if before.capacity == 0 {
            &&& self.map@ == no_entries()
            &&& self.order@ == Seq::<u64>::empty()
        } else {
            &&& self.map@.contains_key(key)
            &&& self.map@[key].inputs@ == inputs
            &&& self.map@[key].outputs@ == outputs
            &&& self.order@ == if before.map@.contains_key(key) {
                before.order@
            } else {
                before.after_eviction().push(key)
            }
            &&& forall|k: u64|
                k != key && self.map@.contains_key(k) ==> before.map@.contains_key(k)
                    && #[trigger] self.map@[k] == before.map@[k]
        }
    }

    /// An empty cache.
    pub fn new(capacity: usize) -> (c: Self)
        ensures
            c.wf(),
            c.map@ == no_entries(),
            c.order@ == Seq::<u64>::empty(),
            c.capacity == capacity,
    {
        let c = BackboneCache { map: fx_new(), order: VecDeque::new(), capacity };
        assert(c.map@.dom() =~= key_set(c.order@));
        c
    }

    /// The snapshot of a key.
    pub fn get(&self, key: u64) -> (r: Option<&CacheEntry>)
        ensures
            match r {
                Some(e) => self.map@.contains_key(key) && *e == self.map@[key],
                None => !self.map@.contains_key(key),
            },
    {
        fx_get(&self.map, key)
    }

    /// Keep a snapshot. A key that is already kept gets the new snapshot in place; a new key
    /// comes last, and the oldest leaves first when the cache is full. A cache without capacity
    /// stays empty.
    pub fn insert(&mut self, key: u64, inputs: Vec<u64>, outputs: Vec<u64>)
        requires
            old(self).wf(),
        ensures
            final(self).wf(),
            final(self).keeps(*old(self), key, inputs@, outputs@),
    {
        if self.capacity == 0 {
            assert(self.order@ =~= Seq::<u64>::empty());
            assert(self.map@ =~= no_entries()) by {
                assert forall|k: u64| !self.map@.contains_key(k) by {
                    assert(self.map@.dom().contains(k) <==> key_set(self.order@).contains(k));
                }
            }
            return;
        }
        let ghost before = *self;
        let present: bool = fx_get(&self.map, key).is_some();
        if present {
            fx_insert(&mut self.map, key, CacheEntry { inputs, outputs });
            assert(self.map@.dom() =~= before.map@.dom());
            return;
        }
        let n: usize = fx_len(&self.map);
        proof {
            lemma_key_count(self.order@);
            assert(n == self.order@.len());
        }
        if n >= self.capacity {
            match self.order.pop_front() {
                Some(oldest) => {
                    fx_remove(&mut self.map, oldest);
                    proof {
                        let rest = before.order@.subrange(1, before.order@.len() as int);
                        assert(self.order@ =~= rest);
                        assert(oldest == before.order@[0]);
                        assert(self.map@.dom() =~= key_set(rest)) by {
                            assert forall|k: u64|
                                self.map@.dom().contains(k) <==> #[trigger] key_set(
                                    rest,
                                ).contains(k) by {
                                assert(before.map@.dom().contains(k) <==> key_set(
                                    before.order@,
                                ).contains(k));
                                if rest.contains(k) {
                                    let i = choose|i: int| 0 <= i < rest.len() && rest[i] == k;
                                    assert(before.order@[i + 1] == k);
                                    assert(before.order@[0] != before.order@[i + 1]);
                                }
                                if before.order@.contains(k) && k != oldest {
                                    let i = choose|i: int|
                                        0 <= i < before.order@.len() && before.order@[i] == k;
                                    assert(rest[i - 1] == k);
                                }
                            }
                        }
                        assert(rest.no_duplicates());
                    }
                },
                None => {},
            }
        }
        let ghost mid = *self;
        assert(mid.order@ == before.after_eviction());
        assert(mid.map@.dom() == key_set(mid.order@));
        fx_insert(&mut self.map, key, CacheEntry { inputs, outputs });
        self.order.push_back(key);
        proof {
            assert(!mid.order@.contains(key)) by {
                if mid.order@.contains(key) {
                    assert(mid.map@.dom().contains(key));
                    assert(before.map@.dom().contains(key));
                }
            }
            assert(self.order@ =~= mid.order@.push(key));
            assert(self.map@.dom() =~= key_set(self.order@)) by {
                assert forall|k: u64|
                    self.map@.dom().contains(k) <==> #[trigger] key_set(self.order@).contains(
                        k,
                    ) by {
                    assert(mid.map@.dom().contains(k) <==> key_set(mid.order@).contains(k));
                    if mid.order@.contains(k) {
                        let i = choose|i: int| 0 <= i < mid.order@.len() && mid.order@[i] == k;
                        assert(self.order@[i] == k);
                    }
                    if k == key {
                        assert(self.order@[mid.order@.len() as int] == k);
                    }
                    if self.order@.contains(k) && k != key {
                        let i = choose|i: int| 0 <= i < self.order@.len() && self.order@[i] == k;
                        assert(mid.order@[i] == k);
                    }
                }
            }
            assert(self.order@.no_duplicates());
        }
    }

    /// How many snapshots are kept.
    pub fn len(&self) -> (n: usize)
        requires
            self.wf(),
        ensures
            n == self.order@.len(),
    {
        proof {
            lemma_key_count(self.order@);
        }
        fx_len(&self.map)
    }

    /// Forget every snapshot.
    pub fn clear(&mut self)
        ensures
            final(self).wf(),
            final(self).map@ == no_entries(),
            final(self).order@ == Seq::<u64>::empty(),
            final(self).capacity == old(self).capacity,
    {
        fx_clear(&mut self.map);
        self.order.clear();
        assert(self.map@.dom() =~= key_set(self.order@));
    }
}

proof fn lemma_key_count(order: Seq<u64>)
    requires
        order.no_duplicates(),
    ensures
        key_set(order).finite(),
        key_set(order).len() == order.len(),
{
    assert(key_set(order) =~= order.to_set());
    order.unique_seq_to_set();
}

/// The hash of a list of words: from a fixed start, each word is mixed in by exclusive or and
/// a multiplication.
pub open spec fn words_hash(values: Seq<u64>) -> u64
    decreases values.len(),
{
    if values.len() == 0 {
        0xcbf29ce484222325
    } else {
        (words_hash(values.drop_last()) ^ values.last()).wrapping_mul(0x100000001b3)
    }
}

/// The hash of a list of words.
pub fn hash_u64_slice(values: &Vec<u64>) -> (h: u64)
    ensures
        h == words_hash(values@),
{
    let mut h: u64 = 0xcbf29ce484222325;
    let mut i: usize = 0;
    assert(values@.take(0) =~= Seq::<u64>::empty());
    while i < values.len()
        invariant
            i <= values@.len(),
            h == words_hash(values@.take(i as int)),
        decreases values@.len() - i,
    {
        assert(values@.take(i + 1).drop_last() =~= values@.take(i as int));
        h = (h ^ values[i]).wrapping_mul(0x100000001b3);
        i = i + 1;
    }
    assert(values@.take(i as int) =~= values@);
    h
}

} // verus!
