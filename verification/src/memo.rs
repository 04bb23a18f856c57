//! Memoized settles: tile values are restored from a snapshot that was taken for the same
//! inputs.
use vstd::prelude::*;

use crate::cache::{hash_u64_slice, words_hash, BackboneCache};
use crate::simulation::{restored, Grid, Simulation};

verus! {

/// A memo over part of the tiles: what it is keyed by, what it restores, and how often it hit.
pub struct SettleMemo {
    pub enabled: bool,
    pub input_indices: Vec<u32>,
    pub output_indices: Vec<u32>,
    pub cache: BackboneCache,
    pub hits: u64,
    pub misses: u64,
}

/// Every listed tile is a tile of a grid of `n` tiles.
pub open spec fn tiles_below(list: Seq<u32>, n: nat) -> bool {
    forall|i: int| 0 <= i < list.len() ==> #[trigger] list[i] < n
}

/// The values of the listed tiles.
pub open spec fn tile_values(list: Seq<u32>, g: Grid) -> Seq<u64> {
    Seq::new(list.len(), |i: int| g.values[list[i] as int])
}

/// Two word lists hold the same words.
pub fn same_words(a: &Vec<u64>, b: &Vec<u64>) -> (r: bool)
    ensures
        r == (a@ == b@),
{
    if a.len() != b.len() {
        return false;
    }
    let mut i: usize = 0;
    while i < a.len()
        invariant
            i <= a@.len(),
            a@.len() == b@.len(),
            forall|k: int| 0 <= k < i ==> a@[k] == b@[k],
        decreases a@.len() - i,
    {
        if a[i] != b[i] {
            assert(a@[i as int] != b@[i as int]);
            return false;
        }
        i = i + 1;
    }
    assert(a@ =~= b@);
    true
}

/// What a lookup found: the inputs, their hash, and the snapshot of exactly these inputs.
pub struct MemoLookup {
    pub inputs: Vec<u64>,
    pub key: u64,
    pub snapshot: Option<Vec<u64>>,
}

impl SettleMemo {
    /// The cache is well formed, and every snapshot restores the listed outputs.
    pub open spec fn wf(self) -> bool {
        &&& self.cache.wf()
        &&& forall|k: u64| #[trigger]
            self.cache.map@.contains_key(k) ==> self.cache.map@[k].outputs@.len()
                == self.output_indices@.len()
    }

    /// The memo's tiles are tiles of a grid of `n` tiles.
    pub open spec fn fits(self, n: nat) -> bool {
        tiles_below(self.input_indices@, n) && tiles_below(self.output_indices@, n)
    }

    /// The kept snapshot for these inputs. A snapshot kept under the same hash for other inputs
    /// does not count.
    pub open spec fn snapshot_for(self, inputs: Seq<u64>) -> Option<Seq<u64>> {
        let key = words_hash(inputs);
        if self.cache.map@.contains_key(key) && self.cache.map@[key].inputs@ == inputs {
            Some(self.cache.map@[key].outputs@)
        } else {
            None
        }
    }

    /// An empty memo out of use, with room for `capacity` snapshots.
    pub open spec fn is_new(self, capacity: usize) -> bool {
        &&& self.wf()
        &&& !self.enabled
        &&& self.input_indices@.len() == 0
        &&& self.output_indices@.len() == 0
        &&& self.cache.capacity == capacity
        &&& self.cache.order@.len() == 0
        &&& self.hits == 0
        &&& self.misses == 0
    }

    /// An empty memo with room for `capacity` snapshots.
    pub fn new(capacity: usize) -> (m: Self)
        ensures
            m.is_new(capacity),
    {
        SettleMemo {
            enabled: false,
            input_indices: Vec::new(),
            output_indices: Vec::new(),
            cache: BackboneCache::new(capacity),
            hits: 0,
            misses: 0,
        }
    }

    /// Look the present inputs up.
    pub fn lookup(&self, sim: &Simulation) -> (r: MemoLookup)
        requires
            self.wf(),
            self.fits(sim.len()),
        ensures
            r.inputs@ == tile_values(self.input_indices@, sim@),
            r.key == words_hash(r.inputs@),
            match (self.snapshot_for(r.inputs@), r.snapshot) {
                (Some(a), Some(b)) => a == b@,
                (None, None) => true,
                _ => false,
            },
            r.snapshot matches Some(v) ==> v@.len() == self.output_indices@.len(),
    {
        let inputs: Vec<u64> = sim.read_tiles(&self.input_indices);
        assert(inputs@ =~= tile_values(self.input_indices@, sim@));
        let key: u64 = hash_u64_slice(&inputs);
        let snapshot: Option<Vec<u64>> = match self.cache.get(key) {
            Some(e) => {
                if same_words(&e.inputs, &inputs) {
                    let mut copy: Vec<u64> = Vec::new();
                    copy.extend_from_slice(e.outputs.as_slice());
                    assert(copy@ =~= e.outputs@);
                    Some(copy)
                } else {
                    None
                }
            },
            None => None,
        };
        MemoLookup { inputs, key, snapshot }
    }

    /// Restore a snapshot.
    pub fn restore(&self, sim: &mut Simulation, snapshot: &Vec<u64>)
        requires
            old(sim).wf(),
            self.fits(old(sim).len()),
            snapshot@.len() == self.output_indices@.len(),
        ensures
            final(sim)@ == (Grid {
                values: restored(
                    old(sim)@.values,
                    self.output_indices@,
                    snapshot@,
                    self.output_indices@.len(),
                ),
                ..old(sim)@
            }),
            final(sim).wf(),
            final(sim).len() == old(sim).len(),
    {
        sim.restore_tiles(&self.output_indices, snapshot);
    }

    /// Keep the present outputs as the snapshot of the given inputs, if the memo has any
    /// capacity.
    pub fn keep(&mut self, sim: &Simulation, key: u64, inputs: Vec<u64>)
        requires
            old(self).wf(),
            old(self).fits(sim.len()),
            key == words_hash(inputs@),
        ensures
            final(self).wf(),
            final(self).cache.keeps(
                old(self).cache,
                key,
                inputs@,
                tile_values(old(self).output_indices@, sim@),
            ),
            final(self).snapshot_for(inputs@) == if old(self).cache.capacity > 0 {
                Some(tile_values(old(self).output_indices@, sim@))
            } else {
                None
            },
            final(self).enabled == old(self).enabled,
            final(self).input_indices == old(self).input_indices,
            final(self).output_indices == old(self).output_indices,
            final(self).hits == old(self).hits,
            final(self).misses == old(self).misses,
    {
        let outputs: Vec<u64> = sim.read_tiles(&self.output_indices);
        assert(outputs@ =~= tile_values(self.output_indices@, sim@));
        self.cache.insert(key, inputs, outputs);
    }

    /// Forget every snapshot and start counting from zero.
    pub fn reset(&mut self)
        ensures
            final(self).wf(),
            final(self).cache.order@.len() == 0,
            final(self).cache.capacity == old(self).cache.capacity,
            final(self).hits == 0,
            final(self).misses == 0,
            final(self).enabled == old(self).enabled,
            final(self).input_indices == old(self).input_indices,
            final(self).output_indices == old(self).output_indices,
    {
        self.cache.clear();
        self.hits = 0;
        self.misses = 0;
    }

    /// Hits, misses and kept snapshots.
    pub fn stats(&self) -> (r: (u64, u64, usize))
        requires
            self.wf(),
        ensures
            r.0 == self.hits,
            r.1 == self.misses,
            r.2 == self.cache.order@.len(),
    {
        (self.hits, self.misses, self.cache.len())
    }
}

/// Every kept snapshot is what `settle` gives for its inputs.
pub open spec fn memo_is_sound(m: SettleMemo, settle: spec_fn(Seq<u64>) -> Seq<u64>) -> bool {
    forall|k: u64| #[trigger]
        m.cache.map@.contains_key(k) ==> m.cache.map@[k].outputs@ == settle(
            m.cache.map@[k].inputs@,
        )
}

/// A hit restores what the settle would have computed, when every kept snapshot is the
/// settle's output for its inputs.
pub proof fn law_hits_are_exact(
    m: SettleMemo,
    settle: spec_fn(Seq<u64>) -> Seq<u64>,
    inputs: Seq<u64>,
)
    requires
        memo_is_sound(m, settle),
    ensures
        m.snapshot_for(inputs) matches Some(s) ==> s == settle(inputs),
{
}

/// Keeping what the settle computed keeps every snapshot exact, also when the cache evicts or
/// two inputs share a hash.
pub proof fn law_keeping_stays_exact(
    before: SettleMemo,
    after: SettleMemo,
    settle: spec_fn(Seq<u64>) -> Seq<u64>,
    key: u64,
    inputs: Seq<u64>,
)
    requires
        memo_is_sound(before, settle),
        after.cache.keeps(before.cache, key, inputs, settle(inputs)),
    ensures
        memo_is_sound(after, settle),
{
}

/// Whether the decode memo is worth its lookups.
#[derive(Clone, Copy, Debug, PartialEq, Eq, Structural)]
pub struct AdaptiveDecode {
    pub enabled: bool,
    pub warmup_calls: u32,
    /// 0 while warming up, 1 when engaged, 2 when switched off.
    pub mode: u8,
    pub skipped: u64,
}

impl AdaptiveDecode {
    /// Adaptive gating off, with a warm-up of 16 lookups.
    pub fn new() -> (a: Self)
        ensures
            a == (AdaptiveDecode { enabled: false, warmup_calls: 16, mode: 0, skipped: 0 }),
    {
        AdaptiveDecode { enabled: false, warmup_calls: 16, mode: 0, skipped: 0 }
    }

    /// Set the gating. A warm-up lasts at least one lookup.
    pub fn configure(&mut self, enable: bool, warmup_calls: u32)
        ensures
            *final(self) == (AdaptiveDecode {
                enabled: enable,
                warmup_calls: if warmup_calls == 0 {
                    1
                } else {
                    warmup_calls
                },
                ..*old(self)
            }),
    {
        self.enabled = enable;
        self.warmup_calls =
        if warmup_calls == 0 {
            1
        } else {
            warmup_calls
        };
    }

    /// Warm up again.
    pub fn reset(&mut self)
        ensures
            *final(self) == (AdaptiveDecode { mode: 0, skipped: 0, ..*old(self) }),
    {
        self.mode = 0;
        self.skipped = 0;
    }

    /// The memo is used.
    pub open spec fn uses(self, lookups: int, pays: bool) -> bool {
        !self.enabled || self.mode == 1 || (self.mode != 2 && (lookups < self.warmup_calls
            || pays))
    }

    /// The gating after one decision.
    pub open spec fn after(self, lookups: int, pays: bool) -> AdaptiveDecode {
        let decides = self.enabled && self.mode != 1 && self.mode != 2 && lookups
            >= self.warmup_calls;
        AdaptiveDecode {
            mode: if decides {
                if pays {
                    1
                } else {
                    2
                }
            } else {
                self.mode
            },
            skipped: if self.uses(lookups, pays) {
                self.skipped
            } else {
                (self.skipped + 1) as u64
            },
            ..self
        }
    }

    /// Decide whether the next settle uses the decode memo. `lookups` is how many there were,
    /// and `pays` whether their hit rate reaches the threshold; it only matters once the
    /// warm-up is over.
    pub fn should_use_cache(&mut self, lookups: u64, pays: bool) -> (r: bool)
        requires
            old(self).skipped < u64::MAX,
        ensures
            r == old(self).uses(lookups as int, pays),
            *final(self) == old(self).after(lookups as int, pays),
    {
        if !self.enabled || self.mode == 1 {
            return true;
        }
        if self.mode == 2 {
            self.skipped = self.skipped + 1;
            return false;
        }
        if lookups < self.warmup_calls as u64 {
            return true;
        }
        if pays {
            self.mode = 1;
            true
        } else {
            self.mode = 2;
            self.skipped = self.skipped + 1;
            false
        }
    }
}

/// Once the gating has decided it stays with its decision until it is reset.
pub proof fn law_gating_is_permanent(
    a: AdaptiveDecode,
    lookups: int,
    pays: bool,
    later: int,
    later_pays: bool,
)
    requires
        a.enabled,
        a.mode == 0,
        lookups >= a.warmup_calls,
    ensures
        a.after(lookups, pays).uses(later, later_pays) == a.uses(lookups, pays),
        a.after(lookups, pays).after(later, later_pays).mode == a.after(lookups, pays).mode,
{
}

} // verus!
