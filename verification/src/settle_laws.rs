//! Memos and settles: what a full cache forgets, what a restored snapshot puts where, when the
//! decode memo is asked, and which way of settling comes first.
use vstd::prelude::*;

use crate::cache::{words_hash, BackboneCache};
use crate::memo::{AdaptiveDecode, SettleMemo};
use crate::scopes::EvalScopes;
use crate::settle::{
    branch_path, cone_path, constswap_path, counted_settle, path_drains, path_scan, settle_path,
    with_snapshot, SettleFlags, SettlePath,
};
use crate::simulation::{drained, restored, Grid};
use crate::state::PropCounters;

verus! {

/// A full cache forgets the snapshot that came first, and no other, when one with a new key comes;
/// a cache with room, or one that has the key, forgets none. What stays is as it was, in the order
/// in which it came; the new key comes last. Of a key that was there the snapshot is replaced.
pub proof fn law_the_oldest_snapshot_leaves_first(
    before: BackboneCache,
    after: BackboneCache,
    key: u64,
    inputs: Seq<u64>,
    outputs: Seq<u64>,
    i: int,
)
    requires
        before.wf(),
        after.wf(),
        after.keeps(before, key, inputs, outputs),
        before.capacity > 0,
        0 <= i < before.order@.len(),
        before.order@[i] != key,
    ensures
        after.map@.contains_key(key),
        after.map@[key].inputs@ == inputs,
        after.map@[key].outputs@ == outputs,
        before.map@.contains_key(key) || before.order@.len() < before.capacity || i > 0
            ==> after.map@.contains_key(before.order@[i]) && after.map@[before.order@[i]]
            == before.map@[before.order@[i]],
        !before.map@.contains_key(key) && before.order@.len() == before.capacity && i == 0
            ==> !after.map@.contains_key(before.order@[i]),
        !before.map@.contains_key(key) ==> after.order@.last() == key,
        !before.map@.contains_key(key) && before.order@.len() == before.capacity && i > 0
            ==> after.order@[i - 1] == before.order@[i],
        before.map@.contains_key(key) || before.order@.len() < before.capacity ==> after.order@[i]
            == before.order@[i],
        after.order@.len() <= after.capacity,
{
    let k = before.order@[i];
    assert(before.order@.contains(k));
    assert(crate::cache::key_set(before.order@).contains(k));
    assert(before.map@.dom().contains(k));
    if before.map@.contains_key(key) || before.order@.len() < before.capacity {
        assert(after.order@[i] == k);
        assert(after.order@.contains(k));
        assert(crate::cache::key_set(after.order@).contains(k));
        assert(after.map@.dom().contains(k));
        assert(after.map@[k] == before.map@[k]);
    } else if i > 0 {
        assert(after.order@[i - 1] == k);
        assert(after.order@.contains(k));
        assert(crate::cache::key_set(after.order@).contains(k));
        assert(after.map@.dom().contains(k));
        assert(after.map@[k] == before.map@[k]);
    } else {
        if after.map@.contains_key(k) {
            assert(after.map@.dom().contains(k));
            assert(crate::cache::key_set(after.order@).contains(k));
            let j = choose|j: int| 0 <= j < after.order@.len() && after.order@[j] == k;
            if j < after.order@.len() - 1 {
                assert(before.order@[j + 1] == k);
            }
        }
    }
}

/// The hash of a list is made word by word: each is laid over the hash so far bit by bit, and the
/// whole multiplied by a prime, modulo two to the sixty-fourth.
pub proof fn law_hashes_take_in_word_by_word(values: Seq<u64>, x: u64)
    ensures
        words_hash(Seq::empty()) == 0xCBF2_9CE4_8422_2325,
        words_hash(values.push(x)) == ((words_hash(values) ^ x) * 1099511628211)
            % 0x1_0000_0000_0000_0000,
{
    assert(values.push(x).drop_last() =~= values);
}

/// A snapshot counts for exactly the inputs that it was kept for: what is kept under their hash for
/// other inputs does not.
pub proof fn law_snapshots_are_for_their_inputs(m: SettleMemo, inputs: Seq<u64>)
    ensures
        m.snapshot_for(inputs) matches Some(v) ==> m.cache.map@.contains_key(words_hash(inputs))
            && m.cache.map@[words_hash(inputs)].inputs@ == inputs && v
            == m.cache.map@[words_hash(inputs)].outputs@,
        m.cache.map@.contains_key(words_hash(inputs)) && m.cache.map@[words_hash(
            inputs,
        )].inputs@ == inputs ==> m.snapshot_for(inputs) is Some,
{
}

/// After a snapshot is restored every listed tile holds its value, where no tile is listed twice,
/// and every other tile holds what it held. Marks and kinds stay.
pub proof fn law_restored_tiles_hold_the_snapshot(
    values: Seq<u64>,
    list: Seq<u32>,
    snapshot: Seq<u64>,
    n: nat,
    i: int,
    t: int,
)
    requires
        n <= list.len(),
        n <= snapshot.len(),
        forall|a: int| 0 <= a < list.len() ==> #[trigger] list[a] < values.len(),
        forall|a: int, b: int|
            0 <= a < b < list.len() ==> #[trigger] list[a] != #[trigger] list[b],
        0 <= i < n,
        0 <= t < values.len(),
        forall|a: int| 0 <= a < n ==> #[trigger] list[a] != t,
    ensures
        restored(values, list, snapshot, n).len() == values.len(),
        restored(values, list, snapshot, n)[list[i] as int] == snapshot[i],
        restored(values, list, snapshot, n)[t] == values[t],
    decreases n,
{
    let m = (n - 1) as nat;
    lemma_restored_len(values, list, snapshot, m);
    assert(list[n - 1] < values.len());
    if i < n - 1 {
        law_restored_tiles_hold_the_snapshot(values, list, snapshot, m, i, t);
        assert(list[i] != list[n - 1]);
    }
    lemma_restored_other(values, list, snapshot, m, t);
}

proof fn lemma_restored_len(values: Seq<u64>, list: Seq<u32>, snapshot: Seq<u64>, n: nat)
    requires
        n <= list.len(),
        forall|a: int| 0 <= a < list.len() ==> #[trigger] list[a] < values.len(),
    ensures
        restored(values, list, snapshot, n).len() == values.len(),
    decreases n,
{
    if n > 0 {
        lemma_restored_len(values, list, snapshot, (n - 1) as nat);
        assert(list[n - 1] < values.len());
    }
}

proof fn lemma_restored_other(
    values: Seq<u64>,
    list: Seq<u32>,
    snapshot: Seq<u64>,
    n: nat,
    t: int,
)
    requires
        n <= list.len(),
        0 <= t < values.len(),
        forall|a: int| 0 <= a < list.len() ==> #[trigger] list[a] < values.len(),
        forall|a: int| 0 <= a < n ==> #[trigger] list[a] != t,
    ensures
        restored(values, list, snapshot, n)[t] == values[t],
    decreases n,
{
    if n > 0 {
        lemma_restored_len(values, list, snapshot, (n - 1) as nat);
        lemma_restored_other(values, list, snapshot, (n - 1) as nat, t);
        assert(list[n - 1] != t);
        assert(list[n - 1] < values.len());
    }
}

/// Restoring a memo's snapshot changes values only.
pub proof fn law_restoring_changes_values_only(m: SettleMemo, snapshot: Seq<u64>, g: Grid)
    ensures
        with_snapshot(m, snapshot, g).dirty == g.dirty,
        with_snapshot(m, snapshot, g).kinds == g.kinds,
        with_snapshot(m, snapshot, g).width == g.width,
        with_snapshot(m, snapshot, g).height == g.height,
{
}

/// Draining clears the marks of the tiles whose bit is set in the mask, 64 tiles to a word, and no
/// others.
pub proof fn law_drained_marks(dirty: Seq<bool>, mask: Seq<u64>, i: int)
    requires
        0 <= i < dirty.len(),
    ensures
        drained(dirty, mask).len() == dirty.len(),
        i / 64 < mask.len() && (mask[i / 64] >> ((i % 64) as u64)) & 1 == 1 ==> !drained(
            dirty,
            mask,
        )[i],
        i / 64 >= mask.len() || (mask[i / 64] >> ((i % 64) as u64)) & 1 != 1 ==> drained(
            dirty,
            mask,
        )[i] == dirty[i],
{
}

/// The decode memo is asked as long as it is not gated; when it is, during the warm-up and after
/// one that paid. A warm-up ends with the lookup that reaches its length: the memo is engaged where
/// its hit rate pays, else switched off. A settle that does not ask the memo counts as skipped.
pub proof fn law_when_the_decode_memo_is_asked(a: AdaptiveDecode, lookups: int, pays: bool)
    requires
        a.skipped < u64::MAX,
        a.mode <= 2,
    ensures
        !a.enabled ==> a.uses(lookups, pays) && a.after(lookups, pays) == a,
        a.enabled && a.mode == 0 && lookups < a.warmup_calls ==> a.uses(lookups, pays) && a.after(
            lookups,
            pays,
        ).mode == 0,
        a.enabled && a.mode == 0 && lookups >= a.warmup_calls && pays ==> a.uses(lookups, pays)
            && a.after(lookups, pays).mode == 1,
        a.enabled && a.mode == 0 && lookups >= a.warmup_calls && !pays ==> !a.uses(lookups, pays)
            && a.after(lookups, pays).mode == 2,
        a.enabled && a.mode == 1 ==> a.uses(lookups, pays) && a.after(lookups, pays).mode == 1,
        a.enabled && a.mode == 2 ==> !a.uses(lookups, pays) && a.after(lookups, pays).mode == 2,
        a.uses(lookups, pays) ==> a.after(lookups, pays).skipped == a.skipped,
        !a.uses(lookups, pays) ==> a.after(lookups, pays).skipped == a.skipped + 1,
        a.after(lookups, pays).enabled == a.enabled,
        a.after(lookups, pays).warmup_calls == a.warmup_calls,
{
}

/// Which way of settling comes first: the decode memo where it is used, then the settle memo, then
/// the single pass over the backbone, the two phases, the unconditional pass, the prefiltered scan,
/// the scan that skips clean blocks, the scan of what is marked, and tile by tile at last.
pub proof fn law_which_settle_comes_first(
    decode: SettleMemo,
    uses_decode: bool,
    memo: SettleMemo,
    flags: SettleFlags,
    s: EvalScopes,
    g: Grid,
    p: SettlePath,
)
    requires
        p == settle_path(decode, uses_decode, memo, flags, s, false, false, g),
    ensures
        uses_decode ==> p is DecodeHit || p is DecodeMiss,
        !uses_decode && memo.enabled && memo.input_indices@.len() > 0 && memo.output_indices@.len()
            > 0 ==> p is MemoHit || p is MemoMiss,
        !uses_decode && !memo.enabled ==> {
            let ops = s.settle.ops@.len() > 0;
            &&& flags.hybrid && ops && s.backbone_set@.len() > 0 ==> p is Hybrid
            &&& !flags.hybrid && flags.two_phase && s.backbone.ops@.len() > 0 && s.fringe.ops@.len()
                > 0 && s.backbone_set@.len() > 0 ==> p is TwoPhase
            &&& !flags.hybrid && !flags.two_phase && flags.no_dirty && ops && s.settle_set@.len() > 0
                ==> p is NoDirty
            &&& !flags.hybrid && !flags.two_phase && !flags.no_dirty && flags.prefiltered
                && s.settle_slots.idx_to_slot@.len() > 0 ==> p is Prefiltered
            &&& !flags.hybrid && !flags.two_phase && !flags.no_dirty && !flags.prefiltered
                && s.settle_blocks.seg_offsets@.len() > 0 ==> p is BlockSkip
            &&& !flags.hybrid && !flags.two_phase && !flags.no_dirty && !flags.prefiltered
                && s.settle_blocks.seg_offsets@.len() == 0 && ops ==> p is Compact
            &&& !ops && s.settle_blocks.seg_offsets@.len() == 0 && s.backbone.ops@.len() == 0
                && s.settle_slots.idx_to_slot@.len() == 0 && s.pipeline.ops@.len() > 0 ==> p
                is Pipeline
            &&& !ops && s.settle_blocks.seg_offsets@.len() == 0 && s.backbone.ops@.len() == 0
                && s.settle_slots.idx_to_slot@.len() == 0 && s.pipeline.ops@.len() == 0 ==> p
                is Levelized
        },
{
}

/// A settle with constant selectors, a settle of the branch tiles and one of the fetch cone use
/// their own operations where those are there and match the tiles.
pub proof fn law_which_part_settles_how(s: EvalScopes, prefiltered: bool, inhibited: bool)
    ensures
        constswap_path(prefiltered, s, true) is Levelized,
        prefiltered && s.constswap_slots.idx_to_slot@.len() > 0 ==> constswap_path(
            prefiltered,
            s,
            false,
        ) is Prefiltered,
        !prefiltered && s.constswap_blocks.seg_offsets@.len() > 0 ==> constswap_path(
            prefiltered,
            s,
            false,
        ) is BlockSkip,
        !prefiltered && s.constswap_blocks.seg_offsets@.len() == 0 && s.constswap.ops@.len() > 0
            ==> constswap_path(prefiltered, s, false) is Compact,
        branch_path(s, true) is Levelized,
        s.branch.ops@.len() > 0 ==> branch_path(s, false) is Compact,
        s.branch.ops@.len() == 0 ==> branch_path(s, false) is Levelized,
        cone_path(s, inhibited, true) is Levelized,
        cone_path(s, true, false) is Levelized,
        s.cone.ops@.len() > 0 && s.cone_set@.len() > 0 ==> cone_path(s, false, false) is Cone,
        s.cone.ops@.len() == 0 && s.pipeline.ops@.len() > 0 ==> cone_path(s, false, false)
            is Pipeline,
{
}

/// A settle counts one call, the tiles that it evaluated and the operations that it went through;
/// one that skips clean blocks counts in the totals only what it evaluated. One that a memo served
/// went through no operation, and one that restored the decode part through the execute part's.
pub proof fn law_settles_are_counted(
    c: PropCounters,
    p: SettlePath,
    s: EvalScopes,
    order: nat,
    e: int,
    scan: int,
)
    requires
        scan == path_scan(p, s, order),
        c.room(1),
        c.room(e),
        c.room(scan),
        e >= 0,
    ensures
        ({
            let d = counted_settle(c, p, e, scan);
            &&& d.propagate_calls_total == c.propagate_calls_total + 1
            &&& d.propagate_tiles_total == c.propagate_tiles_total + e
            &&& d.prop_settle_calls == c.prop_settle_calls + 1
            &&& d.prop_settle_evals == c.prop_settle_evals + e
            &&& d.prop_settle_scan == c.prop_settle_scan + scan
            &&& d.compact_active_total == c.compact_active_total + e
            &&& p is BlockSkip ==> d.compact_scan_total == c.compact_scan_total + e
            &&& !(p is BlockSkip) ==> d.compact_scan_total == c.compact_scan_total + scan
            &&& d.prop_cone_calls == c.prop_cone_calls
            &&& d.prop_branch_calls == c.prop_branch_calls
            &&& d.prop_commit_calls == c.prop_commit_calls
            &&& d.prop_constswap_calls == c.prop_constswap_calls
        }),
        p is MemoHit ==> scan == 0,
        p is DecodeHit ==> scan == s.execute.ops@.len(),
        p is TwoPhase ==> scan == s.backbone.ops@.len() + s.settle.ops@.len(),
        p is Levelized ==> scan == order,
        p is Pipeline ==> scan == s.pipeline.ops@.len(),
        p is Compact || p is BlockSkip || p is NoDirty || p is Hybrid || p is Prefiltered || p
            is DecodeMiss || p is MemoMiss ==> scan == s.settle.ops@.len(),
        path_drains(p) <==> p is DecodeHit || p is DecodeMiss || p is MemoHit || p is MemoMiss || p
            is Hybrid || p is TwoPhase || p is NoDirty,
{
}

} // verus!
