//! What selecting and rewriting lists of operations keeps and drops, and which tiles a fetch starts
//! from.
use vstd::prelude::*;

use crate::bitset::has_tile;
use crate::clock::switched;
use crate::clock_cache::{captures, no_flag};
use crate::compact::{
    in_set, is_op_bitset, needed_from, not_in_set, reads_tile, select_wvia, wvia_count,
    WeightedVia,
};
use crate::cop;
use crate::device_plan::CompactOp;
use crate::fabric::epoch_ticks;
use crate::fetch::{with_tree_selects, FetchWord};
use crate::layout::V2CpuIndices;
use crate::scope_tables::{const_at, const_swapped, first_writer};
use crate::seeds::is_fetch_seed;
use crate::simulation::{lists, Grid};
use crate::slots::select;
use crate::state::Authority;

verus! {

/// Every element whose flag is set is selected, behind those selected before it.
pub proof fn law_flagged_elements_are_selected<T>(v: Seq<T>, keep: Seq<bool>, i: int)
    requires
        0 <= i < v.len(),
        keep[i],
    ensures
        select(v.take(i), keep).len() < select(v, keep).len(),
        select(v, keep)[select(v.take(i), keep).len() as int] == v[i],
    decreases v.len(),
{
    let init = v.drop_last();
    if i == v.len() - 1 {
        assert(v.take(i) =~= init);
    } else {
        assert(init.take(i) =~= v.take(i));
        law_flagged_elements_are_selected(init, keep, i);
    }
}

/// Every element that is selected is one whose flag is set.
pub proof fn law_selected_elements_are_flagged<T>(v: Seq<T>, keep: Seq<bool>, p: int) -> (i: int)
    requires
        0 <= p < select(v, keep).len(),
    ensures
        0 <= i < v.len(),
        keep[i],
        select(v, keep)[p] == v[i],
        select(v.take(i), keep).len() == p,
    decreases v.len(),
{
    let init = v.drop_last();
    let earlier = select(init, keep);
    if p < earlier.len() {
        let i = law_selected_elements_are_flagged(init, keep, p);
        assert(init.take(i) =~= v.take(i));
        i
    } else {
        assert(v.take(v.len() - 1) =~= init);
        v.len() - 1
    }
}

/// The operations of a set are those that write one of its tiles, those outside it the others.
pub proof fn law_partitions_go_by_the_tile_written(ops: Seq<CompactOp>, set: Set<u32>, i: int)
    requires
        0 <= i < ops.len(),
    ensures
        in_set(ops, set)[i] <==> set.contains(ops[i].idx),
        not_in_set(ops, set)[i] <==> !set.contains(ops[i].idx),
        in_set(ops, set).len() == ops.len(),
        not_in_set(ops, set).len() == ops.len(),
{
}

/// An operation reads the tiles of its three operands; the number that stands for no tile is none.
pub proof fn law_operands_read(op: CompactOp, t: u32)
    ensures
        t != 0xFFFF_FFFF ==> (reads_tile(op, t) <==> op.in0 == t || op.in1 == t || op.in2 == t),
        !reads_tile(op, 0xFFFF_FFFF),
{
}

/// A weighted via that is selected keeps its own entry: the one with as many entries before it as
/// there are weighted vias before the operation.
pub proof fn law_weighted_vias_keep_their_entries(
    ops: Seq<CompactOp>,
    wvia: Seq<WeightedVia>,
    keep: Seq<bool>,
    i: int,
    n: nat,
)
    requires
        0 <= i < n <= ops.len(),
        keep[i],
        ops[i].op == cop::COP_WVIA,
    ensures
        select_wvia(ops, wvia, keep, i as nat).len() < select_wvia(ops, wvia, keep, n).len(),
        select_wvia(ops, wvia, keep, n)[select_wvia(ops, wvia, keep, i as nat).len() as int]
            == wvia[wvia_count(ops, i as nat) as int],
        wvia_count(ops, (i + 1) as nat) == wvia_count(ops, i as nat) + 1,
    decreases n,
{
    if i < n - 1 {
        law_weighted_vias_keep_their_entries(ops, wvia, keep, i, (n - 1) as nat);
    }
}

/// Nothing is in a cone without need: a tile is a seed, or an operation reads it whose own tile is
/// needed.
pub proof fn law_cones_have_no_strays(ops: Seq<CompactOp>, seeds: Set<u32>, n: nat, t: u32)
    requires
        needed_from(ops, seeds, n).contains(t),
    ensures
        seeds.contains(t) || exists|j: int|
            n <= j < ops.len() && needed_from(ops, seeds, (j + 1) as nat).contains(
                (#[trigger] ops[j]).idx,
            ) && reads_tile(ops[j], t),
    decreases ops.len() - n,
{
    if n < ops.len() {
        let later = needed_from(ops, seeds, n + 1);
        if later.contains(t) {
            law_cones_have_no_strays(ops, seeds, n + 1, t);
        } else {
            assert(later.contains(ops[n as int].idx) && reads_tile(ops[n as int], t));
        }
    }
}

/// Every seed is in its cone.
pub proof fn law_seeds_are_in_the_cone(ops: Seq<CompactOp>, seeds: Set<u32>, n: nat, t: u32)
    requires
        seeds.contains(t),
    ensures
        needed_from(ops, seeds, n).contains(t),
    decreases ops.len() - n,
{
    if n < ops.len() {
        law_seeds_are_in_the_cone(ops, seeds, n + 1, t);
    }
}

/// The bitset of a list of operations has the bit of every tile that one of them writes, 64 tiles
/// to a word, and no other.
pub proof fn law_bitsets_tell_the_tiles_written(bits: Seq<u64>, ops: Seq<CompactOp>, i: int, t: int)
    requires
        is_op_bitset(bits, ops),
        0 <= i < ops.len(),
        0 <= t,
    ensures
        ({
            let k = ops[i].idx as int;
            k / 64 < bits.len() && (bits[k / 64] >> ((k % 64) as u64)) & 1 == 1
        }),
        t / 64 < bits.len() && (bits[t / 64] >> ((t % 64) as u64)) & 1 == 1 ==> exists|j: int|
            0 <= j < ops.len() && (#[trigger] ops[j]).idx == t,
{
    assert(ops[i].idx == ops[i].idx as int);
    assert(has_tile(bits, ops[i].idx as int));
    assert(has_tile(bits, t) <==> crate::compact::writes_tile(ops, t));
}

proof fn lemma_first_writer_found(ops: Seq<CompactOp>, t: u32, k: int, i: int)
    requires
        0 <= k <= i < ops.len(),
        ops[i].idx == t,
        forall|j: int| k <= j < i ==> (#[trigger] ops[j]).idx != t,
    ensures
        first_writer(ops, t, k) == i,
    decreases i - k,
{
    if k < i {
        assert(ops[k].idx != t);
        lemma_first_writer_found(ops, t, k + 1, i);
    }
}

proof fn lemma_first_writer_range(ops: Seq<CompactOp>, t: u32, k: int)
    requires
        0 <= k <= ops.len(),
    ensures
        k <= first_writer(ops, t, k) <= ops.len(),
        first_writer(ops, t, k) < ops.len() ==> ops[first_writer(ops, t, k)].idx == t,
    decreases ops.len() - k,
{
    if k < ops.len() && ops[k].idx != t {
        lemma_first_writer_range(ops, t, k + 1);
    }
}

/// Making a tile's writer a constant changes no other operation: the first operation that writes
/// the tile becomes a constant without operands on the same tile.
pub proof fn law_the_writer_becomes_a_constant(ops: Seq<CompactOp>, t: u32, i: int, j: int)
    requires
        0 <= i < ops.len(),
        ops[i].idx == t,
        forall|k: int| 0 <= k < i ==> (#[trigger] ops[k]).idx != t,
        0 <= j < ops.len(),
        j != i,
    ensures
        const_at(ops, t).len() == ops.len(),
        const_at(ops, t)[i].op == cop::COP_CONST,
        const_at(ops, t)[i].idx == t,
        const_at(ops, t)[i].in0 == 0xFFFF_FFFF,
        const_at(ops, t)[i].in1 == 0xFFFF_FFFF,
        const_at(ops, t)[i].in2 == 0xFFFF_FFFF,
        const_at(ops, t)[j] == ops[j],
{
    lemma_first_writer_found(ops, t, 0, i);
}

/// After the targets' writers are made constants an operation is as it was, or a constant on a
/// target tile.
pub proof fn law_only_targets_become_constants(
    ops: Seq<CompactOp>,
    targets: Seq<u32>,
    n: nat,
    i: int,
)
    requires
        n <= targets.len(),
        0 <= i < ops.len(),
    ensures
        const_swapped(ops, targets, n).len() == ops.len(),
        const_swapped(ops, targets, n)[i].idx == ops[i].idx,
        const_swapped(ops, targets, n)[i] == ops[i] || (const_swapped(ops, targets, n)[i].op
            == cop::COP_CONST && targets.take(n as int).contains(ops[i].idx)),
    decreases n,
{
    if n > 0 {
        let m = (n - 1) as nat;
        law_only_targets_become_constants(ops, targets, m, i);
        let before = const_swapped(ops, targets, m);
        let k = first_writer(before, targets[n - 1], 0);
        lemma_first_writer_range(before, targets[n - 1], 0);
        assert(targets.take(n as int)[n - 1] == targets[n - 1]);
        if targets.take(m as int).contains(ops[i].idx) {
            let a = choose|a: int| 0 <= a < m && targets.take(m as int)[a] == ops[i].idx;
            assert(targets.take(n as int)[a] == ops[i].idx);
        }
        if k < before.len() && k == i {
            assert(before[i].idx == targets[n - 1]);
        }
    }
}

/// An edge's live operations are those that switched at least once.
pub proof fn law_live_operations_switched(counts: Seq<u32>, i: int)
    requires
        0 <= i < counts.len(),
    ensures
        switched(counts).len() == counts.len(),
        switched(counts)[i] <==> counts[i] != 0,
{
}

/// The clock cache leaves out registers, memory words and flags, which software writes back, and
/// no other tile; the one for instructions that write no flag leaves out the flags.
pub proof fn law_elided_tiles(idx: V2CpuIndices, cache: Seq<usize>, i: int, r: int, a: int)
    requires
        0 <= i < cache.len(),
        0 <= r < 16,
        0 <= a < 128,
    ensures
        cache[i] == idx.reg_indices@[r] || cache[i] == idx.ram_indices@[a] || cache[i]
            == idx.flag_z_idx || cache[i] == idx.flag_c_idx ==> !captures(idx, cache)[i],
        (forall|k: int| 0 <= k < 16 ==> #[trigger] idx.reg_indices@[k] != cache[i]) && (forall|
            k: int,
        |
            0 <= k < 128 ==> #[trigger] idx.ram_indices@[k] != cache[i]) && cache[i]
            != idx.flag_z_idx && cache[i] != idx.flag_c_idx ==> captures(idx, cache)[i],
        no_flag(idx, cache)[i] <==> cache[i] != idx.flag_z_idx && cache[i] != idx.flag_c_idx,
{
    if cache[i] == idx.reg_indices@[r] {
        assert(lists(idx.reg_indices@, cache[i] as int));
    }
    if cache[i] == idx.ram_indices@[a] {
        assert(lists(idx.ram_indices@, cache[i] as int));
    }
}

proof fn lemma_puts_leave_marks(g: Grid, list: Seq<usize>, vals: Seq<u64>, n: nat)
    ensures
        g.put_each(list, vals, n).dirty == g.dirty,
    decreases n,
{
    if n > 0 {
        lemma_puts_leave_marks(g, list, vals, (n - 1) as nat);
    }
}

/// Every tile that selecting the operands marks is one that a fetch starts from.
pub proof fn law_marked_tiles_are_seeds(
    idx: V2CpuIndices,
    auth: Authority,
    w: FetchWord,
    g: Grid,
    t: int,
)
    requires
        0 <= t < g.dirty.len(),
        !g.dirty[t],
        with_tree_selects(idx, auth, w, g).dirty[t],
    ensures
        is_fetch_seed(idx, t),
{
    let a = crate::fetch::selectors_a(w);
    let b = crate::fetch::selectors_b(w);
    lemma_puts_leave_marks(g, idx.high_tree_a_sel_const_indices@, a, 7);
    lemma_puts_leave_marks(
        g.put_each(idx.high_tree_a_sel_const_indices@, a, 7),
        idx.high_tree_b_sel_const_indices@,
        b,
        7,
    );
}

/// An epoch has its size, or what is left where that is less.
pub proof fn law_epochs_are_cut_at_the_end(left: nat, size: nat)
    ensures
        epoch_ticks(left, size) <= left,
        epoch_ticks(left, size) <= size,
        epoch_ticks(left, size) == left || epoch_ticks(left, size) == size,
{
}

} // verus!
