//! The evaluation scopes: which operations each settle runs, and the tables that speed it up.
use vstd::prelude::*;

use std::collections::HashSet;

use crate::compact::{
    build_pipeline_cone, in_set, is_op_bitset, needed_from, not_in_set, op_bitset,
    ops_in_closure, partition_ops, select_wvia, tile_set, wvia_count, OpList, WeightedVia,
    NO_TILE,
};
use crate::decode_partition::{
    classify_tiles, const_on, decode_after, decode_input_tiles, decode_output_tiles,
    evaluated_tiles, increasing, is_decode_input, list_touches, neighbors_known, tainted_after,
};
use crate::device_plan::CompactOp;
use crate::layout::V2CpuIndices;
use crate::memo::SettleMemo;
use crate::scope_tables::{
    block_count, block_end, build_block_maps, const_swapped, constswap_ops, entries_upto, last_writer,
    slot_tables,
};
use crate::seeds::{all_settle_dirty_seeds, collect_stage_f_output_seeds, execute_externals,
    is_fetch_seed, is_reg_data, nonzero_tiles};
use crate::simulation::lists;
use crate::slots::select;

verus! {

broadcast use vstd::std_specs::hash::group_hash_axioms;

/// For each block of 64 operations, the segments of 64 tiles it writes to.
pub struct BlockMap {
    pub seg_offsets: Vec<u32>,
    pub seg_entries: Vec<(u32, u64)>,
    pub wvia_counts: Vec<u8>,
}

/// The operation that writes each tile, and the weighted-via entry of each operation.
pub struct SlotTable {
    pub idx_to_slot: Vec<u32>,
    pub wvia_slot_map: Vec<u32>,
}

/// The operations of every scope.
pub struct EvalScopes {
    pub pipeline: OpList,
    pub branch: OpList,
    pub commit: OpList,
    pub clock: OpList,
    pub commit_schedule: Option<OpList>,
    pub clock_schedule: Option<OpList>,
    /// What the fetch reads before its injections.
    pub cone: OpList,
    pub cone_set: Vec<u64>,
    /// What the fetch injections reach.
    pub settle: OpList,
    pub settle_set: Vec<u64>,
    pub settle_slots: SlotTable,
    pub settle_blocks: BlockMap,
    /// The same with the operand selectors' outputs constant.
    pub constswap: OpList,
    pub constswap_slots: SlotTable,
    pub constswap_blocks: BlockMap,
    /// What an operand injection reaches.
    pub trunk: OpList,
    /// The part of the settle that does not depend on which lower registers changed.
    pub backbone: OpList,
    pub backbone_set: Vec<u64>,
    pub fringe: OpList,
    pub constswap_fringe: OpList,
    /// The part of the settle that carries register state.
    pub execute: OpList,
    pub execute_set: Vec<u64>,
}

/// What the grid gives for a rebuild: the operations of each order, which tiles are reached from
/// the seeds of the settle, the operand trunks and the backbone.
pub struct ScopeSources {
    pub pipeline: OpList,
    pub branch: OpList,
    pub commit: OpList,
    pub clock: OpList,
    pub commit_schedule: OpList,
    pub clock_schedule: OpList,
    pub settle_closure: HashSet<u32>,
    pub trunk_closure: HashSet<u32>,
    pub backbone_closure: HashSet<u32>,
}

impl ScopeSources {
    /// Every operation writes a tile whose neighbours are known, and has its weighted-via entry.
    pub open spec fn wf(self, nb: Seq<[u32; 4]>) -> bool {
        &&& self.pipeline.wf()
        &&& self.branch.wf()
        &&& self.commit.wf()
        &&& self.clock.wf()
        &&& self.commit_schedule.wf()
        &&& self.clock_schedule.wf()
        &&& neighbors_known(self.pipeline.ops@, nb)
        &&& neighbors_known(self.branch.ops@, nb)
        &&& neighbors_known(self.commit.ops@, nb)
        &&& neighbors_known(self.clock.ops@, nb)
        &&& self.pipeline.ops@.len() < u32::MAX
    }
}

/// The operations of a list that are kept, with their entries.
pub open spec fn is_selection(r: OpList, from: OpList, keep: Seq<bool>) -> bool {
    &&& r.ops@ == select(from.ops@, keep)
    &&& r.wvia@ == select_wvia(from.ops@, from.wvia@, keep, from.ops@.len())
}

/// The operations that write a tile of a set.
pub open spec fn is_part(r: OpList, from: OpList, set: Set<u32>) -> bool {
    is_selection(r, from, in_set(from.ops@, set))
}

/// The operations that write no tile of a set.
pub open spec fn is_rest(r: OpList, from: OpList, set: Set<u32>) -> bool {
    is_selection(r, from, not_in_set(from.ops@, set))
}

/// The table names, for each of `n` tiles, the last operation that writes it.
pub open spec fn is_slot_table(t: SlotTable, ops: Seq<CompactOp>, n: nat) -> bool {
    &&& t.idx_to_slot@.len() == n
    &&& t.wvia_slot_map@.len() == ops.len()
    &&& forall|i: int|
        0 <= i < n ==> if crate::compact::writes_tile(ops, i) {
            last_writer(ops, i, #[trigger] t.idx_to_slot@[i] as int)
        } else {
            t.idx_to_slot@[i] == NO_TILE
        }
    &&& forall|k: int|
        0 <= k < ops.len() ==> #[trigger] t.wvia_slot_map@[k] == if ops[k].op
            == crate::cop::COP_WVIA {
            wvia_count(ops, k as nat) as u32
        } else {
            NO_TILE
        }
}

/// The map lists the segments of each block of 64 operations.
pub open spec fn is_block_map(m: BlockMap, ops: Seq<CompactOp>) -> bool {
    let blocks = block_count(ops.len() as int);
    &&& m.seg_offsets@.len() == blocks + 1
    &&& forall|b: int|
        0 <= b <= blocks ==> #[trigger] m.seg_offsets@[b] == entries_upto(ops, b as nat).len()
    &&& m.seg_entries@ == entries_upto(ops, blocks as nat)
    &&& m.wvia_counts@.len() == blocks
    &&& forall|b: int|
        0 <= b < blocks ==> #[trigger] m.wvia_counts@[b] == wvia_count(
            ops,
            block_end(ops.len() as int, b) as nat,
        ) - wvia_count(ops, (64 * b) as nat)
}

/// The tiles of the operand selectors' outputs.
pub open spec fn selector_outputs(idx: V2CpuIndices) -> Seq<u32> {
    Seq::new(8, |i: int| idx.alu_r_mux_output_indices@[i] as u32)
}

/// The tiles that carry register state.
pub open spec fn register_state(idx: V2CpuIndices) -> Set<u32> {
    Set::new(
        |t: u32|
            lists(idx.high_tree_a_data_const_indices@, t as int) || lists(
                idx.high_tree_b_data_const_indices@,
                t as int,
            ) || lists(idx.reg_indices@, t as int) || t == idx.flag_z_idx || t == idx.flag_c_idx,
    )
}

/// The seeds of the fetch cone.
pub open spec fn cone_seeds(idx: V2CpuIndices) -> Seq<u32> {
    nonzero_tiles(idx.rom_selected_indices@) + nonzero_tiles(idx.final_mux_indices@)
        + nonzero_tiles(idx.bank47_mux_indices@)
}

fn copy_ops(v: &Vec<CompactOp>) -> (r: Vec<CompactOp>)
    ensures
        r@ == v@,
{
    let mut r: Vec<CompactOp> = Vec::new();
    let mut i: usize = 0;
    while i < v.len()
        invariant
            i <= v@.len(),
            r@ == v@.take(i as int),
        decreases v@.len() - i,
    {
        r.push(v[i]);
        i = i + 1;
        assert(r@ =~= v@.take(i as int));
    }
    assert(v@.take(i as int) =~= v@);
    r
}

fn copy_entries(v: &Vec<WeightedVia>) -> (r: Vec<WeightedVia>)
    ensures
        r@ == v@,
{
    let mut r: Vec<WeightedVia> = Vec::new();
    let mut i: usize = 0;
    while i < v.len()
        invariant
            i <= v@.len(),
            r@ == v@.take(i as int),
        decreases v@.len() - i,
    {
        r.push(v[i]);
        i = i + 1;
        assert(r@ =~= v@.take(i as int));
    }
    assert(v@.take(i as int) =~= v@);
    r
}

/// Selecting operations keeps them within the list's tiles and entries.
proof fn lemma_selection_fits(ops: Seq<CompactOp>, keep: Seq<bool>, n: nat)
    requires
        keep.len() == ops.len(),
        forall|i: int| 0 <= i < ops.len() ==> (#[trigger] ops[i]).idx < n,
    ensures
        select(ops, keep).len() <= ops.len(),
        forall|i: int|
            0 <= i < select(ops, keep).len() ==> (#[trigger] select(ops, keep)[i]).idx < n,
    decreases ops.len(),
{
    if ops.len() > 0 {
        let k = (ops.len() - 1) as int;
        lemma_selection_fits(ops.drop_last(), keep.take(k), n);
        crate::device_alu::lemma_select_prefix(ops.drop_last(), keep.take(k), keep);
    }
}

fn select_part(from: &OpList, set: &HashSet<u32>) -> (r: OpList)
    requires
        from.wf(),
    ensures
        is_part(r, *from, set@),
        r.wf(),
{
    let parts: (Vec<CompactOp>, Vec<WeightedVia>) = ops_in_closure(&from.ops, &from.wvia, set);
    proof {
        crate::compact::law_selection_stays_aligned(
            from.ops@,
            from.wvia@,
            in_set(from.ops@, set@),
        );
    }
    OpList { ops: parts.0, wvia: parts.1 }
}

fn select_both(from: &OpList, set: &HashSet<u32>) -> (r: (OpList, OpList))
    requires
        from.wf(),
    ensures
        is_part(r.0, *from, set@),
        is_rest(r.1, *from, set@),
        r.0.wf(),
        r.1.wf(),
{
    let parts: (Vec<CompactOp>, Vec<WeightedVia>, Vec<CompactOp>, Vec<WeightedVia>) =
        partition_ops(&from.ops, &from.wvia, set);
    proof {
        crate::compact::law_selection_stays_aligned(
            from.ops@,
            from.wvia@,
            in_set(from.ops@, set@),
        );
        crate::compact::law_selection_stays_aligned(
            from.ops@,
            from.wvia@,
            not_in_set(from.ops@, set@),
        );
    }
    (OpList { ops: parts.0, wvia: parts.1 }, OpList { ops: parts.2, wvia: parts.3 })
}

fn slot_table(ops: &Vec<CompactOp>, tile_count: usize) -> (t: SlotTable)
    requires
        ops@.len() < u32::MAX,
        forall|i: int| 0 <= i < ops@.len() ==> (#[trigger] ops@[i]).idx < tile_count,
    ensures
        is_slot_table(t, ops@, tile_count as nat),
{
    let r: (Vec<u32>, Vec<u32>) = slot_tables(ops, tile_count);
    SlotTable { idx_to_slot: r.0, wvia_slot_map: r.1 }
}

fn block_map(ops: &Vec<CompactOp>) -> (m: BlockMap)
    requires
        ops@.len() < u32::MAX,
    ensures
        is_block_map(m, ops@),
{
    let r: (Vec<u32>, Vec<(u32, u64)>, Vec<u8>) = build_block_maps(ops);
    BlockMap { seg_offsets: r.0, seg_entries: r.1, wvia_counts: r.2 }
}

proof fn lemma_wvia_count_no_larger(a: Seq<CompactOp>, b: Seq<CompactOp>, n: nat)
    requires
        n <= a.len(),
        a.len() == b.len(),
        forall|i: int|
            0 <= i < a.len() ==> ((#[trigger] a[i]).op == crate::cop::COP_WVIA ==> b[i].op
                == crate::cop::COP_WVIA),
    ensures
        wvia_count(a, n) <= wvia_count(b, n),
    decreases n,
{
    if n > 0 {
        lemma_wvia_count_no_larger(a, b, (n - 1) as nat);
        assert(a[n - 1].op == crate::cop::COP_WVIA ==> b[n - 1].op == crate::cop::COP_WVIA);
    }
}

proof fn lemma_const_swapped_ops(ops: Seq<CompactOp>, targets: Seq<u32>, n: nat)
    ensures
        const_swapped(ops, targets, n).len() == ops.len(),
        forall|i: int|
            0 <= i < ops.len() ==> ((#[trigger] const_swapped(ops, targets, n)[i]).op
                == crate::cop::COP_WVIA ==> ops[i].op == crate::cop::COP_WVIA),
    decreases n,
{
    if n > 0 {
        lemma_const_swapped_ops(ops, targets, (n - 1) as nat);
        let before = const_swapped(ops, targets, (n - 1) as nat);
        let k = crate::scope_tables::first_writer(before, targets[n - 1], 0);
        lemma_first_writer_from(before, targets[n - 1], 0);
        let after = const_swapped(ops, targets, n);
        assert forall|i: int|
            0 <= i < ops.len() && (#[trigger] after[i]).op
                == crate::cop::COP_WVIA implies ops[i].op == crate::cop::COP_WVIA by {
            if i != k {
                assert(after[i] == before[i]);
            }
        }
    }
}

proof fn lemma_first_writer_from(ops: Seq<CompactOp>, t: u32, k: int)
    requires
        0 <= k,
    ensures
        crate::scope_tables::first_writer(ops, t, k) >= k,
    decreases ops.len() - k,
{
    if k < ops.len() && ops[k].idx != t {
        lemma_first_writer_from(ops, t, k + 1);
    }
}

/// The settle with the operand selectors' outputs constant.
fn swap_constants(settle: &OpList, idx: &V2CpuIndices, Ghost(n): Ghost<nat>) -> (r: OpList)
    requires
        settle.wf(),
        idx.fits_execute(n),
        n <= 0x1_0000_0000,
    ensures
        r.ops@ == const_swapped(settle.ops@, selector_outputs(*idx), 8),
        r.wvia@ == settle.wvia@,
        r.wf(),
        r.ops@.len() == settle.ops@.len(),
        forall|i: int| 0 <= i < r.ops@.len() ==> (#[trigger] r.ops@[i]).idx == settle.ops@[i].idx,
{
    let mut targets: [u32; 8] = [0u32; 8];
    let mut k: usize = 0;
    while k < 8
        invariant
            k <= 8,
            idx.fits_execute(n),
            n <= 0x1_0000_0000,
            forall|i: int|
                0 <= i < k ==> #[trigger] targets@[i] == idx.alu_r_mux_output_indices@[i],
        decreases 8 - k,
    {
        let tile: usize = idx.alu_r_mux_output_indices[k];
        targets[k] = tile as u32;
        k = k + 1;
    }
    assert(targets@ =~= selector_outputs(*idx));
    let ops: Vec<CompactOp> = constswap_ops(&settle.ops, &targets);
    let r: OpList = OpList { ops, wvia: copy_entries(&settle.wvia) };
    proof {
        lemma_const_swapped_ops(settle.ops@, selector_outputs(*idx), 8);
        lemma_wvia_count_no_larger(r.ops@, settle.ops@, r.ops@.len());
    }
    r
}

/// The scopes that depend on the grid's operations alone, and on nothing kept from before.
pub open spec fn scopes_rebuilt(
    s: EvalScopes,
    src: ScopeSources,
    idx: V2CpuIndices,
    n: nat,
) -> bool {
    let pipe = src.pipeline.ops@;
    let bb = src.backbone_closure@;
    &&& s.pipeline == src.pipeline
    &&& s.branch == src.branch
    &&& s.commit == src.commit
    &&& s.clock == src.clock
    &&& s.commit_schedule == Some(src.commit_schedule)
    &&& s.clock_schedule == Some(src.clock_schedule)
    &&& is_part(s.cone, src.pipeline, needed_from(pipe, tile_set(cone_seeds(idx)), 0))
    &&& is_op_bitset(s.cone_set@, s.cone.ops@)
    &&& is_part(s.settle, src.pipeline, src.settle_closure@)
    &&& is_op_bitset(s.settle_set@, s.settle.ops@)
    &&& is_slot_table(s.settle_slots, s.settle.ops@, n)
    &&& is_block_map(s.settle_blocks, s.settle.ops@)
    &&& s.constswap.ops@ == const_swapped(s.settle.ops@, selector_outputs(idx), 8)
    &&& s.constswap.wvia@ == s.settle.wvia@
    &&& is_slot_table(s.constswap_slots, s.constswap.ops@, n)
    &&& is_block_map(s.constswap_blocks, s.constswap.ops@)
    &&& is_part(s.trunk, s.settle, src.trunk_closure@)
    &&& is_part(s.backbone, s.settle, bb)
    &&& is_rest(s.fringe, s.settle, bb)
    &&& is_rest(s.constswap_fringe, s.constswap, bb)
    &&& s.backbone.ops@.len() > 0 ==> is_op_bitset(s.backbone_set@, s.backbone.ops@)
}

/// The settle's tiles that carry register state.
pub open spec fn tainted_tiles(s: EvalScopes, nb: Seq<[u32; 4]>, idx: V2CpuIndices) -> Set<u32> {
    tainted_after(s.settle.ops@, nb, register_state(idx), s.settle.ops@.len())
}

/// The settle's tiles that depend on the instruction alone.
pub open spec fn decode_tiles(s: EvalScopes, nb: Seq<[u32; 4]>, idx: V2CpuIndices) -> Set<u32> {
    decode_after(s.settle.ops@, nb, register_state(idx), s.settle.ops@.len())
}

/// The execute part, and what the decode memo is keyed by and restores.
pub open spec fn decode_rebuilt(
    s: EvalScopes,
    m: SettleMemo,
    nb: Seq<[u32; 4]>,
    idx: V2CpuIndices,
) -> bool {
    let decode = decode_tiles(s, nb, idx);
    &&& is_rest(s.execute, s.settle, decode)
    &&& if s.execute.ops@.len() > 0 {
        is_op_bitset(s.execute_set@, s.execute.ops@)
    } else {
        s.execute_set@.len() == 0
    }
    &&& increasing(m.input_indices@)
    &&& forall|t: u32| #[trigger]
        m.input_indices@.contains(t) <==> is_decode_input(
            s.settle.ops@,
            nb,
            tainted_tiles(s, nb, idx),
            decode,
            t,
        )
    &&& increasing(m.output_indices@)
    &&& forall|t: u32| #[trigger]
        m.output_indices@.contains(t) <==> {
            &&& decode.contains(t)
            &&& !const_on(s.settle.ops@, t)
            &&& {
                ||| list_touches(s.execute.ops@, nb, t)
                ||| list_touches(s.clock.ops@, nb, t)
                ||| list_touches(s.branch.ops@, nb, t)
                ||| list_touches(s.commit.ops@, nb, t)
            }
        }
    &&& m.cache.order@.len() == 0
}

/// An operation whose inputs its entry does not tell.
pub open spec fn is_irregular(op: CompactOp) -> bool {
    op.op == crate::cop::COP_WIRE || op.op == crate::cop::COP_GENERIC
}

/// The settle can be memoized: it has a backbone, and every operation of that tells its inputs.
pub open spec fn is_memoizable(s: EvalScopes) -> bool {
    &&& s.backbone.ops@.len() > 0
    &&& forall|i: int|
        0 <= i < s.backbone.ops@.len() ==> !is_irregular(#[trigger] s.backbone.ops@[i])
}

fn can_memoize(s: &EvalScopes) -> (r: bool)
    ensures
        r == is_memoizable(*s),
{
    let ops: &Vec<CompactOp> = &s.backbone.ops;
    let mut i: usize = 0;
    while i < ops.len()
        invariant
            i <= ops@.len(),
            ops@ == s.backbone.ops@,
            forall|k: int| 0 <= k < i ==> !is_irregular(#[trigger] ops@[k]),
        decreases ops@.len() - i,
    {
        if ops[i].op == crate::cop::COP_WIRE || ops[i].op == crate::cop::COP_GENERIC {
            assert(is_irregular(ops@[i as int]));
            return false;
        }
        i = i + 1;
    }
    ops.len() > 0
}

/// What the settle memo is keyed by and restores: the settle's seeds, and every tile the settle
/// computes.
pub open spec fn memo_rebuilt(s: EvalScopes, m: SettleMemo, idx: V2CpuIndices) -> bool {
    &&& increasing(m.input_indices@)
    &&& forall|t: u32| #[trigger]
        m.input_indices@.contains(t) <==> (t != 0 && (is_fetch_seed(idx, t as int) || is_reg_data(
            idx,
            0,
            t as int,
        )))
    &&& increasing(m.output_indices@)
    &&& forall|t: u32| #[trigger]
        m.output_indices@.contains(t) <==> exists|i: int|
            0 <= i < s.settle.ops@.len() && (#[trigger] s.settle.ops@[i]).idx == t
                && s.settle.ops@[i].op != crate::cop::COP_CONST
}

/// A list without operations.
pub open spec fn is_empty_list(l: OpList) -> bool {
    l.ops@.len() == 0 && l.wvia@.len() == 0
}

/// A block map of no blocks.
pub open spec fn is_empty_map(m: BlockMap) -> bool {
    m.seg_offsets@.len() == 0 && m.seg_entries@.len() == 0 && m.wvia_counts@.len() == 0
}

/// A slot table of no tiles.
pub open spec fn is_empty_table(t: SlotTable) -> bool {
    t.idx_to_slot@.len() == 0 && t.wvia_slot_map@.len() == 0
}

impl EvalScopes {
    /// There are no operations at all.
    pub open spec fn is_empty(self) -> bool {
        &&& is_empty_list(self.pipeline)
        &&& is_empty_list(self.branch)
        &&& is_empty_list(self.commit)
        &&& is_empty_list(self.clock)
        &&& self.commit_schedule is None
        &&& self.clock_schedule is None
        &&& is_empty_list(self.cone)
        &&& self.cone_set@.len() == 0
        &&& is_empty_list(self.settle)
        &&& self.settle_set@.len() == 0
        &&& is_empty_table(self.settle_slots)
        &&& is_empty_map(self.settle_blocks)
        &&& is_empty_list(self.constswap)
        &&& is_empty_table(self.constswap_slots)
        &&& is_empty_map(self.constswap_blocks)
        &&& is_empty_list(self.trunk)
        &&& is_empty_list(self.backbone)
        &&& self.backbone_set@.len() == 0
        &&& is_empty_list(self.fringe)
        &&& is_empty_list(self.constswap_fringe)
        &&& is_empty_list(self.execute)
        &&& self.execute_set@.len() == 0
    }

    /// No operations at all.
    pub fn empty() -> (s: Self)
        ensures
            s.is_empty(),
    {
        EvalScopes {
            pipeline: empty_list(),
            branch: empty_list(),
            commit: empty_list(),
            clock: empty_list(),
            commit_schedule: None,
            clock_schedule: None,
            cone: empty_list(),
            cone_set: Vec::new(),
            settle: empty_list(),
            settle_set: Vec::new(),
            settle_slots: SlotTable { idx_to_slot: Vec::new(), wvia_slot_map: Vec::new() },
            settle_blocks: BlockMap {
                seg_offsets: Vec::new(),
                seg_entries: Vec::new(),
                wvia_counts: Vec::new(),
            },
            constswap: empty_list(),
            constswap_slots: SlotTable { idx_to_slot: Vec::new(), wvia_slot_map: Vec::new() },
            constswap_blocks: BlockMap {
                seg_offsets: Vec::new(),
                seg_entries: Vec::new(),
                wvia_counts: Vec::new(),
            },
            trunk: empty_list(),
            backbone: empty_list(),
            backbone_set: Vec::new(),
            fringe: empty_list(),
            constswap_fringe: empty_list(),
            execute: empty_list(),
            execute_set: Vec::new(),
        }
    }
}

fn empty_list() -> (l: OpList)
    ensures
        l.ops@.len() == 0,
        l.wvia@.len() == 0,
{
    OpList { ops: Vec::new(), wvia: Vec::new() }
}

/// Build the scopes anew from what the grid gives. The backbone's bitset stays what it was
/// where there is no backbone.
fn build_scopes(
    idx: &V2CpuIndices,
    src: ScopeSources,
    tile_count: usize,
    Ghost(nb): Ghost<Seq<[u32; 4]>>,
    old_backbone_set: Vec<u64>,
) -> (s: EvalScopes)
    requires
        src.wf(nb),
        nb.len() == tile_count,
        idx.fits(tile_count as nat),
        tile_count <= 0x1_0000_0000,
    ensures
        scopes_rebuilt(s, src, *idx, tile_count as nat),
        s.backbone.ops@.len() == 0 ==> s.backbone_set == old_backbone_set,
        s.settle.wf(),
        neighbors_known(s.settle.ops@, nb),
{
    let seeds: Vec<u32> = collect_stage_f_output_seeds(idx, tile_count);
    let cone: (Vec<CompactOp>, Vec<WeightedVia>, Vec<u64>) = build_pipeline_cone(
        &src.pipeline.ops,
        &src.pipeline.wvia,
        &seeds,
    );
    let settle: OpList = select_part(&src.pipeline, &src.settle_closure);
    proof {
        lemma_selection_fits(
            src.pipeline.ops@,
            in_set(src.pipeline.ops@, src.settle_closure@),
            tile_count as nat,
        );
    }
    let settle_set: Vec<u64> = op_bitset(&settle.ops);
    let settle_slots: SlotTable = slot_table(&settle.ops, tile_count);
    let settle_blocks: BlockMap = block_map(&settle.ops);
    let trunk: OpList = select_part(&settle, &src.trunk_closure);
    let constswap: OpList = swap_constants(&settle, idx, Ghost(tile_count as nat));
    let constswap_slots: SlotTable = slot_table(&constswap.ops, tile_count);
    let constswap_blocks: BlockMap = block_map(&constswap.ops);
    let halves: (OpList, OpList) = select_both(&settle, &src.backbone_closure);
    let swapped: (OpList, OpList) = select_both(&constswap, &src.backbone_closure);
    let backbone: OpList = halves.0;
    let backbone_set: Vec<u64> = if backbone.ops.len() > 0 {
        op_bitset(&backbone.ops)
    } else {
        old_backbone_set
    };
    EvalScopes {
        pipeline: src.pipeline,
        branch: src.branch,
        commit: src.commit,
        clock: src.clock,
        commit_schedule: Some(src.commit_schedule),
        clock_schedule: Some(src.clock_schedule),
        cone: OpList { ops: cone.0, wvia: cone.1 },
        cone_set: cone.2,
        settle,
        settle_set,
        settle_slots,
        settle_blocks,
        constswap,
        constswap_slots,
        constswap_blocks,
        trunk,
        backbone,
        backbone_set,
        fringe: halves.1,
        constswap_fringe: swapped.1,
        execute: empty_list(),
        execute_set: Vec::new(),
    }
}

/// Split the settle into its decode and execute parts.
fn split_settle(
    s: &mut EvalScopes,
    m: &mut SettleMemo,
    idx: &V2CpuIndices,
    nb: &Vec<[u32; 4]>,
    tile_count: usize,
)
    requires
        old(s).settle.wf(),
        neighbors_known(old(s).settle.ops@, nb@),
        neighbors_known(old(s).branch.ops@, nb@),
        neighbors_known(old(s).commit.ops@, nb@),
        neighbors_known(old(s).clock.ops@, nb@),
        nb@.len() == tile_count,
        idx.fits(tile_count as nat),
        tile_count <= 0x1_0000_0000,
    ensures
        decode_rebuilt(*final(s), *final(m), nb@, *idx),
        *final(s) == (EvalScopes {
            execute: final(s).execute,
            execute_set: final(s).execute_set,
            ..*old(s)
        }),
        final(m).wf(),
        final(m).enabled == old(m).enabled,
        final(m).hits == old(m).hits,
        final(m).misses == old(m).misses,
        final(m).cache.capacity == old(m).cache.capacity,
{
    let externals: Vec<u32> = execute_externals(idx, tile_count);
    assert(tile_set(externals@) =~= register_state(*idx));
    let classes: (HashSet<u32>, HashSet<u32>) = classify_tiles(&s.settle.ops, nb, &externals);
    let inputs: Vec<u32> = decode_input_tiles(&s.settle.ops, nb, &classes.0, &classes.1);
    let halves: (OpList, OpList) = select_both(&s.settle, &classes.1);
    let execute: OpList = halves.1;
    proof {
        lemma_selection_fits(
            s.settle.ops@,
            not_in_set(s.settle.ops@, classes.1@),
            tile_count as nat,
        );
    }
    let lists: Vec<Vec<CompactOp>> = vec![
        copy_ops(&execute.ops),
        copy_ops(&s.clock.ops),
        copy_ops(&s.branch.ops),
        copy_ops(&s.commit.ops),
    ];
    let outputs: Vec<u32> = decode_output_tiles(&lists, &s.settle.ops, nb, &classes.1);
    proof {
        assert forall|t: u32|
            (exists|k: int| 0 <= k < lists@.len() && list_touches(#[trigger] lists@[k]@, nb@, t))
                == {
                ||| list_touches(execute.ops@, nb@, t)
                ||| list_touches(s.clock.ops@, nb@, t)
                ||| list_touches(s.branch.ops@, nb@, t)
                ||| list_touches(s.commit.ops@, nb@, t)
            } by {
            assert(lists@[0]@ == execute.ops@);
            assert(lists@[1]@ == s.clock.ops@);
            assert(lists@[2]@ == s.branch.ops@);
            assert(lists@[3]@ == s.commit.ops@);
        }
    }
    s.execute_set =
    if execute.ops.len() > 0 {
        op_bitset(&execute.ops)
    } else {
        Vec::new()
    };
    s.execute = execute;
    m.cache.clear();
    m.input_indices = inputs;
    m.output_indices = outputs;
}

/// Rebuild every scope after the grid's tiles or scope masks changed.
///
/// The settle memo is reset. It is keyed anew where the settle can be memoized, and else has no
/// tiles, so that it serves no settle. The decode memo is keyed anew; without a settle there is
/// nothing that it serves. The operations match the tiles again afterwards.
pub fn rebuild_eval_order(
    s: &mut EvalScopes,
    settle_memo: &mut SettleMemo,
    decode_memo: &mut SettleMemo,
    idx: &V2CpuIndices,
    src: ScopeSources,
    nb: &Vec<[u32; 4]>,
    stale: &mut bool,
)
    requires
        src.wf(nb@),
        idx.fits(nb@.len()),
        nb@.len() <= 0x1_0000_0000,
    ensures
        !*final(stale),
        scopes_rebuilt(*final(s), src, *idx, nb@.len()),
        final(s).backbone.ops@.len() == 0 ==> final(s).backbone_set == old(s).backbone_set,
        final(settle_memo).wf(),
        final(settle_memo).cache.order@.len() == 0,
        final(settle_memo).hits == 0,
        final(settle_memo).misses == 0,
        final(settle_memo).enabled == old(settle_memo).enabled,
        final(settle_memo).cache.capacity == old(settle_memo).cache.capacity,
        if is_memoizable(*final(s)) {
            memo_rebuilt(*final(s), *final(settle_memo), *idx)
        } else {
            &&& final(settle_memo).input_indices@.len() == 0
            &&& final(settle_memo).output_indices@.len() == 0
        },
        decode_rebuilt(*final(s), *final(decode_memo), nb@, *idx),
        final(decode_memo).wf(),
        final(decode_memo).enabled == old(decode_memo).enabled,
        final(decode_memo).hits == old(decode_memo).hits,
        final(decode_memo).misses == old(decode_memo).misses,
        final(decode_memo).cache.capacity == old(decode_memo).cache.capacity,
{
    let tile_count: usize = nb.len();
    let mut before: EvalScopes = EvalScopes::empty();
    std::mem::swap(&mut before, s);
    *s =
    build_scopes(
        idx,
        src,
        tile_count,
        Ghost(nb@),
        before.backbone_set,
    );
    settle_memo.reset();
    if can_memoize(s) {
        settle_memo.input_indices = all_settle_dirty_seeds(idx, tile_count);
        settle_memo.output_indices = evaluated_tiles(&s.settle.ops);
    } else {
        settle_memo.input_indices = Vec::new();
        settle_memo.output_indices = Vec::new();
    }
    split_settle(s, decode_memo, idx, nb, tile_count);
    *stale = false;
}

} // verus!
