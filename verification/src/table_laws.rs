//! What the tables of the evaluation scopes say of the operations they were made from, and what is
//! counted of settles and of programs for devices.
use vstd::prelude::*;

use crate::alu::popcount;
use crate::bit_scan::{bit_count, block_total, counted, BitCount};
use crate::clock_cache::{bank0, trimmed};
use crate::cop;
use crate::cpu::{fresh_gate, new_gate, no_checks};
use crate::device_alu::{DeviceAluProgram, DeviceOp};
use crate::device_pack::{
    packed_bytes, packed_bytes_sum, split_bytes, split_bytes_sum, value_bytes_sum, value_reads,
};
use crate::device_plan::CompactOp;
use crate::isa::effective_reg_spec;
use crate::layout::V2CpuIndices;
use crate::memo::SettleMemo;
use crate::scope_laws::{law_flagged_elements_are_selected, law_selected_elements_are_flagged};
use crate::scope_tables::{
    block_count, block_end, block_entries, consumes, dependents_upto, entries_upto,
    law_block_masks_are_exact, marks_tile, splits, true_dependents,
};
use crate::scopes::{
    cone_seeds, is_block_map, is_memoizable, is_slot_table, register_state, selector_outputs,
    BlockMap, EvalScopes, SlotTable,
};
use crate::seeds::nonzero_tiles;
use crate::settle::{memo_counted, switches_added, SwitchCounts};
use crate::settle_commit::commit_path;
use crate::simulation::lists;
use crate::state::Authority;
use crate::warp_decode::read_slots;

verus! {

/// A slot table gives for a tile the operation that writes it last, and for a tile that none writes
/// the largest number.
pub proof fn law_slots_name_the_last_writer(
    t: SlotTable,
    ops: Seq<CompactOp>,
    n: nat,
    i: int,
    k: int,
)
    requires
        is_slot_table(t, ops, n),
        0 <= i < n,
        0 <= k < ops.len(),
    ensures
        ops[k].idx == i ==> {
            let s = t.idx_to_slot@[i] as int;
            k <= s < ops.len() && ops[s].idx == i
        },
        (forall|j: int| 0 <= j < ops.len() ==> (#[trigger] ops[j]).idx != i) ==> t.idx_to_slot@[i]
            == 0xFFFF_FFFF,
        ops[k].op != cop::COP_WVIA ==> t.wvia_slot_map@[k] == 0xFFFF_FFFF,
{
}

/// The operations are cut into blocks of sixty-four, the last of which may be shorter: every
/// operation lies in just one.
pub proof fn law_blocks_cover_the_operations(n: int, b: int, k: int)
    requires
        0 <= k < n,
        0 <= b < block_count(n),
    ensures
        64 * (block_count(n) - 1) < n <= 64 * block_count(n),
        64 * b <= k < block_end(n, b) <==> k / 64 == b,
        block_end(n, b) <= n,
        block_end(n, block_count(n) - 1) == n,
        k / 64 < block_count(n),
{
}

proof fn lemma_entries_prefix(ops: Seq<CompactOp>, a: nat, b: nat)
    requires
        a <= b,
    ensures
        entries_upto(ops, a).len() <= entries_upto(ops, b).len(),
        entries_upto(ops, b).subrange(0, entries_upto(ops, a).len() as int) == entries_upto(ops, a),
    decreases b,
{
    if a < b {
        lemma_entries_prefix(ops, a, (b - 1) as nat);
        let p = entries_upto(ops, (b - 1) as nat);
        let q = entries_upto(ops, b);
        let n = entries_upto(ops, a).len() as int;
        assert(q.subrange(0, n) =~= p.subrange(0, n));
    } else {
        assert(entries_upto(ops, b).subrange(0, entries_upto(ops, b).len() as int) =~= entries_upto(
            ops,
            b,
        ));
    }
}

/// The entries of a block's segment mark the tiles that its sixty-four operations write, and no
/// others.
pub proof fn law_block_maps_mark_the_tiles_written(
    m: BlockMap,
    ops: Seq<CompactOp>,
    b: int,
    t: u32,
)
    requires
        is_block_map(m, ops),
        0 <= b < block_count(ops.len() as int),
    ensures
        m.seg_offsets@[b] <= m.seg_offsets@[b + 1] <= m.seg_entries@.len(),
        marks_tile(
            m.seg_entries@.subrange(m.seg_offsets@[b] as int, m.seg_offsets@[b + 1] as int),
            t,
        ) <==> exists|i: int|
            64 * b <= i < 64 * (b + 1) && i < ops.len() && (#[trigger] ops[i]).idx == t,
{
    let n = ops.len() as int;
    let lo = entries_upto(ops, b as nat);
    let hi = entries_upto(ops, (b + 1) as nat);
    lemma_entries_prefix(ops, b as nat, (b + 1) as nat);
    lemma_entries_prefix(ops, (b + 1) as nat, block_count(n) as nat);
    assert(m.seg_offsets@[b] == lo.len());
    assert(m.seg_offsets@[b + 1] == hi.len());
    let part = m.seg_entries@.subrange(lo.len() as int, hi.len() as int);
    assert(m.seg_entries@.subrange(0, hi.len() as int) == hi);
    assert(part =~= hi.subrange(lo.len() as int, hi.len() as int)) by {
        assert forall|i: int| 0 <= i < part.len() implies part[i] == hi.subrange(
            lo.len() as int,
            hi.len() as int,
        )[i] by {
            assert(m.seg_entries@.subrange(0, hi.len() as int)[lo.len() + i] == hi[lo.len() + i]);
        }
    }
    assert(part =~= block_entries(ops, 64 * b, block_end(n, b)));
    law_blocks_cover_the_operations(n, b, 64 * b);
    law_block_masks_are_exact(ops, 64 * b, block_end(n, b), t);
}

/// The true dependents of a slot are those listed for it that read the tile it writes.
pub proof fn law_true_dependents_read_the_tile(
    ops: Seq<CompactOp>,
    below: Seq<u32>,
    data: Seq<u32>,
    slot: int,
    lo: int,
    hi: int,
    d: u32,
)
    ensures
        true_dependents(ops, below, data, slot, lo, hi).contains(d) <==> d < ops.len() && (ops[d as int].in0
            == ops[slot].idx || ops[d as int].in1 == ops[slot].idx || ops[d as int].in2
            == ops[slot].idx || (ops[d as int].op == cop::COP_WIRE && below[d as int]
            == ops[slot].idx)) && exists|i: int| lo <= i < hi && #[trigger] data[i] == d,
    decreases hi - lo,
{
    let r = true_dependents(ops, below, data, slot, lo, hi);
    if hi > lo {
        law_true_dependents_read_the_tile(ops, below, data, slot, lo, hi - 1, d);
        let e = true_dependents(ops, below, data, slot, lo, hi - 1);
        let x = data[hi - 1];
        if r.contains(d) {
            let i = choose|i: int| 0 <= i < r.len() && r[i] == d;
            if i < e.len() {
                assert(e[i] == d);
            }
        }
        if e.contains(d) {
            let i = choose|i: int| 0 <= i < e.len() && e[i] == d;
            assert(r[i] == d);
        }
        if x == d && x < ops.len() && consumes(ops[x as int], below[x as int], ops[slot].idx) {
            assert(r[e.len() as int] == d);
        }
    }
}

/// The slots' true dependents follow each other, slot by slot.
pub proof fn law_true_dependents_lie_slot_by_slot(
    ops: Seq<CompactOp>,
    below: Seq<u32>,
    data: Seq<u32>,
    offsets: Seq<u32>,
    k: nat,
    i: int,
)
    requires
        splits(offsets, ops.len(), data.len()),
        k < ops.len(),
        0 <= i < true_dependents(
            ops,
            below,
            data,
            k as int,
            offsets[k as int] as int,
            offsets[(k + 1) as int] as int,
        ).len(),
    ensures
        dependents_upto(ops, below, data, offsets, 0).len() == 0,
        dependents_upto(ops, below, data, offsets, k + 1)[dependents_upto(
            ops,
            below,
            data,
            offsets,
            k,
        ).len() + i] == true_dependents(
            ops,
            below,
            data,
            k as int,
            offsets[k as int] as int,
            offsets[(k + 1) as int] as int,
        )[i],
        dependents_upto(ops, below, data, offsets, k + 1).len() == dependents_upto(
            ops,
            below,
            data,
            offsets,
            k,
        ).len() + true_dependents(
            ops,
            below,
            data,
            k as int,
            offsets[k as int] as int,
            offsets[(k + 1) as int] as int,
        ).len(),
{
}

proof fn lemma_nonzero_tiles(tiles: Seq<usize>, t: u32)
    requires
        forall|i: int| 0 <= i < tiles.len() ==> #[trigger] tiles[i] <= u32::MAX,
    ensures
        nonzero_tiles(tiles).contains(t) <==> t != 0 && lists(tiles, t as int),
    decreases tiles.len(),
{
    let r = nonzero_tiles(tiles);
    if tiles.len() > 0 {
        let init = tiles.drop_last();
        lemma_nonzero_tiles(init, t);
        let e = nonzero_tiles(init);
        let x = tiles.last();
        assert(x == tiles[tiles.len() - 1]);
        if r.contains(t) {
            let i = choose|i: int| 0 <= i < r.len() && r[i] == t;
            if i < e.len() {
                assert(e[i] == t);
                let m = choose|m: int| 0 <= m < init.len() && #[trigger] init[m] == t as int;
                assert(tiles[m] == t as int);
            }
        }
        if t != 0 && lists(tiles, t as int) {
            let m = choose|m: int| 0 <= m < tiles.len() && #[trigger] tiles[m] == t as int;
            if m < init.len() {
                assert(init[m] == t as int);
                let i = choose|i: int| 0 <= i < e.len() && e[i] == t;
                assert(r[i] == t);
            } else {
                assert(r[e.len() as int] == t);
            }
        }
    }
}

/// The fetch cone is grown from the tiles where a fetched word appears: the selected lanes, the
/// final selectors and those of the upper banks.
pub proof fn law_the_cone_starts_from_the_word(idx: V2CpuIndices, t: u32)
    requires
        forall|i: int|
            0 <= i < idx.rom_selected_indices@.len() ==> #[trigger] idx.rom_selected_indices@[i]
                <= u32::MAX,
        forall|i: int|
            0 <= i < idx.final_mux_indices@.len() ==> #[trigger] idx.final_mux_indices@[i]
                <= u32::MAX,
        forall|i: int|
            0 <= i < idx.bank47_mux_indices@.len() ==> #[trigger] idx.bank47_mux_indices@[i]
                <= u32::MAX,
    ensures
        cone_seeds(idx).contains(t) <==> t != 0 && (lists(idx.rom_selected_indices@, t as int)
            || lists(idx.final_mux_indices@, t as int) || lists(
            idx.bank47_mux_indices@,
            t as int,
        )),
{
    let a = nonzero_tiles(idx.rom_selected_indices@);
    let b = nonzero_tiles(idx.final_mux_indices@);
    let c = nonzero_tiles(idx.bank47_mux_indices@);
    lemma_nonzero_tiles(idx.rom_selected_indices@, t);
    lemma_nonzero_tiles(idx.final_mux_indices@, t);
    lemma_nonzero_tiles(idx.bank47_mux_indices@, t);
    let s = cone_seeds(idx);
    if s.contains(t) {
        let i = choose|i: int| 0 <= i < s.len() && s[i] == t;
        if i < a.len() {
            assert(a[i] == t);
        } else if i < a.len() + b.len() {
            assert(b[i - a.len()] == t);
        } else {
            assert(c[i - a.len() - b.len()] == t);
        }
    }
    if a.contains(t) {
        let i = choose|i: int| 0 <= i < a.len() && a[i] == t;
        assert(s[i] == t);
    }
    if b.contains(t) {
        let i = choose|i: int| 0 <= i < b.len() && b[i] == t;
        assert(s[a.len() + i] == t);
    }
    if c.contains(t) {
        let i = choose|i: int| 0 <= i < c.len() && c[i] == t;
        assert(s[a.len() + b.len() + i] == t);
    }
}

/// The state that decode must not depend on is the registers, their copies at the high trees, and
/// the two flags. The tiles that a swap turns into constants are the operand selectors' outputs. A
/// backbone can be memoized where it has operations and none of them is irregular.
pub proof fn law_what_the_scopes_are_told(idx: V2CpuIndices, s: EvalScopes, t: u32, i: int)
    ensures
        register_state(idx).contains(t) <==> lists(idx.reg_indices@, t as int) || lists(
            idx.high_tree_a_data_const_indices@,
            t as int,
        ) || lists(idx.high_tree_b_data_const_indices@, t as int) || t == idx.flag_z_idx || t
            == idx.flag_c_idx,
        selector_outputs(idx).len() == 8,
        0 <= i < 8 ==> selector_outputs(idx)[i] == idx.alu_r_mux_output_indices@[i] as u32,
        s.backbone.ops@.len() == 0 ==> !is_memoizable(s),
        is_memoizable(s) && 0 <= i < s.backbone.ops@.len() ==> s.backbone.ops@[i].op
            != cop::COP_WIRE && s.backbone.ops@[i].op != cop::COP_GENERIC,
        s.backbone.ops@.len() > 0 && (forall|k: int|
            0 <= k < s.backbone.ops@.len() ==> (#[trigger] s.backbone.ops@[k]).op != cop::COP_WIRE
                && s.backbone.ops@[k].op != cop::COP_GENERIC) ==> is_memoizable(s),
{
}

/// Trimming a list takes out the chain tails, and nothing else.
pub proof fn law_tails_are_trimmed(list: Seq<usize>, tail: Seq<bool>, i: int)
    requires
        0 <= i < list.len(),
        forall|k: int| 0 <= k < list.len() ==> #[trigger] list[k] < tail.len(),
    ensures
        trimmed(list, tail).contains(list[i]) <==> !tail[list[i] as int],
        forall|k: int|
            0 <= k < trimmed(list, tail).len() ==> list.contains(#[trigger] trimmed(list, tail)[k]),
{
    let keep = crate::clock_cache::no_tail(tail, list);
    let r = trimmed(list, tail);
    if !tail[list[i] as int] {
        law_flagged_elements_are_selected(list, keep, i);
    }
    if r.contains(list[i]) {
        let p = choose|p: int| 0 <= p < r.len() && r[p] == list[i];
        let m = law_selected_elements_are_flagged(list, keep, p);
        assert(keep[m]);
        assert(list[m] == list[i]);
    }
    assert forall|k: int| 0 <= k < r.len() implies list.contains(#[trigger] r[k]) by {
        let m = law_selected_elements_are_flagged(list, keep, k);
        assert(list[m] == r[k]);
    }
}

/// The first bank of memory is its first eight words.
pub proof fn law_first_bank(idx: V2CpuIndices, i: int)
    requires
        idx.ram_indices@.len() >= 8,
        0 <= i < 8,
    ensures
        bank0(idx).len() == 8,
        bank0(idx)[i] == idx.ram_indices@[i],
{
}

/// The commit settles by the levelized order where tiles are held or the scopes are stale; else by
/// its schedule where it has one, and else by its operations where it has some.
pub proof fn law_how_the_commit_settles(schedule: bool, ops: nat, held: bool, stale: bool)
    ensures
        commit_path(schedule, ops, held, stale) is Scheduled <==> schedule && !held && !stale,
        commit_path(schedule, ops, held, stale) is Compact <==> !schedule && ops > 0 && !held
            && !stale,
        commit_path(schedule, ops, held, stale) is Levelized <==> held || stale || (!schedule && ops
            == 0),
{
}

/// A lookup counts one hit or one miss, or nothing, and a hit leaves the cache as it is.
pub proof fn law_lookups_are_counted(before: SettleMemo, after: SettleMemo, hit: bool, miss: bool)
    requires
        memo_counted(before, after, hit, miss),
    ensures
        hit ==> after.hits == before.hits + 1,
        !hit ==> after.hits == before.hits,
        miss ==> after.misses == before.misses + 1,
        !miss ==> after.misses == before.misses && after.cache == before.cache,
        after.enabled == before.enabled,
{
}

/// The switches of a settle are added up operation by operation and bucket by bucket.
pub proof fn law_switches_add_up(
    counts: Seq<u32>,
    buckets: Seq<u64>,
    pass: SwitchCounts,
    counts1: Seq<u32>,
    buckets1: Seq<u64>,
    i: int,
    b: int,
)
    requires
        switches_added(counts, buckets, pass, counts1, buckets1),
        0 <= i < counts.len(),
        0 <= b < 5,
        counts[i] + pass.switched@[i] <= u32::MAX,
        buckets[b] + pass.buckets@[b] <= u64::MAX,
    ensures
        counts1.len() == counts.len(),
        counts1[i] == counts[i] + pass.switched@[i],
        buckets1.len() == 5,
        buckets1[b] == buckets[b] + pass.buckets@[b],
{
}

/// The traffic of a program is that of its operations: for the values eight bytes for each one read
/// and the one written; for packed metadata one word, two with thresholds, three for a weighted
/// via.
pub proof fn law_traffic_adds_up(ops: Seq<DeviceOp>, op: DeviceOp)
    ensures
        value_bytes_sum(ops.push(op)) == value_bytes_sum(ops) + 8 * value_reads(op.code) + 8,
        split_bytes_sum(ops.push(op)) == split_bytes_sum(ops) + split_bytes(op.code),
        packed_bytes_sum(ops.push(op)) == packed_bytes_sum(ops) + packed_bytes(op.code),
        value_bytes_sum(Seq::<DeviceOp>::empty()) == 0,
        split_bytes_sum(Seq::<DeviceOp>::empty()) == 0,
        packed_bytes_sum(Seq::<DeviceOp>::empty()) == 0,
        op.code == cop::COP_WVIA ==> packed_bytes(op.code) == 24,
        op.code == cop::COP_THRESHOLD_VIA ==> packed_bytes(op.code) == 16,
        op.code != cop::COP_WVIA && op.code != cop::COP_THRESHOLD_VIA ==> packed_bytes(op.code)
            == 8,
        packed_bytes(op.code) <= split_bytes(op.code),
{
    assert(ops.push(op).drop_last() =~= ops);
}

/// The bit operations count leading zeros, trailing zeros or set bits by their sub-function.
pub proof fn law_what_bit_operations_count(sub: u8, a: u64)
    requires
        1 <= sub <= 3,
    ensures
        sub == 1 ==> counted(bit_count(sub), a) == vstd::std_specs::bits::u64_leading_zeros(a),
        sub == 2 ==> counted(bit_count(sub), a) == vstd::std_specs::bits::u64_trailing_zeros(a),
        sub == 3 ==> counted(bit_count(sub), a) == popcount(a),
        sub == 3 ==> block_total(bit_count(sub)) == 15,
        sub < 3 ==> block_total(bit_count(sub)) == 11,
        bit_count(sub) is Ones <==> sub == 3,
        bit_count(sub) == BitCount::LeadingZeros <==> sub == 1,
{
}

/// A register number is its low three bits, with eight more in the upper bank.
pub proof fn law_register_numbers(lo: u8, hi: bool)
    requires
        lo < 8,
    ensures
        hi ==> effective_reg_spec(lo, hi) == lo + 8,
        !hi ==> effective_reg_spec(lo, hi) == lo,
        effective_reg_spec((lo + 8) as u8, hi) == effective_reg_spec(lo, hi),
{
}

/// A gate starts disabled, and has compared nothing when it is put in force. Nothing is entrusted
/// to the tiles at first.
pub proof fn law_gates_start_from_nothing()
    ensures
        no_checks().checks == 0 && no_checks().mismatches == 0,
        !new_gate().enabled && new_gate().checks == 0 && new_gate().mismatches == 0,
        fresh_gate().enabled && fresh_gate().checks == 0 && fresh_gate().mismatches == 0,
        ({
            let a = Authority::no_authority();
            &&& a.alu_opcodes == 0
            &&& !(a.operand || a.rd_decode || a.we_mask || a.flag_we_mask || a.super_mux
                || a.wb_data || a.high_reg_writeback || a.sub_fn_delivery || a.sub_fn_flag
                || a.load_delivery || a.reg_writeback || a.flag_writeback || a.decode || a.branch
                || a.ram_writeback || a.ram_store || a.sra || a.mul || a.bitop || a.ir_spine
                || a.via_decode || a.byte2_selector)
        }),
{
}

/// Where a program's decode cannot be broadcast there is an operation of it that reads what another
/// lane may hold otherwise, or that carries state, and every one before it is the same in all lanes.
pub proof fn law_broadcasts_fail_at_an_operation(p: DeviceAluProgram, e: Seq<char>) -> (j: int)
    requires
        p.broadcast_fails(e),
    ensures
        0 <= j < p.settle_end,
        !p.op_uniform(j),
        forall|m: int| 0 <= m < j ==> #[trigger] p.op_uniform(m),
        e.len() > 10,
        p.carries_state(j) || exists|i: int|
            0 <= i < read_slots(p.ops@[j]).len() && p.stray_read(
                j,
                #[trigger] read_slots(p.ops@[j])[i],
            ),
{
    let j = choose|j: int| #[trigger] p.fails_at(j, e);
    reveal_strlit("decode op ");
    reveal_strlit(" (code ");
    if !p.carries_state(j) {
        let i = choose|i: int| #[trigger] p.strays_first(j, i, e);
        assert(p.stray_read(j, read_slots(p.ops@[j])[i]));
    }
    j
}

} // verus!
