//! What the fetch stage puts into the tiles, compares and goes on to, in terms of the word that was
//! fetched.
use vstd::prelude::*;

use crate::cpu::TileCpuV2;
use crate::decode::{
    delivery_checks, immediate_differences, ingress_differs, lane_checks, selectors_differ,
    wide_load_injected, with_lanes, with_selectors,
};
use crate::fetch::{delivered_state, pre_injected, with_delivery, with_high_data, FetchWord};
use crate::gates::CheckCounter;
use crate::latch::PipelineLatch;
use crate::layout::V2CpuIndices;
use crate::simulation::{lists, Grid};
use crate::stage_f::{
    cause_counted_if, fetch_delivered, fetch_finished, fetch_freed, stage_f_steps, wide_state, StageF,
};
use crate::state::{Authority, Checks, PipelineState, PropCounters};

verus! {

/// No tile is listed twice among the first `n`, and all of them lie in the grid.
pub open spec fn apart(list: Seq<usize>, n: int, g: Grid) -> bool {
    &&& n <= list.len()
    &&& forall|i: int| 0 <= i < n ==> #[trigger] list[i] < g.values.len()
    &&& forall|i: int, j: int| 0 <= i < j < n ==> #[trigger] list[i] != #[trigger] list[j]
}

proof fn lemma_put_each_at(g: Grid, list: Seq<usize>, vals: Seq<u64>, n: nat)
    requires
        apart(list, n as int, g),
    ensures
        g.put_each(list, vals, n).values.len() == g.values.len(),
        g.put_each(list, vals, n).dirty == g.dirty,
        forall|i: int| 0 <= i < n ==> g.put_each(list, vals, n).values[#[trigger] list[i] as int] == vals[i],
        forall|t: int|
            0 <= t < g.values.len() && (forall|i: int| 0 <= i < n ==> #[trigger] list[i] != t)
                ==> #[trigger] g.put_each(list, vals, n).values[t] == g.values[t],
    decreases n,
{
    if n > 0 {
        lemma_put_each_at(g, list, vals, (n - 1) as nat);
    }
}

/// The high trees are fed with the upper bank: leaf `i` of the first holds register `8 + i`, leaf
/// `i` of the second register `8 + i` with the halves of the bank swapped. No other tile changes.
pub proof fn law_high_trees_hold_the_upper_bank(
    idx: V2CpuIndices,
    regs: Seq<u64>,
    g: Grid,
    i: int,
    t: int,
)
    requires
        apart(idx.high_tree_a_data_const_indices@, 8, g),
        apart(idx.high_tree_b_data_const_indices@, 8, g),
        forall|j: int, k: int|
            0 <= j < 8 && 0 <= k < 8 ==> #[trigger] idx.high_tree_a_data_const_indices@[j]
                != #[trigger] idx.high_tree_b_data_const_indices@[k],
        0 <= i < 8,
        0 <= t < g.values.len(),
        forall|k: int| 0 <= k < 8 ==> #[trigger] idx.high_tree_a_data_const_indices@[k] != t,
        forall|k: int| 0 <= k < 8 ==> #[trigger] idx.high_tree_b_data_const_indices@[k] != t,
    ensures
        with_high_data(idx, regs, g).values[idx.high_tree_a_data_const_indices@[i] as int] == regs[8
            + i],
        i < 4 ==> with_high_data(
            idx,
            regs,
            g,
        ).values[idx.high_tree_b_data_const_indices@[i] as int] == regs[12 + i],
        i >= 4 ==> with_high_data(
            idx,
            regs,
            g,
        ).values[idx.high_tree_b_data_const_indices@[i] as int] == regs[4 + i],
        with_high_data(idx, regs, g).values[t] == g.values[t],
{
    let va = crate::fetch::high_data_a(regs);
    let vb = crate::fetch::high_data_b(regs);
    let la = idx.high_tree_a_data_const_indices@;
    let lb = idx.high_tree_b_data_const_indices@;
    lemma_put_each_at(g, la, va, 8);
    lemma_put_each_at(g.put_each(la, va, 8), lb, vb, 8);
    assert(la[i] < g.values.len());
    assert(g.put_each(la, va, 8).put_each(lb, vb, 8).values[la[i] as int] == g.put_each(
        la,
        va,
        8,
    ).values[la[i] as int]);
}

/// A word passes its operand or constant through the adder where the bus is entrusted to the tiles
/// and it is a move, or a load of a narrow constant; a wide constant takes a settle of its own.
pub proof fn law_which_words_pass_through(auth: Authority, w: FetchWord)
    ensures
        pre_injected(auth, w) <==> auth.wb_data && (w.opcode == 0x02 || (w.opcode == 0x03
            && (w.ir_ext / 4) % 2 == 0)),
        wide_load_injected(auth, w) <==> auth.wb_data && w.opcode == 0x03 && (w.ir_ext / 4) % 2
            == 1,
        !(pre_injected(auth, w) && wide_load_injected(auth, w)),
{
}

/// A word of the lower half changes nothing of the pipeline's state. One from above is forced into
/// the decoder where the spine does not deliver it; then compact evaluation is held off and
/// counted. All is settled anew unless the spine delivers it and says what changes.
pub proof fn law_delivery_of_upper_words(
    idx: V2CpuIndices,
    auth: Authority,
    w: FetchWord,
    p: PipelineState,
)
    ensures
        !w.upper ==> delivered_state(idx, auth, w, p) == p,
        w.upper && (!auth.ir_spine || w.beyond) ==> {
            let q = delivered_state(idx, auth, w, p);
            &&& q.compact_eval_inhibit
            &&& p.compact_eval_inhibit_count < u64::MAX ==> q.compact_eval_inhibit_count
                == p.compact_eval_inhibit_count + 1
            &&& q.force_full_dirty
        },
        w.upper && auth.ir_spine && !w.beyond ==> {
            let q = delivered_state(idx, auth, w, p);
            &&& q.compact_eval_inhibit == p.compact_eval_inhibit
            &&& q.compact_eval_inhibit_count == p.compact_eval_inhibit_count
            &&& q.force_full_dirty <==> p.force_full_dirty || idx.upper_bank_dirty_indices@.len()
                == 0
        },
        delivered_state(idx, auth, w, p).changed_regs_mask == p.changed_regs_mask,
{
}

/// What the spine delivers is marked for the settle; nothing is, and no value changes, where the
/// word comes from the lower half.
pub proof fn law_spine_marks_what_it_delivers(
    idx: V2CpuIndices,
    auth: Authority,
    ox: int,
    oy: int,
    w: FetchWord,
    g: Grid,
    t: int,
)
    requires
        0 <= t < g.dirty.len(),
    ensures
        !w.upper ==> with_delivery(idx, auth, ox, oy, w, g) == g,
        w.upper && auth.ir_spine && !w.beyond ==> {
            let h = with_delivery(idx, auth, ox, oy, w, g);
            &&& h.values == g.values
            &&& h.kinds == g.kinds
            &&& h.dirty[t] <==> g.dirty[t] || lists(idx.upper_bank_dirty_indices@, t)
        },
{
    assert forall|m: int| 0 <= m < idx.upper_bank_dirty_indices@.len() implies lists(
        idx.upper_bank_dirty_indices@,
        #[trigger] idx.upper_bank_dirty_indices@[m] as int,
    ) by {};
}

proof fn lemma_lanes_at(idx: V2CpuIndices, w: FetchWord, n: nat, g: Grid)
    requires
        n <= 4,
        apart(idx.rom_selected_indices@, 4, g),
    ensures
        with_lanes(idx, w, n, g).values.len() == g.values.len(),
        with_lanes(idx, w, n, g).dirty == g.dirty,
        with_lanes(idx, w, n, g).kinds == g.kinds,
        forall|k: int|
            0 <= k < n ==> with_lanes(idx, w, n, g).values[#[trigger] idx.rom_selected_indices@[k] as int]
                == w.lanes@[k],
        forall|t: int|
            0 <= t < g.values.len() && (forall|k: int|
                0 <= k < n ==> #[trigger] idx.rom_selected_indices@[k] != t)
                ==> #[trigger] with_lanes(idx, w, n, g).values[t] == g.values[t],
    decreases n,
{
    if n > 0 {
        lemma_lanes_at(idx, w, (n - 1) as nat, g);
    }
}

/// After the settle the four selected lanes hold the four bytes of the word, and no other tile has
/// changed.
pub proof fn law_selected_lanes_hold_the_word(
    idx: V2CpuIndices,
    w: FetchWord,
    g: Grid,
    k: int,
    t: int,
)
    requires
        apart(idx.rom_selected_indices@, 4, g),
        0 <= k < 4,
        0 <= t < g.values.len(),
        forall|i: int| 0 <= i < 4 ==> #[trigger] idx.rom_selected_indices@[i] != t,
    ensures
        with_lanes(idx, w, 4, g).values[idx.rom_selected_indices@[k] as int] == w.lanes@[k],
        with_lanes(idx, w, 4, g).values[t] == g.values[t],
        with_lanes(idx, w, 4, g).dirty == g.dirty,
{
    lemma_lanes_at(idx, w, 4, g);
}

/// Comparing the lanes counts four checks, and one mismatch for each lane that held another byte.
pub proof fn law_lane_comparisons_are_counted(
    idx: V2CpuIndices,
    w: FetchWord,
    g: Grid,
    c: CheckCounter,
)
    requires
        apart(idx.rom_selected_indices@, 4, g),
        c.checks + 4 <= u64::MAX,
        c.mismatches + 4 <= u64::MAX,
    ensures
        lane_checks(idx, w, 4, g, c).checks == c.checks + 4,
        lane_checks(idx, w, 4, g, c).mismatches == c.mismatches + (
        if g.values[idx.rom_selected_indices@[0] as int] != w.lanes@[0] {
            1int
        } else {
            0int
        }) + (if g.values[idx.rom_selected_indices@[1] as int] != w.lanes@[1] {
            1int
        } else {
            0int
        }) + (if g.values[idx.rom_selected_indices@[2] as int] != w.lanes@[2] {
            1int
        } else {
            0int
        }) + (if g.values[idx.rom_selected_indices@[3] as int] != w.lanes@[3] {
            1int
        } else {
            0int
        }),
{
    reveal_with_fuel(lane_checks, 5);
    lemma_lanes_at(idx, w, 0, g);
    lemma_lanes_at(idx, w, 1, g);
    lemma_lanes_at(idx, w, 2, g);
    lemma_lanes_at(idx, w, 3, g);
    let s = idx.rom_selected_indices@;
    assert(s[0] < g.values.len() && s[1] < g.values.len() && s[2] < g.values.len() && s[3]
        < g.values.len());
    assert(with_lanes(idx, w, 1, g).values[s[1] as int] == g.values[s[1] as int]);
    assert(with_lanes(idx, w, 2, g).values[s[2] as int] == g.values[s[2] as int]);
    assert(with_lanes(idx, w, 3, g).values[s[3] as int] == g.values[s[3] as int]);
}

proof fn lemma_selectors_agree(idx: V2CpuIndices, a: Seq<u64>, b: Seq<u64>, n: nat, g: Grid)
    ensures
        !selectors_differ(idx, a, b, n, g) ==> with_selectors(idx, a, b, n, g) == g,
        !selectors_differ(idx, a, b, n, g) ==> forall|i: int|
            0 <= i < n ==> {
                &&& (g.values[#[trigger] idx.high_tree_a_sel_const_indices@[i] as int] != 0) == (a[i]
                    != 0)
                &&& (g.values[idx.high_tree_b_sel_const_indices@[i] as int] != 0) == (b[i] != 0)
            },
    decreases n,
{
    if n > 0 {
        lemma_selectors_agree(idx, a, b, (n - 1) as nat, g);
    }
}

proof fn lemma_selectors_at(idx: V2CpuIndices, a: Seq<u64>, b: Seq<u64>, n: nat, g: Grid)
    requires
        n <= 7,
        selects_apart(idx, g),
    ensures
        with_selectors(idx, a, b, n, g).values.len() == g.values.len(),
        with_selectors(idx, a, b, n, g).dirty.len() == g.dirty.len(),
        forall|i: int|
            0 <= i < n ==> {
                &&& (with_selectors(idx, a, b, n, g).values[#[trigger] idx.high_tree_a_sel_const_indices@[i] as int]
                    != 0) == (a[i] != 0)
                &&& (with_selectors(idx, a, b, n, g).values[idx.high_tree_b_sel_const_indices@[i] as int]
                    != 0) == (b[i] != 0)
            },
        forall|i: int|
            n <= i < 7 ==> {
                &&& with_selectors(idx, a, b, n, g).values[#[trigger] idx.high_tree_a_sel_const_indices@[i] as int]
                    == g.values[idx.high_tree_a_sel_const_indices@[i] as int]
                &&& with_selectors(idx, a, b, n, g).values[idx.high_tree_b_sel_const_indices@[i] as int]
                    == g.values[idx.high_tree_b_sel_const_indices@[i] as int]
            },
        selectors_differ(idx, a, b, n, g) <==> exists|i: int|
            0 <= i < n && {
                ||| (g.values[#[trigger] idx.high_tree_a_sel_const_indices@[i] as int] != 0) != (
                a[i] != 0)
                ||| (g.values[idx.high_tree_b_sel_const_indices@[i] as int] != 0) != (b[i] != 0)
            },
    decreases n,
{
    if n > 0 {
        lemma_selectors_at(idx, a, b, (n - 1) as nat, g);
        let la = idx.high_tree_a_sel_const_indices@;
        let lb = idx.high_tree_b_sel_const_indices@;
        assert(la[n - 1] != lb[n - 1]);
        assert forall|i: int| 0 <= i < 7 && i != n - 1 implies #[trigger] la[i] != la[n - 1] && lb[i]
            != lb[n - 1] && la[i] != lb[n - 1] && lb[i] != la[n - 1] by {
            if i < n - 1 {
                assert(la[i] != la[n - 1]);
                assert(lb[i] != lb[n - 1]);
            } else {
                assert(la[n - 1] != la[i]);
                assert(lb[n - 1] != lb[i]);
            }
            assert(la[i] != lb[n - 1]);
            assert(la[n - 1] != lb[i]);
        }
    }
}

/// The selector tiles of the two high trees are fourteen tiles of the grid.
pub open spec fn selects_apart(idx: V2CpuIndices, g: Grid) -> bool {
    &&& apart(idx.high_tree_a_sel_const_indices@, 7, g)
    &&& apart(idx.high_tree_b_sel_const_indices@, 7, g)
    &&& g.dirty.len() == g.values.len()
    &&& forall|j: int, k: int|
        0 <= j < 7 && 0 <= k < 7 ==> #[trigger] idx.high_tree_a_sel_const_indices@[j]
            != #[trigger] idx.high_tree_b_sel_const_indices@[k]
}

/// A settle is repeated exactly where some selector of the high trees is at the wrong level, and
/// after the correction all are at the right one. Where none is wrong nothing is corrected.
pub proof fn law_selectors_are_corrected(
    idx: V2CpuIndices,
    a: Seq<u64>,
    b: Seq<u64>,
    g: Grid,
    i: int,
)
    requires
        selects_apart(idx, g),
        0 <= i < 7,
    ensures
        (with_selectors(idx, a, b, 7, g).values[idx.high_tree_a_sel_const_indices@[i] as int] != 0)
            == (a[i] != 0),
        (with_selectors(idx, a, b, 7, g).values[idx.high_tree_b_sel_const_indices@[i] as int] != 0)
            == (b[i] != 0),
        !selectors_differ(idx, a, b, 7, g) ==> with_selectors(idx, a, b, 7, g) == g,
        (g.values[idx.high_tree_a_sel_const_indices@[i] as int] != 0) != (a[i] != 0)
            ==> selectors_differ(idx, a, b, 7, g),
        (g.values[idx.high_tree_b_sel_const_indices@[i] as int] != 0) != (b[i] != 0)
            ==> selectors_differ(idx, a, b, 7, g),
        (forall|k: int|
            0 <= k < 7 ==> (g.values[#[trigger] idx.high_tree_a_sel_const_indices@[k] as int] != 0)
                == (a[k] != 0) && (g.values[idx.high_tree_b_sel_const_indices@[k] as int] != 0) == (
            b[k] != 0)) ==> !selectors_differ(idx, a, b, 7, g),
{
    lemma_selectors_at(idx, a, b, 7, g);
    lemma_selectors_agree(idx, a, b, 7, g);
}

/// The immediate's tiles that differ from it are counted one by one.
pub proof fn law_immediate_tiles_are_compared(g: Grid, ox: int, oy: int, v: u64, n: nat)
    requires
        0 < n <= 8,
    ensures
        immediate_differences(g, ox, oy, v, 0) == 0,
        immediate_differences(g, ox, oy, v, n) <= n,
        g.values[(oy + 37) * g.width + ox + 18 + 4 * (n - 1)] == v ==> immediate_differences(
            g,
            ox,
            oy,
            v,
            n,
        ) == immediate_differences(g, ox, oy, v, (n - 1) as nat),
        g.values[(oy + 37) * g.width + ox + 18 + 4 * (n - 1)] != v ==> immediate_differences(
            g,
            ox,
            oy,
            v,
            n,
        ) == immediate_differences(g, ox, oy, v, (n - 1) as nat) + 1,
    decreases n,
{
    let w = g.width;
    let h = g.height;
    crate::stage_laws::law_where_the_decoder_lies(w as int, h as int, ox, oy, n - 1);
    if n > 1 {
        law_immediate_tiles_are_compared(g, ox, oy, v, (n - 1) as nat);
    }
}

/// A word from above is compared with what reached the decoder: through the spine with its two
/// inputs, as one, and the eight immediates; else with the inputs alone. One of the lower half is
/// not compared.
pub proof fn law_deliveries_are_compared(
    auth: Authority,
    g: Grid,
    ox: int,
    oy: int,
    w: FetchWord,
    c: Checks,
    differs: bool,
    n: int,
)
    requires
        differs == ingress_differs(g, ox, oy, w),
        n == immediate_differences(g, ox, oy, w.lanes@[0], 8),
        n <= 8,
        c.ir_spine.checks < u64::MAX,
        c.ir_spine.mismatches + 9 <= u64::MAX,
        c.upper_bank_ir.checks < u64::MAX,
        c.upper_bank_ir.mismatches < u64::MAX,
    ensures
        differs <==> g.values[(oy + 4) * g.width + ox + 13] != w.lanes@[1] || g.values[g.width
            * g.height + (oy + 4) * g.width + ox + 1] != w.lanes@[0],
        !w.upper ==> delivery_checks(auth, g, ox, oy, w, c) == c,
        w.upper && auth.ir_spine ==> {
            let d = delivery_checks(auth, g, ox, oy, w, c);
            &&& d.ir_spine.checks == c.ir_spine.checks + 1
            &&& differs ==> d.ir_spine.mismatches == c.ir_spine.mismatches + 1 + n
            &&& !differs ==> d.ir_spine.mismatches == c.ir_spine.mismatches + n
            &&& d.upper_bank_ir == c.upper_bank_ir
        },
        w.upper && !auth.ir_spine ==> {
            let d = delivery_checks(auth, g, ox, oy, w, c);
            &&& d.upper_bank_ir.checks == c.upper_bank_ir.checks + 1
            &&& differs ==> d.upper_bank_ir.mismatches == c.upper_bank_ir.mismatches + 1
            &&& !differs ==> d.upper_bank_ir.mismatches == c.upper_bank_ir.mismatches
            &&& d.ir_spine == c.ir_spine
        },
{
    crate::stage_laws::law_where_the_decoder_lies(g.width as int, g.height as int, ox, oy, 0);
}

/// The order of the fetch stage: the cone settles, then the pipeline with the word, once more where
/// selectors were wrong, once more for a wide constant, and then the latch is filled.
pub proof fn law_order_of_the_fetch(
    a: TileCpuV2,
    g: Grid,
    b: TileCpuV2,
    h: Grid,
    at: StageF,
    block: Option<Seq<u64>>,
    to: StageF,
)
    requires
        stage_f_steps(a, g, b, h, at, block, to),
    ensures
        at is Start ==> to is Cone,
        at is Cone ==> to is Settle,
        at matches StageF::Settle(w) ==> {
            ||| to == StageF::Resettle(w)
            ||| to == StageF::WideLoad(w)
            ||| to == StageF::Control(w)
        },
        at matches StageF::Settle(w) ==> !a.auth.via_decode ==> !(to is Resettle),
        at matches StageF::Settle(w) ==> to is WideLoad ==> a.auth.wb_data && w.opcode == 0x03 && (
        w.ir_ext / 4) % 2 == 1,
        at matches StageF::Resettle(w) ==> if a.auth.wb_data && w.opcode == 0x03 && (w.ir_ext / 4)
            % 2 == 1 {
            to == StageF::WideLoad(w)
        } else {
            to == StageF::Control(w)
        },
        at matches StageF::WideLoad(w) ==> to == StageF::Control(w) && b == a,
        at is Control ==> to is Done,
        at is Done ==> to == at && b == a && h == g,
        at is Start ==> b.arch.regs == a.arch.regs && b.arch.flag_z == a.arch.flag_z
            && b.arch.flag_c == a.arch.flag_c && b.mem == a.mem && !b.pipe.force_full_dirty
            && b.pipe.changed_regs_mask == 0,
        at is Cone ==> b.arch == a.arch && b.mem == a.mem,
        at is WideLoad ==> b.arch == a.arch && b.mem == a.mem,
        at is Resettle ==> b.arch == a.arch && b.mem == a.mem,
        at is Control ==> b.arch == a.arch && b.mem == a.mem,
        at matches StageF::Control(w) ==> to matches StageF::Done(l) && l.valid && l.pc == w.pc
            && l.opcode == w.opcode && l.rd == w.rd && l.ir_low == w.ir_low && l.ir_ext == w.ir_ext,
{
}

/// In the lower half an operand gate in force compares the first operand of every instruction, and
/// the second of those that use it, with the registers' tiles; elsewhere nothing is compared. The
/// latch keeps what the two trees hold.
pub proof fn law_fetched_operands_are_compared(
    a: TileCpuV2,
    g: Grid,
    b: TileCpuV2,
    h: Grid,
    w: FetchWord,
    block: Option<Seq<u64>>,
    l: PipelineLatch,
    rd: int,
)
    requires
        fetch_finished(a, g, b, h, w, block, l),
        rd == w.rd + 8 * (w.ir_ext % 2),
        w.rd < 8,
        w.rs_lo < 8,
        a.gates.operand.checks + 2 <= u64::MAX,
        a.gates.operand.mismatches + 2 <= u64::MAX,
    ensures
        l.phys_top_a == g.values[a.idx.op_a_root_idx as int],
        l.phys_top_b == g.values[a.idx.op_b_root_idx as int],
        !a.gates.operand.enabled || (w.pc / 64) % 2 == 1 ==> b.gates.operand == a.gates.operand
            && b.checks.operand == a.checks.operand,
        a.gates.operand.enabled && (w.pc / 64) % 2 == 0 && w.opcode == 0x03
            ==> b.gates.operand.checks == a.gates.operand.checks + 1,
        a.gates.operand.enabled && (w.pc / 64) % 2 == 0 && 0x04 <= w.opcode <= 0x08
            ==> b.gates.operand.checks == a.gates.operand.checks + 2,
        a.gates.operand.enabled && (w.pc / 64) % 2 == 0 && w.opcode == 0x03
            && g.values[a.idx.op_a_root_idx as int] != g.values[a.idx.reg_indices@[rd] as int]
            ==> b.gates.operand.mismatches == a.gates.operand.mismatches + 1,
        a.gates.operand.enabled && (w.pc / 64) % 2 == 0 && w.opcode == 0x03
            && g.values[a.idx.op_a_root_idx as int] == g.values[a.idx.reg_indices@[rd] as int]
            ==> b.gates.operand.mismatches == a.gates.operand.mismatches,
        !a.auth.operand ==> b.checks.operand == a.checks.operand,
        !a.auth.decode ==> b.checks.decode_ctrl_b == a.checks.decode_ctrl_b,
        b.arch == a.arch && b.mem == a.mem,
{
}

/// Once the pipeline has settled, the adder's constant enable is cleared that a passed-through word
/// had set, and a forced word no longer holds off compact evaluation.
pub proof fn law_fetch_releases_what_it_held(a: TileCpuV2, g: Grid, w: FetchWord, t: int)
    requires
        a.idx.alu_add_l_enable_idx < g.values.len(),
        0 <= t < g.values.len(),
        t != a.idx.alu_add_l_enable_idx,
    ensures
        pre_injected(a.auth, w) ==> fetch_freed(a, g, w).values[a.idx.alu_add_l_enable_idx as int]
            == 0,
        !pre_injected(a.auth, w) ==> fetch_freed(a, g, w).values == g.values,
        fetch_freed(a, g, w).values[t] == g.values[t],
        w.upper && (!a.auth.ir_spine || w.beyond) ==> !fetch_delivered(
            a,
            g,
            w,
        ).pipe.compact_eval_inhibit,
        !w.upper || (a.auth.ir_spine && !w.beyond) ==> fetch_delivered(
            a,
            g,
            w,
        ).pipe.compact_eval_inhibit == a.pipe.compact_eval_inhibit,
        fetch_delivered(a, g, w).arch == a.arch,
{
}

/// A settle's cause is counted once where the settle is asked for, and nothing is where it is not.
pub proof fn law_causes_are_counted(
    a: PropCounters,
    b: PropCounters,
    cause: int,
    yes: bool,
    other: int,
)
    requires
        cause_counted_if(a, b, cause, yes),
        0 <= cause < 7,
        0 <= other < 7,
        other != cause,
        a.settle_reason_counts@[cause] < u64::MAX,
    ensures
        yes ==> b.settle_reason_counts@[cause] == a.settle_reason_counts@[cause] + 1,
        !yes ==> b.settle_reason_counts@[cause] == a.settle_reason_counts@[cause],
        b.settle_reason_counts@[other] == a.settle_reason_counts@[other],
        b.propagate_calls_total == a.propagate_calls_total,
{
}

/// After the fetch a wide constant's settle follows where its injection is asked for.
pub proof fn law_wide_constants_take_a_settle(a: TileCpuV2, w: FetchWord)
    ensures
        a.auth.wb_data && w.opcode == 0x03 && (w.ir_ext / 4) % 2 == 1 ==> wide_state(a, w)
            == StageF::WideLoad(w),
        !(a.auth.wb_data && w.opcode == 0x03 && (w.ir_ext / 4) % 2 == 1) ==> wide_state(a, w)
            == StageF::Control(w),
{
}

} // verus!
