//! What device programs do to the cells, op by op and phase by phase.
use vstd::prelude::*;

use crate::cop;
use crate::device_alu::{DeviceAluProgram, DeviceOp};
use crate::device_model::{
    alu_result, bridge, consumed, decode, execute, kept, live_after_trunk, live_at_bridge,
    live_at_inject, live_step, run, taps_shaped, NamedOp, NamedProgram, Store, Taps,
};
use crate::device_pack::{split_bytes, value_reads};
use crate::device_plan::{AluKernel, DeviceLayout};
use crate::device_tables::{covers, seed_row};
use crate::simulation::Simulation;
use crate::warp_decode::read_slots;

verus! {

/// A run leaves alone every cell that none of its ops writes.
pub proof fn law_runs_leave_other_cells_alone(ops: Seq<NamedOp>, st: Store, c: int)
    requires
        forall|j: int| 0 <= j < ops.len() ==> (#[trigger] ops[j]).out != c,
    ensures
        run(ops, st)(c) == st(c),
    decreases ops.len(),
{
    if ops.len() > 0 {
        let init = ops.drop_last();
        assert forall|j: int| 0 <= j < init.len() implies (#[trigger] init[j]).out != c by {
            assert(init[j] == ops[j]);
        }
        law_runs_leave_other_cells_alone(init, st, c);
        assert(ops[ops.len() - 1].out != c);
    }
}

/// After a run every op's output is what the op gives for the values that its inputs have then,
/// where no later op writes its output again and neither it nor a later op writes an input: each op
/// has worked on the results of the ops before it.
pub proof fn law_runs_evaluate_every_op(ops: Seq<NamedOp>, st: Store, j: int, v: Seq<u64>)
    requires
        0 <= j < ops.len(),
        cop::is_combinational(ops[j].code),
        ops[j].ins.len() == 7,
        forall|k: int| j < k < ops.len() ==> (#[trigger] ops[k]).out != ops[j].out,
        forall|k: int, i: int|
            j <= k < ops.len() && 0 <= i < 7 ==> (#[trigger] ops[k]).out != #[trigger] ops[j].ins[i],
        v.len() == 7,
        forall|i: int| 0 <= i < 7 ==> #[trigger] v[i] == run(ops, st)(ops[j].ins[i]),
    ensures
        run(ops, st)(ops[j].out) == cop::op_value(
            ops[j].code,
            v,
            st(ops[j].out),
            ops[j].threshold,
            ops[j].shift,
            ops[j].mask,
        ),
    decreases ops.len(),
{
    let init = ops.drop_last();
    let last = ops.len() - 1;
    let before = run(init, st);
    assert(ops.last() == ops[last]);
    assert forall|i: int| 0 <= i < 7 implies #[trigger] before(ops[j].ins[i]) == v[i] by {
        assert(ops[last].out != ops[j].ins[i]);
        assert(v[i] == run(ops, st)(ops[j].ins[i]));
    }
    if j == last {
        let op = ops[j];
        assert(crate::device_model::in_values(op, before) =~= v);
        cop::lemma_op_value_reads(
            op.code,
            v,
            v,
            before(op.out),
            st(op.out),
            op.threshold,
            op.shift,
            op.mask,
        );
    } else {
        assert(init[j] == ops[j]);
        assert forall|k: int| j < k < init.len() implies (#[trigger] init[k]).out
            != init[j].out by {
            assert(init[k] == ops[k]);
        }
        assert forall|k: int, i: int| j <= k < init.len() && 0 <= i < 7 implies (
        #[trigger] init[k]).out != #[trigger] init[j].ins[i] by {
            assert(init[k] == ops[k]);
            assert(ops[k].out != ops[j].ins[i]);
        }
        law_runs_evaluate_every_op(init, st, j, v);
        assert(ops[last].out != ops[j].out);
    }
}

/// The cells that a bridge writes differ from each other and from those that it reads.
pub open spec fn taps_apart(t: Taps) -> bool {
    &&& taps_shaped(t)
    &&& forall|i: int, j: int|
        0 <= i < 4 && 0 <= j < 4 && i != j ==> #[trigger] t.inject[i] != #[trigger] t.inject[j]
    &&& forall|i: int, j: int|
        0 <= i < 4 && 0 <= j < 4 && i != j ==> #[trigger] t.inject_right[i]
            != #[trigger] t.inject_right[j]
    &&& forall|i: int, j: int|
        0 <= i < 4 && 0 <= j < 4 ==> #[trigger] t.inject[i] != #[trigger] t.inject_right[j]
    &&& forall|i: int, j: int|
        0 <= i < 4 && 0 <= j < 4 ==> #[trigger] t.inject[i] != #[trigger] t.final_mux[j]
    &&& forall|i: int, j: int|
        0 <= i < 4 && 0 <= j < 4 ==> #[trigger] t.inject_right[i] != #[trigger] t.final_mux[j]
    &&& forall|i: int, b: int, j: int|
        0 <= i < 4 && 0 <= b < 4 && 0 <= j < 4 ==> #[trigger] t.inject[i]
            != #[trigger] t.bank47[b][j]
    &&& forall|i: int, b: int, j: int|
        0 <= i < 4 && 0 <= b < 4 && 0 <= j < 4 ==> #[trigger] t.inject_right[i]
            != #[trigger] t.bank47[b][j]
}

proof fn lemma_bridge(t: Taps, bw: int, n: nat, st: Store)
    requires
        taps_apart(t),
        0 <= bw < 4,
        n <= 4,
    ensures
        forall|i: int|
            0 <= i < n ==> bridge(t, bw, n, st)(#[trigger] t.inject_right[i]) == st(t.final_mux[i]),
        forall|i: int|
            0 <= i < n ==> bridge(t, bw, n, st)(#[trigger] t.inject[i]) == st(t.bank47[bw][i]),
        forall|c: int|
            !t.inject.contains(c) && !t.inject_right.contains(c) ==> #[trigger] bridge(
                t,
                bw,
                n,
                st,
            )(c) == st(c),
    decreases n,
{
    if n > 0 {
        let m = (n - 1) as nat;
        lemma_bridge(t, bw, m, st);
        let b = bridge(t, bw, m, st);
        let k = m as int;
        assert(!t.inject.contains(t.final_mux[k]) && !t.inject_right.contains(t.final_mux[k]));
        assert(!t.inject.contains(t.bank47[bw][k]) && !t.inject_right.contains(t.bank47[bw][k]));
        assert(b(t.final_mux[k]) == st(t.final_mux[k]));
        assert(b(t.bank47[bw][k]) == st(t.bank47[bw][k]));
        assert(t.inject_right[k] != t.bank47[bw][k]);
        assert(t.inject[k] != t.inject_right[k]);
        assert(t.inject.contains(t.inject[k]) && t.inject_right.contains(t.inject_right[k]));
        assert forall|i: int| 0 <= i < n implies bridge(t, bw, n, st)(
            #[trigger] t.inject_right[i],
        ) == st(t.final_mux[i]) by {
            if i < m {
                assert(t.inject_right[i] != t.inject_right[k]);
                assert(t.inject[k] != t.inject_right[i]);
            }
        }
        assert forall|i: int| 0 <= i < n implies bridge(t, bw, n, st)(#[trigger] t.inject[i]) == st(
            t.bank47[bw][i],
        ) by {
            if i < m {
                assert(t.inject[i] != t.inject[k]);
                assert(t.inject[i] != t.inject_right[k]);
            }
        }
    }
}

/// After decoding an address the selectors' right inputs hold what the lower banks' multiplexers
/// hold, and their left inputs what the multiplexer of the address' own bank among banks 4 to 7
/// holds, which bits 4 and 5 of the address name; the program counter's tile holds the address. The
/// settle stream writes none of these cells.
pub proof fn law_decoding_bridges_the_banks(p: NamedProgram, pc: u64, st: Store, i: int)
    requires
        taps_apart(p.taps),
        0 <= i < 4,
        forall|j: int| 0 <= j < p.settle.len() ==> {
            &&& (#[trigger] p.settle[j]).out != p.taps.inject_right[i]
            &&& p.settle[j].out != p.taps.inject[i]
            &&& p.settle[j].out != p.taps.final_mux[i]
            &&& p.settle[j].out != p.taps.bank47[(pc as int / 16) % 4][i]
            &&& p.settle[j].out != p.taps.pc
        },
        forall|j: int| 0 <= j < p.cone.len() ==> (#[trigger] p.cone[j]).out != p.taps.pc,
        !p.taps.inject.contains(p.taps.pc),
        !p.taps.inject_right.contains(p.taps.pc),
    ensures
        decode(p, pc, st)(p.taps.inject_right[i]) == decode(p, pc, st)(p.taps.final_mux[i]),
        decode(p, pc, st)(p.taps.inject[i]) == decode(p, pc, st)(
            p.taps.bank47[(pc as int / 16) % 4][i],
        ),
        decode(p, pc, st)(p.taps.pc) == pc,
{
    let t = p.taps;
    let bw = (pc as int / 16) % 4;
    let s0 = crate::device_model::put(st, t.pc, pc);
    let s1 = run(p.cone, s0);
    let s2 = bridge(t, bw, 4, s1);
    lemma_bridge(t, bw, 4, s1);
    assert(!t.inject.contains(t.final_mux[i]) && !t.inject_right.contains(t.final_mux[i]));
    assert(!t.inject.contains(t.bank47[bw][i]) && !t.inject_right.contains(t.bank47[bw][i]));
    law_runs_leave_other_cells_alone(p.settle, s2, t.inject_right[i]);
    law_runs_leave_other_cells_alone(p.settle, s2, t.inject[i]);
    law_runs_leave_other_cells_alone(p.settle, s2, t.final_mux[i]);
    law_runs_leave_other_cells_alone(p.settle, s2, t.bank47[bw][i]);
    law_runs_leave_other_cells_alone(p.settle, s2, t.pc);
    law_runs_leave_other_cells_alone(p.cone, s0, t.pc);
}

/// The trunk works on the two operands that are handed to it: after it their terminals hold them,
/// unless it writes those itself, and what it does not write is as decoding left it. The result is
/// what the root holds then.
pub proof fn law_the_trunk_works_on_the_operands(
    p: NamedProgram,
    pc: u64,
    a: u64,
    b: u64,
    st: Store,
    c: int,
)
    requires
        p.taps.a_term != p.taps.b_term,
        forall|j: int|
            0 <= j < p.trunk.len() ==> (#[trigger] p.trunk[j]).out != p.taps.a_term
                && p.trunk[j].out != p.taps.b_term && p.trunk[j].out != c,
        c != p.taps.a_term,
        c != p.taps.b_term,
    ensures
        execute(p, a, b, st)(p.taps.a_term) == a,
        execute(p, a, b, st)(p.taps.b_term) == b,
        execute(p, a, b, st)(c) == st(c),
        alu_result(p, pc, a, b, st) == execute(p, a, b, decode(p, pc, st))(p.taps.root),
{
    let s = crate::device_model::put(
        crate::device_model::put(st, p.taps.a_term, a),
        p.taps.b_term,
        b,
    );
    law_runs_leave_other_cells_alone(p.trunk, s, p.taps.a_term);
    law_runs_leave_other_cells_alone(p.trunk, s, p.taps.b_term);
    law_runs_leave_other_cells_alone(p.trunk, s, c);
}

/// An op that pruning keeps is needed: its output is asked for behind the stream, or a later op that
/// is kept reads it.
pub proof fn law_kept_ops_are_needed(ops: Seq<NamedOp>, live: Set<int>, j: int)
    requires
        0 <= j < kept(ops, live).len(),
    ensures
        live.contains(kept(ops, live)[j].out) || exists|i: int|
            j < i < kept(ops, live).len() && consumed(#[trigger] kept(ops, live)[i]).contains(
                kept(ops, live)[j].out,
            ),
    decreases ops.len(),
{
    let last = ops.last();
    let before = live_step(last, live);
    let rest = kept(ops.drop_last(), before);
    let all = kept(ops, live);
    if live.contains(last.out) && j == rest.len() {
        assert(all[j] == last);
    } else {
        law_kept_ops_are_needed(ops.drop_last(), before, j);
        assert(all[j] == rest[j]);
        let c = rest[j].out;
        if before.contains(c) && !live.contains(c) {
            assert(consumed(last).contains(c));
            assert(all[rest.len() as int] == last);
        } else if !live.contains(c) {
            let i = choose|i: int|
                j < i < rest.len() && consumed(#[trigger] rest[i]).contains(rest[j].out);
            assert(all[i] == rest[i]);
        }
    }
}

/// The cells that an op consumes are those that its inputs name, and for a memory op its output.
pub proof fn law_consumed_cells(op: NamedOp, c: int)
    requires
        op.ins.len() == 7,
    ensures
        consumed(op).contains(c) <==> (op.ins.contains(c) || (op.code == cop::COP_RAM && c
            == op.out)),
{
    if op.ins.contains(c) {
        let k = choose|k: int| 0 <= k < 7 && op.ins[k] == c;
        assert(op.ins[k] == c);
    }
}

/// What is asked for behind each phase: behind the trunk the root alone; behind the settle stream
/// what the trunk needs, without the operands that are handed to it; behind the cone what the
/// bridge reads, and what the settle stream needs without what the bridge writes.
pub proof fn law_what_each_phase_is_asked_for(p: NamedProgram, live: Set<int>, c: int)
    ensures
        live_after_trunk(p).contains(c) <==> c == p.taps.root,
        live_at_inject(p.taps, live).contains(c) <==> live.contains(c) && c != p.taps.a_term && c
            != p.taps.b_term,
        taps_shaped(p.taps) && !p.taps.inject.contains(c) && !p.taps.inject_right.contains(c) && live.contains(
            c,
        ) ==> live_at_bridge(p.taps, live).contains(c),
        p.taps.final_mux.contains(c) ==> live_at_bridge(p.taps, live).contains(c),
        live_at_bridge(p.taps, live).contains(c) && !p.taps.final_mux.contains(c) && !(exists|b: int|
            0 <= b < 4 && (#[trigger] p.taps.bank47[b]).contains(c)) ==> live.contains(c)
            && !p.taps.inject.contains(c) && !p.taps.inject_right.contains(c),
{
}

/// A plan's stream takes its ops one after another, without the constants. An op has its own code,
/// output and operands, the shift and mask beside it, and for a threshold via the four neighbours
/// and the threshold beside it; other ops have no neighbours. Tile `zero_row` is the zero row.
pub proof fn law_streams_hold_the_plans_ops(k: AluKernel, zero_row: u32, i: int, n: int)
    requires
        0 <= i < k.op_len(),
        0 <= n < 4,
    ensures
        k.stream(zero_row, 0).len() == 0,
        k.ops@[i].op == cop::COP_CONST ==> k.stream(zero_row, (i + 1) as nat) == k.stream(
            zero_row,
            i as nat,
        ),
        k.ops@[i].op != cop::COP_CONST ==> {
            let s = k.stream(zero_row, (i + 1) as nat);
            let o = k.ops@[i];
            &&& s.len() == k.stream(zero_row, i as nat).len() + 1
            &&& s.drop_last() == k.stream(zero_row, i as nat)
            &&& s.last().code == o.op
            &&& o.idx != zero_row ==> s.last().out == o.idx
            &&& o.in0 != zero_row ==> s.last().ins[0] == o.in0
            &&& o.in1 != zero_row ==> s.last().ins[1] == o.in1
            &&& o.in2 != zero_row ==> s.last().ins[2] == o.in2
            &&& o.in0 == zero_row ==> s.last().ins[0] == -1
            &&& o.in1 == zero_row ==> s.last().ins[1] == -1
            &&& o.in2 == zero_row ==> s.last().ins[2] == -1
            &&& s.last().shift == k.wvia@[i].0
            &&& s.last().mask == k.wvia@[i].1
            &&& o.op == cop::COP_THRESHOLD_VIA ==> s.last().threshold == k.tvia@[i].threshold && (
            k.tvia@[i].neighbors@[n] != zero_row ==> s.last().ins[3 + n]
                == k.tvia@[i].neighbors@[n])
            &&& o.op != cop::COP_THRESHOLD_VIA ==> s.last().ins[3 + n] == -1
        },
{
    let s = k.stream(zero_row, (i + 1) as nat);
    if k.ops@[i].op != cop::COP_CONST {
        assert(s.drop_last() =~= k.stream(zero_row, i as nat));
    }
}

/// The taps of a plan's program are the tiles that its layout names; lane `i` of bank `4 + b` is
/// entry `4 * b + i` of the banks' multiplexers.
pub proof fn law_taps_are_the_layouts_tiles(l: DeviceLayout, b: int, i: int)
    requires
        0 <= b < 4,
        0 <= i < 4,
    ensures
        l.taps().pc == l.pc_idx,
        l.taps().final_mux[i] == l.final_mux_indices@[i],
        l.taps().inject_right[i] == l.super_mux_inject_right_indices@[i],
        l.taps().inject[i] == l.super_mux_inject_indices@[i],
        l.taps().bank47[b][i] == l.bank47_mux_indices@[4 * b + i],
        l.taps().a_term == l.alu_a_trunk_terminal_idx,
        l.taps().b_term == l.alu_b_trunk_terminal_idx,
        l.taps().root == l.wb_alu_root_idx,
{
}

/// A seeded row holds in each slot what the grid holds in the slot's tile, and zero in the last one.
pub proof fn law_seeds_are_the_grids_values(p: DeviceAluProgram, sim: Simulation, s: int)
    requires
        p.wf(),
        covers(sim, p),
        0 <= s < p.n_slots,
    ensures
        seed_row(p, sim).len() == p.n_slots,
        s < p.n_slots - 1 ==> seed_row(p, sim)[s] == sim.values@[p.touched@[s] as int],
        s == p.n_slots - 1 ==> seed_row(p, sim)[s] == 0,
{
}

/// An op's read slots are the slots of the inputs that it reads; a memory op, and an op without a
/// rule of its own, also read their output.
pub proof fn law_read_slots_are_the_inputs_read(op: DeviceOp, s: u32)
    ensures
        read_slots(op).contains(s) <==> ((exists|k: int|
            0 <= k < 7 && cop::reads_input(op.code, k) && #[trigger] op.ins@[k] == s) || (
        !cop::is_combinational(op.code) && op.out == s)),
{
    let r = read_slots(op);
    if r.contains(s) {
        let i = choose|i: int| 0 <= i < r.len() && r[i] == s;
        assert(r[i] == s);
        assert(op.ins@[0] == op.ins@[0] && op.ins@[1] == op.ins@[1] && op.ins@[2] == op.ins@[2]);
        assert(op.ins@[3] == op.ins@[3] && op.ins@[4] == op.ins@[4] && op.ins@[5] == op.ins@[5]);
        assert(op.ins@[6] == op.ins@[6]);
    }
    if exists|k: int| 0 <= k < 7 && cop::reads_input(op.code, k) && #[trigger] op.ins@[k] == s {
        let k = choose|k: int|
            0 <= k < 7 && cop::reads_input(op.code, k) && #[trigger] op.ins@[k] == s;
        let i = crate::warp_decode::lemma_reads_covered(op, k);
        assert(r[i] == s);
    }
    if !cop::is_combinational(op.code) && op.out == s {
        assert(r[r.len() - 1] == s);
    }
}

/// The values that the traffic estimate counts for an op are those it reads.
pub proof fn law_traffic_counts_the_reads(op: DeviceOp)
    ensures
        value_reads(op.code) == read_slots(op).len(),
        cop::is_combinational(op.code) && op.code != cop::COP_WVIA && op.code
            != cop::COP_THRESHOLD_VIA ==> split_bytes(op.code) == 8 + 4 * read_slots(op).len(),
{
}

} // verus!
