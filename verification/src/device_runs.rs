//! Built programs over whole runs, with and without dead-op elimination.
use vstd::prelude::*;

use crate::cop;
use crate::device_alu::{built_program, built_slots, mention_order, mentions, DeviceAluProgram};
use crate::device_eval::{
    alu_slots, decode_slots, execute_slots, law_slots_match_cells, represents,
};
use crate::device_model::{
    all_known, cycles, law_pruning_is_exact_over_runs, law_pruning_only_drops, live_after_cone,
    live_after_settle, live_after_trunk, live_at_start, pruned, spares, taps_shaped, Driver, Store,
};
use crate::device_plan::{AluKernel, CompactOp, DeviceCyclePlan};
use crate::device_tables::{covers, grid_store, lemma_seed_represents, seed_row};
use crate::simulation::Simulation;
use crate::slots::{names, select};

verus! {

/// The results of the first `n` cycles that a driver makes on a row, and the row after them.
pub open spec fn slot_cycles(
    p: DeviceAluProgram,
    next: Driver,
    vals: Seq<u64>,
    n: nat,
) -> (Seq<u64>, Seq<u64>)
    decreases n,
{
    if n == 0 {
        (Seq::empty(), vals)
    } else {
        let (results, before) = slot_cycles(p, next, vals, (n - 1) as nat);
        let (pc, a, b) = next(results);
        (
            results.push(alu_slots(p, pc, a, b, before)),
            execute_slots(p, a, b, decode_slots(p, pc, before)),
        )
    }
}

/// Whole runs on slots are whole runs on cells.
pub proof fn law_slot_runs_match_cells(
    p: DeviceAluProgram,
    next: Driver,
    vals: Seq<u64>,
    st: Store,
    n: nat,
)
    requires
        p.wf(),
        represents(p, vals, st),
    ensures
        slot_cycles(p, next, vals, n).0 == cycles(p.program(), next, st, n).0,
        represents(p, slot_cycles(p, next, vals, n).1, cycles(p.program(), next, st, n).1),
    decreases n,
{
    if n > 0 {
        let m = (n - 1) as nat;
        law_slot_runs_match_cells(p, next, vals, st, m);
        let (results, row) = slot_cycles(p, next, vals, m);
        let store = cycles(p.program(), next, st, m).1;
        let (pc, a, b) = next(results);
        law_slots_match_cells(p, pc, a, b, row, store);
    }
}

/// No op that is left out of the plan's program writes a cell that a cycle can read before it
/// writes it.
pub open spec fn carries_nothing_dropped(plan: DeviceCyclePlan) -> bool {
    spares(plan.program(), live_at_start(plan.program()))
}

/// Building with and without dead-op elimination makes no difference to whole runs: seeded from
/// the same grid, and with rows that stay from one cycle to the next, both programs give the same
/// results, however those determine the later program counters and operands. Left out are plans
/// in which an op that no result of its own cycle needs feeds the next one.
pub proof fn law_built_programs_agree_over_runs(
    plan: DeviceCyclePlan,
    full: DeviceAluProgram,
    lean: DeviceAluProgram,
    sim: Simulation,
    next: Driver,
    n: nat,
)
    requires
        full.wf(),
        lean.wf(),
        full.program() == built_program(plan, false),
        lean.program() == built_program(plan, true),
        covers(sim, full),
        covers(sim, lean),
        all_known(plan.program().cone),
        all_known(plan.program().settle),
        all_known(plan.program().trunk),
        carries_nothing_dropped(plan),
    ensures
        slot_cycles(lean, next, seed_row(lean, sim), n).0 == slot_cycles(
            full,
            next,
            seed_row(full, sim),
            n,
        ).0,
{
    let st = grid_store(sim);
    lemma_seed_represents(full, sim);
    lemma_seed_represents(lean, sim);
    law_slot_runs_match_cells(full, next, seed_row(full, sim), st, n);
    law_slot_runs_match_cells(lean, next, seed_row(lean, sim), st, n);
    assert(taps_shaped(plan.program().taps));
    law_pruning_is_exact_over_runs(plan.program(), next, st, n);
}

/// The ops of a kernel that are no constants.
pub open spec fn computing_ops(k: AluKernel) -> Seq<CompactOp> {
    k.ops@.take(k.op_len() as int).filter(|o: CompactOp| o.op != cop::COP_CONST)
}

proof fn lemma_stream_len(k: AluKernel, zero_row: u32, n: nat)
    requires
        n <= k.op_len(),
    ensures
        k.stream(zero_row, n).len() == k.ops@.take(n as int).filter(
            |o: CompactOp| o.op != cop::COP_CONST,
        ).len(),
    decreases n,
{
    reveal(Seq::filter);
    if n > 0 {
        lemma_stream_len(k, zero_row, (n - 1) as nat);
        assert(k.ops@.take(n as int).drop_last() =~= k.ops@.take(n - 1));
    }
}

/// Without dead-op elimination the three phases have the ops of the plan that are no constants;
/// with it, no phase has more.
pub proof fn law_phase_counts(plan: DeviceCyclePlan)
    ensures
        built_program(plan, false).cone.len() == computing_ops(plan.cone).len(),
        built_program(plan, false).settle.len() == computing_ops(plan.settle).len(),
        built_program(plan, false).trunk.len() == computing_ops(plan.trunk).len(),
        built_program(plan, true).cone.len() <= built_program(plan, false).cone.len(),
        built_program(plan, true).settle.len() <= built_program(plan, false).settle.len(),
        built_program(plan, true).trunk.len() <= built_program(plan, false).trunk.len(),
{
    let p = plan.program();
    let zero = plan.cone.tile_count;
    lemma_stream_len(plan.cone, zero, plan.cone.op_len());
    lemma_stream_len(plan.settle, zero, plan.settle.op_len());
    lemma_stream_len(plan.trunk, zero, plan.trunk.op_len());
    law_pruning_only_drops(p.cone, live_after_cone(p));
    law_pruning_only_drops(p.settle, live_after_settle(p));
    law_pruning_only_drops(p.trunk, live_after_trunk(p));
}

proof fn lemma_select_bound<T>(v: Seq<T>, keep: Seq<bool>)
    ensures
        select(v, keep).len() <= v.len(),
    decreases v.len(),
{
    if v.len() > 0 {
        lemma_select_bound(v.drop_last(), keep);
    }
}

/// Dead-op elimination numbers a part of the same tiles, in the same order: those that it still
/// mentions.
pub proof fn law_pruned_tiles_are_some_of_all(
    plan: DeviceCyclePlan,
    full: DeviceAluProgram,
    lean: DeviceAluProgram,
)
    requires
        full.wf(),
        lean.wf(),
        names(full.touched@) == built_slots(plan, false),
        names(lean.touched@) == built_slots(plan, true),
    ensures
        names(lean.touched@) == select(
            names(full.touched@),
            Seq::new(
                full.touched@.len(),
                |i: int| mentions(pruned(plan.program()), full.touched@[i] as int),
            ),
        ),
        lean.n_slots <= full.n_slots,
{
    let all = mention_order(plan.program());
    let keep = Seq::new(all.len(), |i: int| mentions(pruned(plan.program()), all[i]));
    assert(names(full.touched@).len() == full.touched@.len());
    assert(keep =~= Seq::new(
        full.touched@.len(),
        |i: int| mentions(pruned(plan.program()), full.touched@[i] as int),
    ));
    lemma_select_bound(all, keep);
}

} // verus!
