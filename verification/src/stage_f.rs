//! Stage F as a sequence of steps: between two steps the grid settles, or a block of tiles is
//! driven.
use vstd::prelude::*;

use crate::commit::seq_of;
use crate::cpu::TileCpuV2;
use crate::decode::{
    acting_ctrl_b, check_byte2, check_delivery, check_selectors, decide_ctrl_b, delivery_checks,
    end_pass_through, end_pre_injection, finish_fetch, inject_wide_load, lane_checks, operand_gate,
    operand_of, operand_regs, raw_selectors_b, selectors_differ, settle_lanes, unforced,
    wide_load_injected, with_lanes, with_selectors, with_trees_cleared, with_wide_load,
};
use crate::fetch::{
    begin_fetch, decoder_fits, delivered_state, inject_fetch, pre_injected, rom_lanes, selectors_a,
    with_fetch, with_pipeline_marks, FetchWord,
};
use crate::gates::{CheckCounter, SynthGate};
use crate::latch::PipelineLatch;
use crate::pc_stage::tile_pc;
use crate::simulation::{Grid, Simulation};
use crate::state::{ArchState, Checks, PipelineState, PropCounters, SynthGates};
use crate::writeback::after_if;

verus! {

/// Where stage F is. Each state but the first and the last names what is done outside before the
/// next step.
pub enum StageF {
    /// Nothing is done yet.
    Start,
    /// Settle the cone that the fetch reads.
    Cone,
    /// Settle the pipeline with the fetched word injected.
    Settle(FetchWord),
    /// Settle the pipeline with its selectors corrected.
    Resettle(FetchWord),
    /// Settle the pipeline with a wide constant held.
    WideLoad(FetchWord),
    /// Drive the block for control byte B with the opcode's levels, where one is asked for.
    Control(FetchWord),
    /// The latch is filled.
    Done(PipelineLatch),
}

impl StageF {
    /// The word that the state carries has fields in range.
    pub open spec fn wf(self) -> bool {
        match self {
            StageF::Settle(w) => w.opcode < 32 && w.rd < 8 && w.rs_lo < 8,
            StageF::Resettle(w) => w.opcode < 32 && w.rd < 8 && w.rs_lo < 8,
            StageF::WideLoad(w) => w.opcode < 32 && w.rd < 8 && w.rs_lo < 8,
            StageF::Control(w) => w.opcode < 32 && w.rd < 8 && w.rs_lo < 8,
            _ => true,
        }
    }
}

/// The program counter is taken from the tiles, and what the fetch reads is marked.
pub open spec fn fetch_begun(a: TileCpuV2, g: Grid, b: TileCpuV2, h: Grid) -> bool {
    &&& b == (TileCpuV2 {
        arch: ArchState { pc: tile_pc(a.idx, a.mode, g), ..a.arch },
        pipe: PipelineState { force_full_dirty: false, changed_regs_mask: 0, ..a.pipe },
        ..a
    })
    &&& h == with_pipeline_marks(a.idx, a.pipe, g)
}

/// Only the counters of the settles' causes differ.
pub open spec fn cause_counted(a: PropCounters, b: PropCounters, cause: int) -> bool {
    &&& b.settle_reason_counts@ == a.settle_reason_counts@.update(
        cause,
        (a.settle_reason_counts@[cause] + 1) as u64,
    )
    &&& b == (PropCounters { settle_reason_counts: b.settle_reason_counts, ..a })
}

/// A cause is counted, if it is one.
pub open spec fn cause_counted_if(a: PropCounters, b: PropCounters, cause: int, yes: bool) -> bool {
    if yes {
        cause_counted(a, b, cause)
    } else {
        &&& b.settle_reason_counts@ == a.settle_reason_counts@
        &&& b == (PropCounters { settle_reason_counts: b.settle_reason_counts, ..a })
    }
}

/// The word at the program counter is fetched, and everything its settle needs is injected.
pub open spec fn fetch_injected(
    a: TileCpuV2,
    g: Grid,
    b: TileCpuV2,
    h: Grid,
    w: FetchWord,
) -> bool {
    let lanes = rom_lanes(a.idx, a.mode, a.program_ext@, tile_pc(a.idx, a.mode, g), g);
    let p = delivered_state(a.idx, a.auth, w, a.pipe);
    let f = with_fetch(
        a.idx,
        a.auth,
        a.origin.0 as int,
        a.origin.1 as int,
        w,
        a.arch.regs@,
        g,
    );
    &&& w.is_word(a.mode, a.auth, a.arch.pc, lanes)
    &&& h == if w.upper {
        with_pipeline_marks(a.idx, p, f)
    } else {
        f
    }
    &&& cause_counted(a.prop, b.prop, 0)
    &&& b == (TileCpuV2 {
        pipe: if w.upper {
            PipelineState { force_full_dirty: false, changed_regs_mask: 0, ..p }
        } else {
            p
        },
        prop: b.prop,
        ..a
    })
}

/// The grid once the fetch injection is undone and the decoder's inputs are free.
pub open spec fn fetch_freed(a: TileCpuV2, g: Grid, w: FetchWord) -> Grid {
    let e = if pre_injected(a.auth, w) {
        g.put(a.idx.alu_add_l_enable_idx as int, 0)
    } else {
        g
    };
    if w.forced(a.auth) {
        unforced(e, a.origin.0 as int, a.origin.1 as int)
    } else {
        e
    }
}

/// The selectors of the upper trees are wrong where they are computed by tiles.
pub open spec fn fetch_misselected(a: TileCpuV2, g: Grid, w: FetchWord) -> bool {
    a.auth.via_decode && selectors_differ(a.idx, selectors_a(w), raw_selectors_b(w), 7, g)
}

/// The CPU once the delivery of the word is checked.
pub open spec fn fetch_delivered(a: TileCpuV2, g: Grid, w: FetchWord) -> TileCpuV2 {
    TileCpuV2 {
        pipe: PipelineState {
            compact_eval_inhibit: a.pipe.compact_eval_inhibit && !w.forced(a.auth),
            ..a.pipe
        },
        checks: delivery_checks(
            a.auth,
            fetch_freed(a, g, w),
            a.origin.0 as int,
            a.origin.1 as int,
            w,
            a.checks,
        ),
        ..a
    }
}

/// The word selectors and the upper trees' selectors are checked and corrected.
pub open spec fn fetch_selected(
    a: TileCpuV2,
    g: Grid,
    b: TileCpuV2,
    h: Grid,
    w: FetchWord,
) -> bool {
    let laned = with_lanes(a.idx, w, 4, g);
    let again = fetch_misselected(a, laned, w);
    let byte2 = laned.values[a.idx.rom_selected_indices@[2] as int];
    &&& h == if a.auth.via_decode {
        with_selectors(a.idx, selectors_a(w), raw_selectors_b(w), 7, laned)
    } else {
        laned
    }
    &&& cause_counted_if(a.prop, b.prop, 1, again)
    &&& b == (TileCpuV2 {
        checks: Checks {
            super_mux: if a.auth.super_mux {
                lane_checks(a.idx, w, 4, g, a.checks.super_mux)
            } else {
                a.checks.super_mux
            },
            byte2_selector: after_if(
                a.checks.byte2_selector,
                a.auth.byte2_selector,
                (byte2 % 2 == 1) != w.rd_hi() || ((byte2 / 2) % 2 == 1) != w.rs_hi(),
            ),
            via_decode: after_if(a.checks.via_decode, a.auth.via_decode, again),
            ..a.checks
        },
        prop: b.prop,
        ..a
    })
}

/// What the tiles decoded is checked and corrected.
pub open spec fn fetch_checked(
    a: TileCpuV2,
    g: Grid,
    b: TileCpuV2,
    h: Grid,
    w: FetchWord,
) -> bool {
    fetch_selected(fetch_delivered(a, g, w), fetch_freed(a, g, w), b, h, w)
}

/// A wide constant is injected, if the word loads one.
pub open spec fn wide_load_begun(
    a: TileCpuV2,
    g: Grid,
    b: TileCpuV2,
    h: Grid,
    w: FetchWord,
) -> bool {
    let wide = wide_load_injected(a.auth, w);
    &&& h == if wide {
        with_wide_load(a.idx, w, g)
    } else {
        g
    }
    &&& cause_counted_if(a.prop, b.prop, 3, wide)
    &&& b == (TileCpuV2 { prop: b.prop, ..a })
}

/// A block for control byte B is asked: its gate is in force and neither trusted tiles nor a
/// combined table come first.
pub open spec fn asks_control_block(c: TileCpuV2) -> bool {
    c.gates.ctrl_b.enabled && !c.auth.decode && c.tables.combined is None
}

/// The control byte is decided and the latch filled.
pub open spec fn fetch_finished(
    a: TileCpuV2,
    g: Grid,
    b: TileCpuV2,
    h: Grid,
    w: FetchWord,
    block: Option<Seq<u64>>,
    l: PipelineLatch,
) -> bool {
    let tile = g.values[a.idx.ctrl_b_mux_idx as int];
    let cb = acting_ctrl_b(a.tables, a.auth, a.gates.ctrl_b.enabled, block, w, tile);
    let (rd, rs) = operand_regs(w);
    let tree_a = g.values[a.idx.op_a_root_idx as int];
    let tree_b = g.values[a.idx.op_b_root_idx as int];
    let direct_a = g.values[a.idx.reg_indices@[rd] as int];
    let direct_b = g.values[a.idx.reg_indices@[rs] as int];
    let compare_a = a.gates.operand.enabled && (w.pc / 64) % 2 == 0;
    let compare_b = compare_a && crate::alu::uses_rs(w.opcode);
    &&& l == (PipelineLatch {
        valid: true,
        pc: w.pc,
        opcode: w.opcode,
        rd: w.rd,
        ctrl_b: cb,
        ir_low: w.ir_low,
        ir_ext: w.ir_ext,
        a: operand_of(a.gates.operand.enabled, w, tree_a, direct_a),
        b: operand_of(a.gates.operand.enabled, w, tree_b, direct_b),
        phys_top_a: tree_a,
        phys_top_b: tree_b,
    })
    &&& h == with_trees_cleared(a.idx, a.auth, g)
    &&& b == (TileCpuV2 {
        gates: SynthGates {
            ctrl_b: if asks_control_block(a) {
                SynthGate {
                    checks: (a.gates.ctrl_b.checks + 1) as u64,
                    mismatches: if (w.pc / 64) % 2 == 0 && cb != tile % 256 {
                        (a.gates.ctrl_b.mismatches + 1) as u64
                    } else {
                        a.gates.ctrl_b.mismatches
                    },
                    ..a.gates.ctrl_b
                }
            } else {
                a.gates.ctrl_b
            },
            operand: operand_gate(
                operand_gate(a.gates.operand, compare_a, tree_a != direct_a),
                compare_b,
                tree_b != direct_b,
            ),
            ..a.gates
        },
        checks: Checks {
            decode_ctrl_b: after_if(
                a.checks.decode_ctrl_b,
                a.auth.decode,
                tile % 256 != a.tables.ctrl_b_of(w.opcode),
            ),
            combined_decode_checks: if !a.auth.decode && a.tables.combined is Some {
                (a.checks.combined_decode_checks + 1) as u64
            } else {
                a.checks.combined_decode_checks
            },
            operand: after_if(
                after_if(a.checks.operand, compare_a && a.auth.operand, tree_a != direct_a),
                compare_b && a.auth.operand,
                tree_b != direct_b,
            ),
            ..a.checks
        },
        ..a
    })
}

/// One step of stage F, from state `at` to state `to`. `block` is what the block for control byte
/// B gave, where one was driven.
pub open spec fn stage_f_steps(
    a: TileCpuV2,
    g: Grid,
    b: TileCpuV2,
    h: Grid,
    at: StageF,
    block: Option<Seq<u64>>,
    to: StageF,
) -> bool {
    match at {
        StageF::Start => to is Cone && fetch_begun(a, g, b, h),
        StageF::Cone => to matches StageF::Settle(w) && fetch_injected(a, g, b, h, w),
        StageF::Settle(w) => {
            let laned = with_lanes(a.idx, w, 4, fetch_freed(a, g, w));
            if fetch_misselected(a, laned, w) {
                to == StageF::Resettle(w) && fetch_checked(a, g, b, h, w)
            } else {
                &&& to == wide_state(a, w)
                &&& exists|m: TileCpuV2, k: Grid|
                    #[trigger] fetch_checked(a, g, m, k, w) && wide_load_begun(m, k, b, h, w)
            }
        },
        StageF::Resettle(w) => to == wide_state(a, w) && wide_load_begun(a, g, b, h, w),
        StageF::WideLoad(w) => {
            &&& to == StageF::Control(w)
            &&& b == a
            &&& h == g.put(a.idx.alu_add_l_enable_idx as int, 0)
        },
        StageF::Control(w) => to matches StageF::Done(l) && fetch_finished(
            a,
            g,
            b,
            h,
            w,
            block,
            l,
        ),
        StageF::Done(_) => to == at && b == a && h == g,
    }
}

/// The state after the selectors are right.
pub open spec fn wide_state(a: TileCpuV2, w: FetchWord) -> StageF {
    if wide_load_injected(a.auth, w) {
        StageF::WideLoad(w)
    } else {
        StageF::Control(w)
    }
}

impl TileCpuV2 {
    /// The counters have room for what one tick can count.
    pub open spec fn room(self) -> bool {
        &&& self.checks.room(128)
        &&& self.gates.room()
        &&& self.gates.operand.checks + 2 <= u64::MAX
        &&& self.gates.operand.mismatches + 2 <= u64::MAX
        &&& self.prop.room(1)
        &&& self.pipe.compact_eval_inhibit_count < u64::MAX
    }

    /// The counters have room for what one tick can count.
    pub fn has_room(&self) -> (r: bool)
        ensures
            r == self.room(),
    {
        self.checks.has_room(128) && self.gates.has_room() && self.gates.operand.checks
            < u64::MAX - 1 && self.gates.operand.mismatches < u64::MAX - 1 && self.prop.has_room(1)
            && self.pipe.compact_eval_inhibit_count < u64::MAX
    }

    fn begin_wide_load(&mut self, sim: &mut Simulation, w: FetchWord) -> (to: StageF)
        requires
            old(self).on(*old(sim)),
            old(self).prop.settle_reason_counts@[3] < u64::MAX,
            w.opcode < 32,
            w.rd < 8,
            w.rs_lo < 8,
        ensures
            wide_load_begun(*old(self), old(sim)@, *final(self), final(sim)@, w),
            to == wide_state(*old(self), w),
            final(sim).wf(),
            final(sim).len() == old(sim).len(),
    {
        if inject_wide_load(
            &self.idx,
            sim,
            &self.auth,
            &w,
            &mut self.prop.settle_reason_counts,
        ) {
            StageF::WideLoad(w)
        } else {
            StageF::Control(w)
        }
    }

    fn free_fetched(&mut self, sim: &mut Simulation, w: &FetchWord)
        requires
            old(self).on(*old(sim)),
            old(self).checks.ir_spine.room(9),
            old(self).checks.upper_bank_ir.room(1),
            decoder_fits(*old(sim), old(self).origin.0 as int, old(self).origin.1 as int),
        ensures
            *final(self) == fetch_delivered(*old(self), old(sim)@, *w),
            final(sim)@ == fetch_freed(*old(self), old(sim)@, *w),
            final(sim).wf(),
            final(sim).len() == old(sim).len(),
    {
        let (ox, oy) = self.origin;
        end_pre_injection(&self.idx, sim, &self.auth, w);
        check_delivery(sim, &self.auth, ox, oy, w, &mut self.pipe, &mut self.checks);
    }

    fn check_selected(&mut self, sim: &mut Simulation, w: &FetchWord) -> (again: bool)
        requires
            old(self).on(*old(sim)),
            old(self).checks.super_mux.room(4),
            old(self).checks.byte2_selector.room(1),
            old(self).checks.via_decode.room(1),
            old(self).prop.settle_reason_counts@[1] < u64::MAX,
        ensures
            fetch_selected(*old(self), old(sim)@, *final(self), final(sim)@, *w),
            again == fetch_misselected(
                *old(self),
                with_lanes(old(self).idx, *w, 4, old(sim)@),
                *w,
            ),
            final(sim).wf(),
            final(sim).len() == old(sim).len(),
    {
        let mut super_mux: CheckCounter = self.checks.super_mux;
        let mut byte2_selector: CheckCounter = self.checks.byte2_selector;
        let mut via_decode: CheckCounter = self.checks.via_decode;
        let mut reasons: [u64; 7] = self.prop.settle_reason_counts;
        settle_lanes(&self.idx, sim, &self.auth, w, &mut super_mux);
        check_byte2(&self.idx, sim, &self.auth, w, &mut byte2_selector);
        let again: bool = check_selectors(
            &self.idx,
            sim,
            &self.auth,
            w,
            &mut via_decode,
            &mut reasons,
        );
        self.checks = Checks { super_mux, byte2_selector, via_decode, ..self.checks };
        self.prop = PropCounters { settle_reason_counts: reasons, ..self.prop };
        again
    }

    fn fill_latch(
        &mut self,
        sim: &mut Simulation,
        w: &FetchWord,
        block: &Option<Vec<u64>>,
    ) -> (l: PipelineLatch)
        requires
            old(self).on(*old(sim)),
            old(self).room(),
            w.opcode < 32,
            w.rd < 8,
            w.rs_lo < 8,
            block matches Some(v) ==> v@.len() <= 8,
        ensures
            fetch_finished(
                *old(self),
                old(sim)@,
                *final(self),
                final(sim)@,
                *w,
                seq_of(*block),
                l,
            ),
            final(sim).wf(),
            final(sim).len() == old(sim).len(),
    {
        let cb: u8 = decide_ctrl_b(
            &self.idx,
            sim,
            &self.tables,
            &self.auth,
            block,
            w,
            &mut self.gates.ctrl_b,
            &mut self.checks,
        );
        finish_fetch(
            &self.idx,
            sim,
            &self.auth,
            w,
            cb,
            &mut self.gates.operand,
            &mut self.checks.operand,
        )
    }

    /// Take one step of stage F. Before the next one the caller does what the new state says:
    /// it settles the grid, or drives the block for control byte B if the CPU asks for it and
    /// has one, and hands in its output levels as `block`.
    pub fn run_stage_f(
        &mut self,
        sim: &mut Simulation,
        at: StageF,
        block: &Option<Vec<u64>>,
    ) -> (to: StageF)
        requires
            old(self).on(*old(sim)),
            old(self).room(),
            decoder_fits(*old(sim), old(self).origin.0 as int, old(self).origin.1 as int),
            at.wf(),
            block matches Some(v) ==> v@.len() <= 8,
        ensures
            stage_f_steps(
                *old(self),
                old(sim)@,
                *final(self),
                final(sim)@,
                at,
                seq_of(*block),
                to,
            ),
            to.wf(),
            final(sim).wf(),
            final(sim).len() == old(sim).len(),
    {
        match at {
            StageF::Start => {
                begin_fetch(&self.idx, &self.mode, sim, &mut self.arch, &mut self.pipe);
                StageF::Cone
            },
            StageF::Cone => {
                let (ox, oy) = self.origin;
                let w: FetchWord = inject_fetch(
                    &self.idx,
                    &self.mode,
                    &self.program_ext,
                    sim,
                    &self.arch,
                    &self.auth,
                    ox,
                    oy,
                    &mut self.pipe,
                    &mut self.prop.settle_reason_counts,
                );
                StageF::Settle(w)
            },
            StageF::Settle(w) => {
                self.free_fetched(sim, &w);
                if self.check_selected(sim, &w) {
                    StageF::Resettle(w)
                } else {
                    let ghost m = *self;
                    let ghost k = sim@;
                    assert(fetch_checked(*old(self), old(sim)@, m, k, w));
                    self.begin_wide_load(sim, w)
                }
            },
            StageF::Resettle(w) => self.begin_wide_load(sim, w),
            StageF::WideLoad(w) => {
                end_pass_through(&self.idx, sim);
                StageF::Control(w)
            },
            StageF::Control(w) => {
                let l: PipelineLatch = self.fill_latch(sim, &w, block);
                StageF::Done(l)
            },
            StageF::Done(l) => StageF::Done(l),
        }
    }

    /// Whether the block for control byte B is asked.
    pub fn get_asks_control_block(&self) -> (r: bool)
        ensures
            r == asks_control_block(*self),
    {
        self.gates.ctrl_b.enabled && !self.auth.decode && self.tables.combined.is_none()
    }
}

} // verus!
