//! Stage X as a sequence of steps: between two steps the grid settles, the clock ticks, a block of
//! tiles is driven or a device is accessed.
use vstd::prelude::*;

use crate::alu::{is_load, is_store, AluOutcome};
use crate::branch::{branch_kind, branch_selector};
use crate::branch_stage::{
    check_branch_direction, corner_fits, decide_taken, deliver_target, in_upper_half, link_after,
    prepare_branch, synth_taken, transfers, update_control, with_branch, with_target,
};
use crate::commit::{
    inject_synth_pre_commit, post_commit_gates, pre_commit_done, seq_of, verify_synth_post_commit,
    BlockLevels,
};
use crate::cpu::{RamSnapshots, TileCpuV2};
use crate::execute::{
    access_addr, alu_inputs, block_computes, compute, compute_outcome, decided, granted, load,
    loaded, resolve_authority, store, wb_path_checked, with_load, with_store, Granted, StoreState,
};
use crate::gates::SynthGate;
use crate::isa::is_mmio;
use crate::latch::PipelineLatch;
use crate::levels::packed;
use crate::operand::{
    alu_readback, injection_of, inject_operands, is_sra, read_alu, restore_trunk, saved_trunk,
    uses_upper, with_injection, with_trunk_restored, Injected, Injection,
};
use crate::pc_stage::{
    check_synth_branch, narrow_fall_through, narrow_next, pc_resolved, resolve_pc,
};
use crate::settle_commit::{
    bus_freed, clock_freed, enables_freed, free_after_clock, free_bus, free_enables,
    held_all, high_reg_injected, hold_for_commit, hold_plan, holds_of, inject_high_reg,
    mark_commit, with_commit_marks, with_high_reg, CommitHolds,
};
use crate::simulation::{tile_at, Grid, Simulation};
use crate::stage_f::cause_counted;
use crate::state::{ArchState, Checks, PipelineState, PropCounters, SynthGates};
use crate::writeback::{
    alu_checked, compare_alu, compare_ram, flags_written, ram_checks, registers_written,
    snapshot_bank0, write_back_flags, write_back_registers,
};

verus! {

/// What stage X has found out about its instruction.
#[derive(Clone, Copy)]
pub struct InStageX {
    pub l: PipelineLatch,
    pub inj: Injected,
    /// What the tile ALU gave, where it is read.
    pub phys: Option<u64>,
    pub o: AluOutcome,
    pub t: Granted,
    /// The result is injected at an upper register.
    pub high: bool,
    /// What the tiles held for the commit were.
    pub h: CommitHolds,
}

/// Where stage X is. A state says what is done outside before the next step; where it says
/// nothing, the next step follows at once.
pub enum StageX {
    Start(PipelineLatch),
    /// Settle what was injected for the operands, if anything; then drive the sign block.
    Operands(PipelineLatch, Injected),
    /// Drive the bit-operation blocks, or access a device.
    Compute(PipelineLatch, Injected, Option<u64>),
    Executed(InStageX),
    /// Drive the branch block.
    Branch(InStageX),
    /// Settle the branch tiles, if the flag is set.
    BranchSettle(InStageX, bool),
    /// Drive the blocks that select registers, memory words and enables.
    Select(InStageX),
    Selected(InStageX),
    /// Drive the multiplier block.
    Product(InStageX),
    /// Settle the commit tiles.
    Commit(InStageX),
    /// Settle the commit tiles again, if the flag is set.
    Recommit(InStageX, bool),
    /// Tick the clock.
    Clock(InStageX),
    Captured(InStageX),
    Registers(InStageX),
    /// The flags are written; the last two fields are what they were.
    Flags(InStageX, bool, bool),
    /// Drive the branch block once more, with the flags as they were.
    Verify(PipelineLatch, bool, bool),
    Done,
}

/// What was done outside since the last step. Only what the state asked for is read.
pub struct Outside {
    /// The levels of the sign block, where there is one.
    pub sign: Option<Vec<u64>>,
    /// The result of the bit-operation blocks, where there are such blocks.
    pub bits: Option<u64>,
    /// A device is attached, and what it answered to a load.
    pub device: bool,
    pub answer: Option<u64>,
    /// The level of the branch block, where there is one.
    pub taken: Option<u64>,
    pub blocks: BlockLevels,
    /// The levels of the multiplier block, where there is one.
    pub product: Option<Vec<u64>>,
}

impl Outside {
    /// No block has more outputs than its value has bits.
    pub open spec fn wf(self) -> bool {
        &&& self.sign matches Some(v) ==> v@.len() <= 7
        &&& self.blocks.wf()
        &&& self.product matches Some(v) ==> v@.len() <= 64
    }
}

impl StageX {
    /// The instruction that the state carries has a five-bit opcode.
    pub open spec fn wf(self) -> bool {
        match self {
            StageX::Start(l) => l.opcode < 32,
            StageX::Operands(l, _) => l.opcode < 32,
            StageX::Compute(l, _, _) => l.opcode < 32,
            StageX::Executed(x) => x.l.opcode < 32,
            StageX::Branch(x) => x.l.opcode < 32,
            StageX::BranchSettle(x, _) => x.l.opcode < 32,
            StageX::Select(x) => x.l.opcode < 32,
            StageX::Selected(x) => x.l.opcode < 32,
            StageX::Product(x) => x.l.opcode < 32,
            StageX::Commit(x) => x.l.opcode < 32,
            StageX::Recommit(x, _) => x.l.opcode < 32,
            StageX::Clock(x) => x.l.opcode < 32,
            StageX::Captured(x) => x.l.opcode < 32,
            StageX::Registers(x) => x.l.opcode < 32,
            StageX::Flags(x, _, _) => x.l.opcode < 32,
            StageX::Verify(_, _, _) => true,
            StageX::Done => true,
        }
    }
}

/// The operands are injected.
pub open spec fn operands_injected(
    a: TileCpuV2,
    g: Grid,
    b: TileCpuV2,
    h: Grid,
    l: PipelineLatch,
    inj: Injected,
) -> bool {
    &&& inj.kind == injection_of(a.gates.alu.enabled, a.auth, l)
    &&& inj.trunk == saved_trunk(a.idx, l, inj.kind, g)
    &&& inj.kind == Injection::Sra ==> inj.selector_was
        == g.kinds[a.idx.alu_r_mux_output_indices@[7] as int]
    &&& h == with_injection(a.idx, l, inj.kind, g)
    &&& b == (TileCpuV2 { prop: b.prop, ..a })
    &&& match inj.kind {
        Injection::Nothing => {
            &&& b.prop.settle_reason_counts@ == a.prop.settle_reason_counts@
            &&& b.prop == (PropCounters {
                settle_reason_counts: b.prop.settle_reason_counts,
                ..a.prop
            })
        },
        Injection::WideImm(_) => cause_counted(a.prop, b.prop, 4),
        Injection::Sra => cause_counted(a.prop, b.prop, 5),
        Injection::Trunk => cause_counted(a.prop, b.prop, 6),
    }
}

/// The tile ALU is read, and the operand trunks are put back.
pub open spec fn alu_read(
    a: TileCpuV2,
    g: Grid,
    b: TileCpuV2,
    h: Grid,
    l: PipelineLatch,
    inj: Injected,
    sign: Option<Seq<u64>>,
    phys: Option<u64>,
) -> bool {
    &&& phys == if a.gates.alu.enabled {
        Some(alu_readback(g.values[a.idx.wb_alu_root_idx as int], a.auth, l, sign))
    } else {
        None
    }
    &&& h == with_trunk_restored(a.idx, inj.trunk, g)
    &&& b == (TileCpuV2 {
        checks: Checks {
            sra: if a.gates.alu.enabled && sign is Some && a.auth.sra && is_sra(
                l.opcode,
                l.ir_low,
            ) {
                a.checks.sra.after(phys->0 != crate::alu::sra(l.a, (l.ir_low % 8) as int))
            } else {
                a.checks.sra
            },
            ..a.checks
        },
        ..a
    })
}

/// A load is executed, with outcome `o`.
pub open spec fn load_executed(
    a: TileCpuV2,
    g: Grid,
    b: TileCpuV2,
    h: Grid,
    l: PipelineLatch,
    answer: Option<u64>,
    o: AluOutcome,
) -> bool {
    let addr = access_addr(l, a.arch, a.mem);
    &&& loaded(a.mem, b.mem, addr, answer)
    &&& h == with_load(a.idx, g, addr, answer)
    &&& o == (AluOutcome {
        result: b.mem.word(addr),
        writes_reg: true,
        flag_z: b.mem.word(addr) == 0,
        flag_c: a.arch.flag_c,
    })
    &&& b.log.writes@ == a.log.writes@
    &&& b.log.reads@ == if answer is Some && is_mmio(addr) {
        a.log.reads@.push((addr as u8, answer->0))
    } else {
        a.log.reads@
    }
    &&& b == (TileCpuV2 { mem: b.mem, log: b.log, ..a })
}

/// A store is executed.
pub open spec fn store_executed(
    a: TileCpuV2,
    g: Grid,
    b: TileCpuV2,
    h: Grid,
    l: PipelineLatch,
    device: bool,
) -> bool {
    let addr = access_addr(l, a.arch, a.mem);
    &&& b.log.reads@ == a.log.reads@
    &&& if device && is_mmio(addr) {
        &&& h == g
        &&& b.log.writes@ == a.log.writes@.push((addr as u8, l.a))
        &&& b == (TileCpuV2 { log: b.log, ..a })
    } else {
        &&& b.mem.writes(a.mem, addr, l.a)
        &&& h == with_store(a.idx, g, addr, l.a, a.auth.ram_store)
        &&& b.log.writes@ == a.log.writes@
        &&& b == (TileCpuV2 {
            mem: b.mem,
            log: b.log,
            pipe: PipelineState {
                ram_writeback_countdown: if addr < 128 {
                    2
                } else {
                    a.pipe.ram_writeback_countdown
                },
                ..a.pipe
            },
            store: if addr >= 128 {
                a.store
            } else if a.auth.ram_store && addr < 8 {
                StoreState {
                    saved_via: Some(
                        (
                            (a.idx.ram_indices@[addr] - 1) as usize,
                            g.kinds[a.idx.ram_indices@[addr] - 1],
                        ),
                    ),
                    inject_up_idx: (a.idx.ram_indices@[addr] - g.width) as usize,
                    store_addr: addr as usize,
                }
            } else {
                StoreState { store_addr: addr as usize, ..a.store }
            },
            ..a
        })
    }
}

/// An instruction that does not load is executed, as far as it computes.
pub open spec fn computation_executed(
    a: TileCpuV2,
    g: Grid,
    b: TileCpuV2,
    l: PipelineLatch,
    phys: Option<u64>,
    bits: Option<u64>,
    o: AluOutcome,
) -> bool {
    let i = alu_inputs(l, a.arch, g.values[a.idx.lr_idx as int]);
    &&& o == compute_outcome(i, l, a.auth, phys, bits)
    &&& b == (TileCpuV2 {
        checks: Checks {
            bitop: if block_computes(l, a.auth, bits) {
                a.checks.bitop.after(bits->0 != crate::alu::result_of(i))
            } else {
                a.checks.bitop
            },
            ..a.checks
        },
        ..a
    })
}

/// The instruction is executed, with outcome `o`.
pub open spec fn instruction_executed(
    a: TileCpuV2,
    g: Grid,
    b: TileCpuV2,
    h: Grid,
    l: PipelineLatch,
    phys: Option<u64>,
    bits: Option<u64>,
    device: bool,
    answer: Option<u64>,
    o: AluOutcome,
) -> bool {
    if is_load(l.opcode) {
        load_executed(a, g, b, h, l, answer, o)
    } else if is_store(l.opcode) {
        exists|m: TileCpuV2|
            #[trigger] computation_executed(a, g, m, l, phys, bits, o) && store_executed(
                m,
                g,
                b,
                h,
                l,
                device,
            )
    } else {
        h == g && computation_executed(a, g, b, l, phys, bits, o)
    }
}

/// It is decided which tiles are trusted for the outcome.
pub open spec fn trust_decided(
    a: TileCpuV2,
    b: TileCpuV2,
    l: PipelineLatch,
    phys: Option<u64>,
    before: AluOutcome,
    after: AluOutcome,
    t: Granted,
) -> bool {
    &&& after == decided(l, a.auth, phys, before)
    &&& t == granted(l, a.auth, phys, before)
    &&& b == (TileCpuV2 {
        checks: Checks {
            upper_alu_trunk: if t.alu && uses_upper(l) {
                a.checks.upper_alu_trunk.after(false)
            } else {
                a.checks.upper_alu_trunk
            },
            wb_data: if wb_path_checked(l, a.auth, phys, before) {
                a.checks.wb_data.after(!t.wb_path)
            } else {
                a.checks.wb_data
            },
            ..a.checks
        },
        ..a
    })
}

/// The branch direction is checked, and the control state follows.
pub open spec fn branch_checked(
    a: TileCpuV2,
    g: Grid,
    b: TileCpuV2,
    h: Grid,
    l: PipelineLatch,
) -> bool {
    &&& h == g.mark(a.idx.pc_next_mux_idx as int)
    &&& b == (TileCpuV2 {
        checks: Checks {
            branch_dir: if a.auth.branch && transfers(l.ctrl_b) {
                a.checks.branch_dir.after(
                    (g.values[a.idx.branch_taken_core_idx as int] != 0)
                        != a.tables.branch@[branch_selector(
                        branch_kind(l.ctrl_b),
                        a.arch.flag_z,
                        a.arch.flag_c,
                    )],
                )
            } else {
                a.checks.branch_dir
            },
            ..a.checks
        },
        arch: ArchState {
            halted: a.arch.halted || crate::branch::halts(l.ctrl_b),
            lr: link_after(l, a.arch.lr, a.mode.pc_phys_mask),
            ..a.arch
        },
        ..a
    })
}

/// The first eight memory tiles are noted, if the instruction is a store and memory tiles are
/// trusted.
pub open spec fn bank_noted(
    c: TileCpuV2,
    g: Grid,
    opcode: u8,
    before: Seq<u64>,
    after: Seq<u64>,
) -> bool {
    after == if c.auth.ram_writeback && is_store(opcode) {
        Seq::new(8, |i: int| g.values[c.idx.ram_indices@[i] as int])
    } else {
        before
    }
}

/// The selects and enables are injected.
pub open spec fn selects_injected(
    a: TileCpuV2,
    g: Grid,
    b: TileCpuV2,
    h: Grid,
    l: PipelineLatch,
    blocks: BlockLevels,
) -> bool {
    &&& pre_commit_done(
        a.idx,
        a.auth,
        a.tables,
        l,
        a.arch,
        a.mem,
        seq_of(blocks.rd_decode),
        seq_of(blocks.ram_decode),
        seq_of(blocks.ctrl_a),
        g,
        a.gates,
        a.checks,
        h,
        b.gates,
        b.checks,
    )
    &&& b == (TileCpuV2 { gates: b.gates, checks: b.checks, ..a })
}

/// What the commit settles from is marked, and the result is at its upper register.
pub open spec fn commit_marked(a: TileCpuV2, g: Grid, b: TileCpuV2, h: Grid, x: InStageX) -> bool {
    let n: u8 = if x.o.writes_reg {
        2
    } else {
        a.pipe.reg_wb_countdown
    };
    let m = with_commit_marks(a.idx, x.l.opcode, n > 0, g);
    let r = (x.l.rd % 8) as int;
    &&& h == if high_reg_injected(x.l, a.auth, x.o) {
        with_high_reg(a.idx, r, x.o.result, u64::MAX, m).mark(
            a.idx.high_reg_merge_mux_indices@[r] as int,
        )
    } else {
        m
    }
    &&& b == (TileCpuV2 {
        pipe: PipelineState {
            reg_wb_countdown: if n > 0 {
                (n - 1) as u8
            } else {
                0
            },
            ..a.pipe
        },
        ..a
    })
}

/// The tiles that the commit needs constant are held.
pub open spec fn commit_held(
    a: TileCpuV2,
    g: Grid,
    h: Grid,
    x: InStageX,
    product: Option<Seq<u64>>,
    holds: CommitHolds,
) -> bool {
    let p = hold_plan(x.l, a.auth, x.o, a.gates.ram_decode.enabled, product is Some);
    let w = match product {
        Some(v) => packed(v, 0, v.len()),
        None => 0,
    };
    &&& h == held_all(a.idx, p, w, g)
    &&& holds == holds_of(a.idx, p, w, g)
}

/// The enables are free, and the branch target is delivered if the tiles cannot.
pub open spec fn commit_settled(
    a: TileCpuV2,
    g: Grid,
    b: TileCpuV2,
    h: Grid,
    x: InStageX,
    again: bool,
) -> bool {
    let e = enables_freed(a.idx, x.h, g);
    let (ox, oy) = (a.origin.0 as int, a.origin.1 as int);
    &&& again == (in_upper_half(x.l, a.auth) && !a.auth.ir_spine)
    &&& h == if again {
        with_target(e, g.width, g.height, ox, oy, x.l.ir_low as u64)
    } else {
        e
    }
    &&& bank_noted(a, e, x.l.opcode, a.ram_snaps.post_commit@, b.ram_snaps.post_commit@)
    &&& b == (TileCpuV2 {
        checks: Checks {
            branch_target: if in_upper_half(x.l, a.auth) && a.auth.ir_spine {
                a.checks.branch_target.after(
                    e.values[tile_at(g.width, g.height, ox + 7, oy + 1, 2)] != x.l.ir_low,
                )
            } else {
                a.checks.branch_target
            },
            ..a.checks
        },
        ram_snaps: RamSnapshots { post_commit: b.ram_snaps.post_commit, ..a.ram_snaps },
        ..a
    })
}

/// The data bus is free.
pub open spec fn bus_released(a: TileCpuV2, g: Grid, b: TileCpuV2, h: Grid, x: InStageX) -> bool {
    &&& h == bus_freed(a.idx, x.h, g)
    &&& bank_noted(a, h, x.l.opcode, a.ram_snaps.post_reinject@, b.ram_snaps.post_reinject@)
    &&& b == (TileCpuV2 {
        ram_snaps: RamSnapshots { post_reinject: b.ram_snaps.post_reinject, ..a.ram_snaps },
        ..a
    })
}

/// After the clock edge every held tile is free, and what the tiles computed is compared.
pub open spec fn edge_taken(a: TileCpuV2, g: Grid, b: TileCpuV2, h: Grid, x: InStageX) -> bool {
    &&& h == clock_freed(
        a.idx,
        x.h,
        a.store,
        x.inj,
        if x.high {
            Some((x.l.rd % 8) as int)
        } else {
            None
        },
        g,
    )
    &&& bank_noted(a, h, x.l.opcode, a.ram_snaps.post_clock@, b.ram_snaps.post_clock@)
    &&& alu_checked(
        a.idx,
        a.tables.ctrl_a@,
        x.l,
        x.phys,
        x.o,
        h,
        a.gates.alu,
        a.checks,
        b.gates.alu,
        b.checks,
    )
    &&& b.gates == post_commit_gates(
        a.idx,
        x.l,
        a.arch,
        a.mem,
        h,
        (SynthGates { alu: b.gates.alu, ..a.gates }),
    )
    &&& b == (TileCpuV2 {
        store: StoreState { saved_via: None, inject_up_idx: 0, ..a.store },
        ram_snaps: RamSnapshots { post_clock: b.ram_snaps.post_clock, ..a.ram_snaps },
        gates: b.gates,
        checks: b.checks,
        ..a
    })
}

/// The registers are written back.
pub open spec fn registers_done(a: TileCpuV2, g: Grid, b: TileCpuV2, h: Grid, x: InStageX) -> bool {
    &&& registers_written(
        a.idx,
        x.l,
        a.auth,
        x.t,
        x.o,
        x.high,
        a.gates.alu.enabled,
        a.arch,
        g,
        a.checks,
        b.arch,
        h,
        b.checks,
        b.pipe.changed_regs_mask,
    )
    &&& b == (TileCpuV2 {
        arch: b.arch,
        checks: b.checks,
        pipe: PipelineState { changed_regs_mask: b.pipe.changed_regs_mask, ..a.pipe },
        ..a
    })
}

/// The memory tiles are compared, and the flags are written back.
pub open spec fn flags_done(a: TileCpuV2, g: Grid, b: TileCpuV2, h: Grid, x: InStageX) -> bool {
    &&& flags_written(
        a.idx,
        x.l.opcode,
        a.auth,
        x.t,
        x.o,
        g,
        ram_checks(a.idx, a.mem.ram@, a.auth, x.l.opcode, g, a.checks),
        h,
        b.checks,
    )
    &&& b == (TileCpuV2 {
        arch: ArchState { flag_z: x.o.flag_z, flag_c: x.o.flag_c, ..a.arch },
        checks: b.checks,
        pipe: PipelineState {
            ram_writeback_countdown: if a.pipe.ram_writeback_countdown > 0 {
                (a.pipe.ram_writeback_countdown - 1) as u8
            } else {
                0
            },
            ..a.pipe
        },
        ..a
    })
}

/// The program counter is decided.
pub open spec fn pc_done(
    a: TileCpuV2,
    g: Grid,
    b: TileCpuV2,
    h: Grid,
    l: PipelineLatch,
    z: bool,
    c: bool,
) -> bool {
    &&& pc_resolved(
        a.idx,
        a.mode,
        l,
        a.auth,
        z,
        c,
        a.arch,
        g,
        a.checks,
        b.arch,
        h,
        b.checks,
    )
    &&& b == (TileCpuV2 { arch: b.arch, checks: b.checks, ..a })
}

/// The program counter is compared with the synthesized branch, where its gate is in force and
/// the instruction is in the lower half of the program.
pub open spec fn branch_verified(
    a: TileCpuV2,
    b: TileCpuV2,
    l: PipelineLatch,
    z: bool,
    c: bool,
    block: Option<u64>,
) -> bool {
    let mask = a.mode.pc_phys_mask;
    let expected = if synth_taken(branch_kind(l.ctrl_b), z, c, block, a.tables.branch@) {
        narrow_next(l, a.arch, mask, z, c)
    } else {
        narrow_fall_through(l, mask)
    };
    b == (TileCpuV2 {
        gates: SynthGates {
            branch: if a.gates.branch.enabled && (l.pc / 64) % 2 == 0 {
                SynthGate {
                    checks: (a.gates.branch.checks + 1) as u64,
                    mismatches: if a.arch.pc != expected {
                        (a.gates.branch.mismatches + 1) as u64
                    } else {
                        a.gates.branch.mismatches
                    },
                    ..a.gates.branch
                }
            } else {
                a.gates.branch
            },
            ..a.gates
        },
        ..a
    })
}

/// An instruction just executed: nothing is trusted, injected or held for it.
pub open spec fn just_executed(
    l: PipelineLatch,
    inj: Injected,
    phys: Option<u64>,
    o: AluOutcome,
) -> InStageX {
    InStageX {
        l,
        inj,
        phys,
        o,
        t: Granted {
            alu: false,
            wb_path: false,
            high_reg_wb: false,
            compare_flag: false,
            sub_fn: false,
            sub_fn_flag: false,
            load: false,
        },
        high: false,
        h: CommitHolds {
            mul: None,
            wb_data: None,
            we_mask: None,
            ram_gate: None,
            flag_we: None,
        },
    }
}

/// One step of stage X, from state `at` to state `to`, with what was done outside before it.
pub open spec fn stage_x_steps(
    a: TileCpuV2,
    g: Grid,
    b: TileCpuV2,
    h: Grid,
    at: StageX,
    out: Outside,
    to: StageX,
) -> bool {
    match at {
        StageX::Start(l) => to matches StageX::Operands(m, inj) && m == l && operands_injected(
            a,
            g,
            b,
            h,
            l,
            inj,
        ),
        StageX::Operands(l, inj) => to matches StageX::Compute(m, n, phys) && m == l && n == inj
            && alu_read(a, g, b, h, l, inj, seq_of(out.sign), phys),
        StageX::Compute(l, inj, phys) => to matches StageX::Executed(x) && x == just_executed(
            l,
            inj,
            phys,
            x.o,
        ) && instruction_executed(
            a,
            g,
            b,
            h,
            l,
            phys,
            out.bits,
            out.device,
            out.answer,
            x.o,
        ),
        StageX::Executed(x) => to matches StageX::Branch(y) && y == (InStageX {
            o: y.o,
            t: y.t,
            ..x
        }) && trust_decided(a, b, x.l, x.phys, x.o, y.o, y.t) && h == g,
        StageX::Branch(x) => {
            &&& to == StageX::BranchSettle(x, a.gates.branch.enabled || transfers(x.l.ctrl_b))
            &&& b == a
            &&& h == with_branch(
                a.idx,
                a.gates.branch.enabled,
                x.l.ctrl_b,
                synth_taken(
                    branch_kind(x.l.ctrl_b),
                    a.arch.flag_z,
                    a.arch.flag_c,
                    out.taken,
                    a.tables.branch@,
                ),
                g,
            )
        },
        StageX::BranchSettle(x, _) => to == StageX::Select(x) && branch_checked(a, g, b, h, x.l),
        StageX::Select(x) => to == StageX::Selected(x) && selects_injected(
            a,
            g,
            b,
            h,
            x.l,
            out.blocks,
        ),
        StageX::Selected(x) => to == StageX::Product(
            InStageX { high: high_reg_injected(x.l, a.auth, x.o), ..x },
        ) && commit_marked(a, g, b, h, x),
        StageX::Product(x) => to matches StageX::Commit(y) && y == (InStageX { h: y.h, ..x })
            && b == a && commit_held(a, g, h, x, seq_of(out.product), y.h),
        StageX::Commit(x) => to matches StageX::Recommit(y, again) && y == x && commit_settled(
            a,
            g,
            b,
            h,
            x,
            again,
        ),
        StageX::Recommit(x, _) => to == StageX::Clock(x) && bus_released(a, g, b, h, x),
        StageX::Clock(x) => to == StageX::Captured(x) && edge_taken(a, g, b, h, x),
        StageX::Captured(x) => to == StageX::Registers(x) && registers_done(a, g, b, h, x),
        StageX::Registers(x) => to == StageX::Flags(x, a.arch.flag_z, a.arch.flag_c) && flags_done(
            a,
            g,
            b,
            h,
            x,
        ),
        StageX::Flags(x, z, c) => to == StageX::Verify(x.l, z, c) && pc_done(a, g, b, h, x.l, z, c),
        StageX::Verify(l, z, c) => to is Done && h == g && branch_verified(
            a,
            b,
            l,
            z,
            c,
            out.taken,
        ),
        StageX::Done => to is Done && b == a && h == g,
    }
}

impl TileCpuV2 {
    /// A store through tiles has its tiles on the grid.
    pub open spec fn stores_fit(self, sim: Simulation) -> bool {
        &&& self.auth.ram_store ==> forall|i: int|
            0 <= i < 8 ==> #[trigger] self.idx.ram_indices@[i] >= sim.width
        &&& self.store.saved_via matches Some(v) ==> v.0 < sim.len()
        &&& self.store.inject_up_idx < sim.len()
    }

    fn step_start(&mut self, sim: &mut Simulation, l: &PipelineLatch) -> (inj: Injected)
        requires
            old(self).on(*old(sim)),
            old(self).prop.room(1),
            l.opcode < 32,
        ensures
            operands_injected(*old(self), old(sim)@, *final(self), final(sim)@, *l, inj),
            final(sim).wf(),
            final(sim).len() == old(sim).len(),
    {
        inject_operands(
            &self.idx,
            sim,
            self.gates.alu.enabled,
            &self.auth,
            l,
            &mut self.prop.settle_reason_counts,
        )
    }

    fn step_operands(
        &mut self,
        sim: &mut Simulation,
        l: &PipelineLatch,
        inj: &Injected,
        sign: &Option<Vec<u64>>,
    ) -> (phys: Option<u64>)
        requires
            old(self).on(*old(sim)),
            old(self).checks.sra.room(1),
            sign matches Some(v) ==> v@.len() <= 7,
        ensures
            alu_read(
                *old(self),
                old(sim)@,
                *final(self),
                final(sim)@,
                *l,
                *inj,
                seq_of(*sign),
                phys,
            ),
            final(sim).wf(),
            final(sim).len() == old(sim).len(),
    {
        let phys: Option<u64> = read_alu(
            &self.idx,
            sim,
            self.gates.alu.enabled,
            &self.auth,
            l,
            sign.as_ref(),
            &mut self.checks.sra,
        );
        restore_trunk(&self.idx, sim, inj);
        phys
    }

    fn execute_load(
        &mut self,
        sim: &mut Simulation,
        l: &PipelineLatch,
        answer: Option<u64>,
    ) -> (o: AluOutcome)
        requires
            old(self).on(*old(sim)),
            old(self).mem.wf(),
        ensures
            load_executed(*old(self), old(sim)@, *final(self), final(sim)@, *l, answer, o),
            final(self).mem.wf(),
            final(sim).wf(),
            final(sim).len() == old(sim).len(),
    {
        load(&self.idx, sim, &mut self.mem, l, &self.arch, answer, &mut self.log)
    }

    fn execute_computation(
        &mut self,
        sim: &Simulation,
        l: &PipelineLatch,
        phys: Option<u64>,
        bits: Option<u64>,
    ) -> (o: AluOutcome)
        requires
            old(self).on(*sim),
            old(self).checks.bitop.room(1),
        ensures
            computation_executed(*old(self), sim@, *final(self), *l, phys, bits, o),
    {
        let link: u64 = sim.get_logic_value_by_idx(self.idx.lr_idx);
        compute(l, &self.arch, link, &self.auth, phys, bits, &mut self.checks.bitop)
    }

    fn execute_store(&mut self, sim: &mut Simulation, l: &PipelineLatch, device: bool)
        requires
            old(self).on(*old(sim)),
            old(self).mem.wf(),
            old(self).stores_fit(*old(sim)),
        ensures
            store_executed(*old(self), old(sim)@, *final(self), final(sim)@, *l, device),
            final(self).mem.wf(),
            final(sim).wf(),
            final(sim).len() == old(sim).len(),
    {
        store(
            &self.idx,
            sim,
            &mut self.mem,
            l,
            &self.arch,
            &self.auth,
            device,
            &mut self.store,
            &mut self.pipe.ram_writeback_countdown,
            &mut self.log,
        );
    }

    fn step_compute(
        &mut self,
        sim: &mut Simulation,
        l: &PipelineLatch,
        phys: Option<u64>,
        out: &Outside,
    ) -> (o: AluOutcome)
        requires
            old(self).on(*old(sim)),
            old(self).mem.wf(),
            old(self).stores_fit(*old(sim)),
            old(self).checks.bitop.room(1),
        ensures
            instruction_executed(
                *old(self),
                old(sim)@,
                *final(self),
                final(sim)@,
                *l,
                phys,
                out.bits,
                out.device,
                out.answer,
                o,
            ),
            final(self).mem.wf(),
            final(sim).wf(),
            final(sim).len() == old(sim).len(),
    {
        if l.opcode == 0x16 || l.opcode == 0x18 {
            return self.execute_load(sim, l, out.answer);
        }
        let o: AluOutcome = self.execute_computation(sim, l, phys, out.bits);
        if l.opcode == 0x17 || l.opcode == 0x19 {
            self.execute_store(sim, l, out.device);
        }
        o
    }

    fn step_executed(
        &mut self,
        l: &PipelineLatch,
        phys: Option<u64>,
        o: &mut AluOutcome,
    ) -> (t: Granted)
        requires
            l.opcode < 32,
            old(self).checks.upper_alu_trunk.room(1),
            old(self).checks.wb_data.room(1),
        ensures
            trust_decided(*old(self), *final(self), *l, phys, *old(o), *final(o), t),
    {
        resolve_authority(
            l,
            &self.auth,
            phys,
            o,
            &mut self.checks.upper_alu_trunk,
            &mut self.checks.wb_data,
        )
    }

    fn step_branch(
        &mut self,
        sim: &mut Simulation,
        l: &PipelineLatch,
        block: Option<u64>,
    ) -> (settle: bool)
        requires
            old(self).on(*old(sim)),
        ensures
            *final(self) == *old(self),
            settle == (old(self).gates.branch.enabled || transfers(l.ctrl_b)),
            final(sim)@ == with_branch(
                old(self).idx,
                old(self).gates.branch.enabled,
                l.ctrl_b,
                synth_taken(
                    branch_kind(l.ctrl_b),
                    old(self).arch.flag_z,
                    old(self).arch.flag_c,
                    block,
                    old(self).tables.branch@,
                ),
                old(sim)@,
            ),
            final(sim).wf(),
            final(sim).len() == old(sim).len(),
    {
        let taken: bool = decide_taken(
            &self.tables.branch,
            l.ctrl_b % 8,
            self.arch.flag_z,
            self.arch.flag_c,
            block,
        );
        prepare_branch(&self.idx, sim, self.gates.branch.enabled, l.ctrl_b, taken)
    }

    fn step_branch_settled(&mut self, sim: &mut Simulation, l: &PipelineLatch)
        requires
            old(self).on(*old(sim)),
            old(self).checks.branch_dir.room(1),
        ensures
            branch_checked(*old(self), old(sim)@, *final(self), final(sim)@, *l),
            final(sim).wf(),
            final(sim).len() == old(sim).len(),
    {
        let (z, c) = (self.arch.flag_z, self.arch.flag_c);
        check_branch_direction(
            &self.idx,
            sim,
            &self.auth,
            &self.tables.branch,
            l.ctrl_b,
            z,
            c,
            &mut self.checks.branch_dir,
        );
        update_control(l, &mut self.arch, self.mode.pc_phys_mask);
        sim.mark_dirty(self.idx.pc_next_mux_idx);
    }

    fn step_select(&mut self, sim: &mut Simulation, l: &PipelineLatch, blocks: &BlockLevels)
        requires
            old(self).on(*old(sim)),
            old(self).gates.room(),
            old(self).checks.room(1),
            l.opcode < 32,
            blocks.wf(),
        ensures
            selects_injected(*old(self), old(sim)@, *final(self), final(sim)@, *l, *blocks),
            final(sim).wf(),
            final(sim).len() == old(sim).len(),
    {
        inject_synth_pre_commit(
            &self.idx,
            sim,
            &mut self.gates,
            &self.auth,
            &mut self.checks,
            &self.tables,
            l,
            &self.arch,
            &self.mem,
            blocks,
        );
    }

    fn step_selected(&mut self, sim: &mut Simulation, x: &InStageX) -> (high: bool)
        requires
            old(self).on(*old(sim)),
        ensures
            commit_marked(*old(self), old(sim)@, *final(self), final(sim)@, *x),
            high == high_reg_injected(x.l, old(self).auth, x.o),
            final(sim).wf(),
            final(sim).len() == old(sim).len(),
    {
        mark_commit(
            &self.idx,
            sim,
            x.l.opcode,
            x.o.writes_reg,
            &mut self.pipe.reg_wb_countdown,
        );
        inject_high_reg(&self.idx, sim, &x.l, &self.auth, &x.o)
    }

    fn note_bank(&self, sim: &Simulation, opcode: u8, before: [u64; 8]) -> (r: [u64; 8])
        requires
            self.on(*sim),
        ensures
            bank_noted(*self, sim@, opcode, before@, r@),
    {
        if self.auth.ram_writeback && (opcode == 0x17 || opcode == 0x19) {
            let r: [u64; 8] = snapshot_bank0(&self.idx, sim);
            assert(r@ =~= Seq::new(8, |i: int| sim@.values[self.idx.ram_indices@[i] as int]));
            r
        } else {
            before
        }
    }

    fn step_commit(&mut self, sim: &mut Simulation, x: &InStageX) -> (again: bool)
        requires
            old(self).on(*old(sim)),
            corner_fits(*old(sim), old(self).origin.0 as int, old(self).origin.1 as int),
            old(self).checks.branch_target.room(1),
        ensures
            commit_settled(*old(self), old(sim)@, *final(self), final(sim)@, *x, again),
            final(sim).wf(),
            final(sim).len() == old(sim).len(),
    {
        let (ox, oy) = self.origin;
        free_enables(&self.idx, sim, &x.h);
        let noted: [u64; 8] = self.note_bank(sim, x.l.opcode, self.ram_snaps.post_commit);
        self.ram_snaps = RamSnapshots { post_commit: noted, ..self.ram_snaps };
        deliver_target(sim, ox, oy, &x.l, &self.auth, &mut self.checks.branch_target)
    }

    fn step_recommit(&mut self, sim: &mut Simulation, x: &InStageX)
        requires
            old(self).on(*old(sim)),
        ensures
            bus_released(*old(self), old(sim)@, *final(self), final(sim)@, *x),
            final(sim).wf(),
            final(sim).len() == old(sim).len(),
    {
        free_bus(&self.idx, sim, &x.h);
        let noted: [u64; 8] = self.note_bank(sim, x.l.opcode, self.ram_snaps.post_reinject);
        self.ram_snaps = RamSnapshots { post_reinject: noted, ..self.ram_snaps };
    }

    fn step_clock(&mut self, sim: &mut Simulation, x: &InStageX)
        requires
            old(self).on(*old(sim)),
            old(self).stores_fit(*old(sim)),
            old(self).gates.room(),
            old(self).checks.room(1),
            x.l.opcode < 32,
        ensures
            edge_taken(*old(self), old(sim)@, *final(self), final(sim)@, *x),
            final(sim).wf(),
            final(sim).len() == old(sim).len(),
    {
        free_after_clock(&self.idx, sim, &x.l, &x.h, &mut self.store, &x.inj, x.high);
        let noted: [u64; 8] = self.note_bank(sim, x.l.opcode, self.ram_snaps.post_clock);
        self.ram_snaps = RamSnapshots { post_clock: noted, ..self.ram_snaps };
        compare_alu(
            &self.idx,
            sim,
            &self.tables.ctrl_a,
            &x.l,
            x.phys,
            &x.o,
            &mut self.gates.alu,
            &mut self.checks,
        );
        verify_synth_post_commit(
            &self.idx,
            sim,
            &mut self.gates,
            &x.l,
            &self.arch,
            &self.mem,
        );
    }

    fn step_captured(&mut self, sim: &mut Simulation, x: &InStageX)
        requires
            old(self).on(*old(sim)),
            old(self).checks.room(8),
        ensures
            registers_done(*old(self), old(sim)@, *final(self), final(sim)@, *x),
            final(sim).wf(),
            final(sim).len() == old(sim).len(),
    {
        let mask: u16 = write_back_registers(
            &self.idx,
            sim,
            &mut self.arch,
            &x.l,
            &self.auth,
            &x.t,
            &x.o,
            x.high,
            self.gates.alu.enabled,
            &mut self.checks,
        );
        self.pipe.changed_regs_mask = mask;
    }

    fn compare_memory(&mut self, sim: &Simulation, opcode: u8)
        requires
            old(self).on(*sim),
            old(self).checks.room(128),
        ensures
            final(self).checks == ram_checks(
                old(self).idx,
                old(self).mem.ram@,
                old(self).auth,
                opcode,
                sim@,
                old(self).checks,
            ),
            final(self).checks.flag_wb == old(self).checks.flag_wb,
            final(self).checks.flag_z_mismatches == old(self).checks.flag_z_mismatches,
            final(self).checks.flag_c_mismatches == old(self).checks.flag_c_mismatches,
            *final(self) == (TileCpuV2 {
                checks: final(self).checks,
                pipe: PipelineState {
                    ram_writeback_countdown: if old(self).pipe.ram_writeback_countdown > 0 {
                        (old(self).pipe.ram_writeback_countdown - 1) as u8
                    } else {
                        0
                    },
                    ..old(self).pipe
                },
                ..*old(self)
            }),
    {
        compare_ram(&self.idx, sim, &self.mem.ram, &self.auth, opcode, &mut self.checks);
        if self.pipe.ram_writeback_countdown > 0 {
            self.pipe.ram_writeback_countdown = self.pipe.ram_writeback_countdown - 1;
        }
    }

    fn step_registers(&mut self, sim: &mut Simulation, x: &InStageX)
        requires
            old(self).on(*old(sim)),
            old(self).checks.room(128),
        ensures
            flags_done(*old(self), old(sim)@, *final(self), final(sim)@, *x),
            final(sim).wf(),
            final(sim).len() == old(sim).len(),
    {
        self.compare_memory(sim, x.l.opcode);
        write_back_flags(
            &self.idx,
            sim,
            &mut self.arch,
            x.l.opcode,
            &self.auth,
            &x.t,
            &x.o,
            &mut self.checks,
        );
    }

    fn step_flags(&mut self, sim: &mut Simulation, l: &PipelineLatch, z: bool, c: bool)
        requires
            old(self).on(*old(sim)),
            old(self).checks.room(1),
        ensures
            pc_done(*old(self), old(sim)@, *final(self), final(sim)@, *l, z, c),
            final(sim).wf(),
            final(sim).len() == old(sim).len(),
    {
        resolve_pc(
            &self.idx,
            &self.mode,
            sim,
            &mut self.arch,
            l,
            &self.auth,
            z,
            c,
            &mut self.checks,
        );
    }

    fn step_verify(&mut self, l: &PipelineLatch, z: bool, c: bool, block: Option<u64>)
        requires
            old(self).gates.branch.room(),
        ensures
            branch_verified(*old(self), *final(self), *l, z, c, block),
    {
        check_synth_branch(
            l,
            &self.arch,
            &self.mode,
            &self.tables.branch,
            block,
            z,
            c,
            &mut self.gates.branch,
        );
    }

    /// Take one step of stage X. Before the next one the caller does what the new state says, and
    /// hands in what came of it.
    pub fn run_stage_x(&mut self, sim: &mut Simulation, at: StageX, out: &Outside) -> (to: StageX)
        requires
            old(self).on(*old(sim)),
            old(self).room(),
            old(self).mem.wf(),
            old(self).stores_fit(*old(sim)),
            corner_fits(*old(sim), old(self).origin.0 as int, old(self).origin.1 as int),
            at.wf(),
            out.wf(),
        ensures
            stage_x_steps(
                *old(self),
                old(sim)@,
                *final(self),
                final(sim)@,
                at,
                *out,
                to,
            ),
            to.wf(),
            final(self).mem.wf(),
            final(sim).wf(),
            final(sim).len() == old(sim).len(),
    {
        match at {
            StageX::Start(l) => {
                let inj: Injected = self.step_start(sim, &l);
                StageX::Operands(l, inj)
            },
            StageX::Operands(l, inj) => {
                let phys: Option<u64> = self.step_operands(sim, &l, &inj, &out.sign);
                StageX::Compute(l, inj, phys)
            },
            StageX::Compute(l, inj, phys) => {
                let o: AluOutcome = self.step_compute(sim, &l, phys, out);
                StageX::Executed(
                    InStageX {
                        l,
                        inj,
                        phys,
                        o,
                        t: Granted {
                            alu: false,
                            wb_path: false,
                            high_reg_wb: false,
                            compare_flag: false,
                            sub_fn: false,
                            sub_fn_flag: false,
                            load: false,
                        },
                        high: false,
                        h: CommitHolds {
                            mul: None,
                            wb_data: None,
                            we_mask: None,
                            ram_gate: None,
                            flag_we: None,
                        },
                    },
                )
            },
            StageX::Executed(x) => {
                let mut o: AluOutcome = x.o;
                let t: Granted = self.step_executed(&x.l, x.phys, &mut o);
                StageX::Branch(InStageX { o, t, ..x })
            },
            StageX::Branch(x) => {
                let settle: bool = self.step_branch(sim, &x.l, out.taken);
                StageX::BranchSettle(x, settle)
            },
            StageX::BranchSettle(x, _) => {
                self.step_branch_settled(sim, &x.l);
                StageX::Select(x)
            },
            StageX::Select(x) => {
                self.step_select(sim, &x.l, &out.blocks);
                StageX::Selected(x)
            },
            StageX::Selected(x) => {
                let high: bool = self.step_selected(sim, &x);
                StageX::Product(InStageX { high, ..x })
            },
            StageX::Product(x) => {
                let h: CommitHolds = hold_for_commit(
                    &self.idx,
                    sim,
                    &x.l,
                    &self.auth,
                    &x.o,
                    self.gates.ram_decode.enabled,
                    out.product.as_ref(),
                );
                StageX::Commit(InStageX { h, ..x })
            },
            StageX::Commit(x) => {
                let again: bool = self.step_commit(sim, &x);
                StageX::Recommit(x, again)
            },
            StageX::Recommit(x, _) => {
                self.step_recommit(sim, &x);
                StageX::Clock(x)
            },
            StageX::Clock(x) => {
                self.step_clock(sim, &x);
                StageX::Captured(x)
            },
            StageX::Captured(x) => {
                self.step_captured(sim, &x);
                StageX::Registers(x)
            },
            StageX::Registers(x) => {
                let (z, c) = (self.arch.flag_z, self.arch.flag_c);
                self.step_registers(sim, &x);
                StageX::Flags(x, z, c)
            },
            StageX::Flags(x, z, c) => {
                self.step_flags(sim, &x.l, z, c);
                StageX::Verify(x.l, z, c)
            },
            StageX::Verify(l, z, c) => {
                self.step_verify(&l, z, c, out.taken);
                StageX::Done
            },
            StageX::Done => StageX::Done,
        }
    }
}

} // verus!
