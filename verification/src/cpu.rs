//! The CPU: its state, and what callers read and set between ticks.
use vstd::prelude::*;

use crate::bitset::has_tile;
use crate::branch::{branch_selector, branch_taken, branch_taken_truth_table, ctrl_b_of};
use crate::clock::{switched, ClockProfile};
use crate::clock_cache::{
    add_missing, bank0, captures, elide_software_writeback_from_clock_cache, no_flag,
    rebuild_no_flags_clock_cache, restore_ram_tiles, with_missing,
};
use crate::commit::DecodeTables;
use crate::compact::select_wvia;
use crate::debug::V2DebugSnapshot;
use crate::equivalence::is_at_reset;
use crate::execute::{MmioLog, StoreState};
use crate::fetch::rom_lanes;
use crate::gates::{CheckCounter, SynthGate};
use crate::latch::{PipelineLatch, V2HybridAssistCounters, V2StageTiming};
use crate::layout::V2CpuIndices;
use crate::memo::{AdaptiveDecode, SettleMemo};
use crate::memory::DataMemory;
use crate::pc_stage::{build_program_ext, program_ext, set_pc, tile_pc, with_pc};
use crate::scopes::{
    decode_rebuilt, is_memoizable, memo_rebuilt, scopes_rebuilt, EvalScopes, ScopeSources,
};
use crate::settle::SettleFlags;
use crate::simulation::{lists, Simulation, TileType};
use crate::slots::select;
use crate::state::{ArchState, Authority, Checks, PcMode, PipelineState, PropCounters, SynthGates};

verus! {

/// How many snapshots a memo keeps.
pub const MEMO_CAPACITY: usize = 256;

/// What the tiles were that gates turned into constants.
#[derive(Clone, Copy, Debug, PartialEq, Eq, Structural)]
pub struct SavedTiles {
    pub branch_taken: TileType,
    pub rd_decode: TileType,
    pub we_mask: TileType,
    pub flag_we_mask: TileType,
    pub ram_decode: TileType,
}

/// The first eight memory tiles at three moments of the last store: after the commit settle,
/// before the clock edge and after it.
#[derive(Clone, Copy)]
pub struct RamSnapshots {
    pub post_commit: [u64; 8],
    pub post_reinject: [u64; 8],
    pub post_clock: [u64; 8],
}

/// The CPU.
pub struct TileCpuV2 {
    /// The column and row of the CPU's corner on the grid.
    pub origin: (usize, usize),
    pub idx: V2CpuIndices,
    pub clock_cache_no_flags: Vec<usize>,
    pub arch: ArchState,
    pub mem: DataMemory,
    pub mode: PcMode,
    /// The program words that the tiles have no memory for.
    pub program_ext: Vec<u32>,
    pub gates: SynthGates,
    pub auth: Authority,
    pub checks: Checks,
    pub pipe: PipelineState,
    pub prop: PropCounters,
    pub tables: DecodeTables,
    pub scopes: EvalScopes,
    pub settle_flags: SettleFlags,
    pub settle_memo: SettleMemo,
    pub decode_memo: SettleMemo,
    pub adaptive: AdaptiveDecode,
    pub clock_flags: ClockProfile,
    pub clock_noflags: ClockProfile,
    pub clock_auto_warmup: bool,
    pub store: StoreState,
    pub ram_snaps: RamSnapshots,
    pub saved: SavedTiles,
    pub hybrid: V2HybridAssistCounters,
    pub timing: V2StageTiming,
    pub stage_timing: bool,
    pub convergence_probe: bool,
    pub log: MmioLog,
    /// How often each settle operation switched, while that is counted; else empty.
    pub settle_switch_counts: Vec<u32>,
    pub settle_overlap_buckets: [u64; 5],
}

/// The counter at zero.
pub open spec fn no_checks() -> CheckCounter {
    CheckCounter { checks: 0, mismatches: 0 }
}

/// A gate out of force with nothing counted.
pub open spec fn new_gate() -> SynthGate {
    SynthGate { enabled: false, checks: 0, mismatches: 0 }
}

/// A gate just put in force.
pub open spec fn fresh_gate() -> SynthGate {
    SynthGate { enabled: true, checks: 0, mismatches: 0 }
}

impl TileCpuV2 {
    /// The CPU's tiles are on the grid.
    pub open spec fn on(self, sim: Simulation) -> bool {
        sim.wf() && self.idx.fits(sim.len())
    }

    /// A CPU at reset on the tiles of a layout. `ctrl_a` is control byte A of each opcode.
    pub fn from_wiring(origin: (usize, usize), idx: V2CpuIndices, ctrl_a: [u8; 32]) -> (cpu: Self)
        ensures
            is_at_reset(cpu),
            cpu.origin == origin,
            cpu.idx.upper_bank_dirty_indices@.len() == 0,
            cpu.idx.via_decode_inversion_dirty@.len() == 0,
            cpu.idx == (V2CpuIndices {
                upper_bank_dirty_indices: cpu.idx.upper_bank_dirty_indices,
                via_decode_inversion_dirty: cpu.idx.via_decode_inversion_dirty,
                ..idx
            }),
            cpu.clock_cache_no_flags@ == idx.in_scope_clock_cache@,
            forall|i: int| 0 <= i < 16 ==> #[trigger] cpu.arch.regs@[i] == 0,
            cpu.arch == (ArchState {
                regs: cpu.arch.regs,
                pc: 0,
                lr: 0,
                flag_z: false,
                flag_c: false,
                halted: false,
            }),
            cpu.mem.wf(),
            cpu.mem.main_mem@.len() == 0,
            forall|i: int| 0 <= i < 128 ==> #[trigger] cpu.mem.ram@[i] == 0,
            cpu.mode == (PcMode {
                extended_pc: false,
                wide_pc: false,
                pc_addr_bits: 7,
                pc_phys_mask: 0x7F,
            }),
            cpu.program_ext@.len() == 0,
            cpu.pipe.latch.is_empty_latch(),
            cpu.pipe == (PipelineState {
                latch: cpu.pipe.latch,
                force_full_dirty: true,
                changed_regs_mask: 0xFFFF,
                ram_writeback_countdown: 2,
                reg_wb_countdown: 2,
                compact_eval_inhibit: false,
                compact_eval_inhibit_count: 0,
                compact_ops_stale: false,
                last_stage_x_valid: false,
                retired_count: 0,
                cycle_count: 0,
            }),
            cpu.tables.ctrl_a == ctrl_a,
            cpu.tables.combined is None,
            forall|k: int, z: bool, c: bool|
                0 <= k < 8 ==> cpu.tables.branch@[#[trigger] branch_selector(k, z, c)]
                    == branch_taken(k, z, c),
            cpu.scopes.is_empty(),
            cpu.settle_memo.is_new(MEMO_CAPACITY),
            cpu.decode_memo.is_new(MEMO_CAPACITY),
            !cpu.clock_auto_warmup,
            cpu.gates.branch == new_gate(),
            cpu.gates.rd_decode == new_gate(),
            cpu.gates.ctrl_b == new_gate(),
            cpu.gates.ctrl_a == new_gate(),
            cpu.gates.operand == new_gate(),
            cpu.gates.ram_decode == new_gate(),
            cpu.gates.alu == new_gate(),
            cpu.auth == Authority::no_authority(),
            cpu.checks.is_zero(),
            cpu.prop.is_zero(),
            cpu.adaptive == (AdaptiveDecode {
                enabled: false,
                warmup_calls: 16,
                mode: 0,
                skipped: 0,
            }),
            cpu.clock_flags.fresh(),
            cpu.clock_noflags.fresh(),
            cpu.settle_flags == (SettleFlags {
                hybrid: false,
                two_phase: false,
                no_dirty: false,
                prefiltered: false,
            }),
            !cpu.stage_timing,
            !cpu.convergence_probe,
            cpu.settle_switch_counts@.len() == 0,
            cpu.store == (StoreState { saved_via: None, inject_up_idx: 0, store_addr: 0 }),
            forall|i: int| 0 <= i < 8 ==> #[trigger] cpu.ram_snaps.post_commit@[i] == 0,
            forall|i: int| 0 <= i < 8 ==> #[trigger] cpu.ram_snaps.post_reinject@[i] == 0,
            forall|i: int| 0 <= i < 8 ==> #[trigger] cpu.ram_snaps.post_clock@[i] == 0,
            cpu.saved == (SavedTiles {
                branch_taken: TileType::Wire,
                rd_decode: TileType::Wire,
                we_mask: TileType::Wire,
                flag_we_mask: TileType::Wire,
                ram_decode: TileType::Wire,
            }),
            cpu.hybrid == (V2HybridAssistCounters {
                stage_f_bank_switches: 0,
                stage_f_mixed_dual_capture: 0,
                stage_x_mixed_software: 0,
                ram_high_bank_read_swaps: 0,
                rom_upper_bank_group_select: 0,
            }),
            cpu.timing == (V2StageTiming {
                stage_f_ns: 0,
                stage_x_ns: 0,
                branch_ns: 0,
                commit_ns: 0,
                clock_ns: 0,
                ram_ns: 0,
            }),
            cpu.log.reads@.len() == 0,
            cpu.log.writes@.len() == 0,
            forall|i: int| 0 <= i < 5 ==> #[trigger] cpu.settle_overlap_buckets@[i] == 0,
            cpu.clock_flags.live_wvia@.len() == 0,
            cpu.clock_noflags.live_wvia@.len() == 0,
    {
        let mut idx = idx;
        idx.upper_bank_dirty_indices = Vec::new();
        idx.via_decode_inversion_dirty = Vec::new();
        let mut no_flags: Vec<usize> = Vec::new();
        no_flags.extend_from_slice(idx.in_scope_clock_cache.as_slice());
        assert(no_flags@ =~= idx.in_scope_clock_cache@);
        let table: Vec<bool> = branch_taken_truth_table();
        let mut branch: [bool; 32] = [false; 32];
        let mut i: usize = 0;
        while i < 32
            invariant
                i <= 32,
                table@.len() == 32,
                forall|k: int| 0 <= k < i ==> #[trigger] branch@[k] == table@[k],
            decreases 32 - i,
        {
            branch[i] = table[i];
            i = i + 1;
        }
        assert(branch@ =~= table@);
        TileCpuV2 {
            origin,
            idx,
            clock_cache_no_flags: no_flags,
            arch: ArchState {
                regs: [0u64; 16],
                pc: 0,
                lr: 0,
                flag_z: false,
                flag_c: false,
                halted: false,
            },
            mem: DataMemory::new(),
            mode: PcMode::narrow(),
            program_ext: Vec::new(),
            gates: SynthGates::new(),
            auth: Authority::none(),
            checks: Checks::zero(),
            pipe: PipelineState {
                latch: PipelineLatch::empty(),
                force_full_dirty: true,
                changed_regs_mask: 0xFFFF,
                ram_writeback_countdown: 2,
                reg_wb_countdown: 2,
                compact_eval_inhibit: false,
                compact_eval_inhibit_count: 0,
                compact_ops_stale: false,
                last_stage_x_valid: false,
                retired_count: 0,
                cycle_count: 0,
            },
            prop: PropCounters::zero(),
            tables: DecodeTables { ctrl_a, combined: None, branch },
            scopes: EvalScopes::empty(),
            settle_flags: SettleFlags {
                hybrid: false,
                two_phase: false,
                no_dirty: false,
                prefiltered: false,
            },
            settle_memo: SettleMemo::new(MEMO_CAPACITY),
            decode_memo: SettleMemo::new(MEMO_CAPACITY),
            adaptive: AdaptiveDecode::new(),
            clock_flags: ClockProfile::new(),
            clock_noflags: ClockProfile::new(),
            clock_auto_warmup: false,
            store: StoreState { saved_via: None, inject_up_idx: 0, store_addr: 0 },
            ram_snaps: RamSnapshots {
                post_commit: [0u64; 8],
                post_reinject: [0u64; 8],
                post_clock: [0u64; 8],
            },
            saved: SavedTiles {
                branch_taken: TileType::Wire,
                rd_decode: TileType::Wire,
                we_mask: TileType::Wire,
                flag_we_mask: TileType::Wire,
                ram_decode: TileType::Wire,
            },
            hybrid: V2HybridAssistCounters {
                stage_f_bank_switches: 0,
                stage_f_mixed_dual_capture: 0,
                stage_x_mixed_software: 0,
                ram_high_bank_read_swaps: 0,
                rom_upper_bank_group_select: 0,
            },
            timing: V2StageTiming {
                stage_f_ns: 0,
                stage_x_ns: 0,
                branch_ns: 0,
                commit_ns: 0,
                clock_ns: 0,
                ram_ns: 0,
            },
            stage_timing: false,
            convergence_probe: false,
            log: MmioLog { reads: Vec::new(), writes: Vec::new() },
            settle_switch_counts: Vec::new(),
            settle_overlap_buckets: [0u64; 5],
        }
    }

    /// Put the branch gate in force: the tile that holds the decision becomes a constant.
    pub fn enable_synth_branch(&mut self, sim: &mut Simulation)
        requires
            old(self).on(*old(sim)),
        ensures
            if old(self).gates.branch.enabled {
                *final(self) == *old(self) && final(sim)@ == old(sim)@
            } else {
                &&& final(sim)@ == old(sim)@.retype(
                    old(self).idx.branch_taken_core_idx as int,
                    TileType::Const,
                ).put(old(self).idx.branch_taken_core_idx as int, 0)
                &&& *final(self) == (TileCpuV2 {
                    gates: SynthGates { branch: fresh_gate(), ..old(self).gates },
                    saved: SavedTiles {
                        branch_taken: old(sim)@.kinds[old(self).idx.branch_taken_core_idx as int],
                        ..old(self).saved
                    },
                    pipe: PipelineState { compact_ops_stale: true, ..old(self).pipe },
                    ..*old(self)
                })
            },
            final(sim).wf(),
            final(sim).len() == old(sim).len(),
    {
        if self.gates.branch.enabled {
            return;
        }
        let at: usize = self.idx.branch_taken_core_idx;
        self.saved.branch_taken = sim.tile_type(at);
        sim.set_tile(at, TileType::Const);
        sim.set_logic_value_by_idx(at, 0);
        self.gates.branch.enable();
        self.pipe.compact_ops_stale = true;
    }

    /// Take this gate out of force: the tile is what it was.
    pub fn disable_synth_branch(&mut self, sim: &mut Simulation)
        requires
            old(self).on(*old(sim)),
        ensures
            if old(self).gates.branch.enabled {
                &&& final(sim)@ == old(sim)@.retype(
                    old(self).idx.branch_taken_core_idx as int,
                    old(self).saved.branch_taken,
                )
                &&& *final(self) == (TileCpuV2 {
                    gates: SynthGates {
                        branch: SynthGate { enabled: false, ..old(self).gates.branch },
                        ..old(self).gates
                    },
                    pipe: PipelineState { compact_ops_stale: true, ..old(self).pipe },
                    ..*old(self)
                })
            } else {
                *final(self) == *old(self) && final(sim)@ == old(sim)@
            },
            final(sim).wf(),
            final(sim).len() == old(sim).len(),
    {
        if self.gates.branch.enabled {
            sim.set_tile(self.idx.branch_taken_core_idx, self.saved.branch_taken);
            self.gates.branch.disable();
            self.pipe.compact_ops_stale = true;
        }
    }

    /// Put the register decode gate in force: the decoder becomes a constant.
    pub fn enable_synth_rd_decode(&mut self, sim: &mut Simulation)
        requires
            old(self).on(*old(sim)),
        ensures
            if old(self).gates.rd_decode.enabled {
                *final(self) == *old(self) && final(sim)@ == old(sim)@
            } else {
                &&& final(sim)@ == old(sim)@.retype(
                    old(self).idx.rd_onehot_decode_idx as int,
                    TileType::Const,
                ).put(old(self).idx.rd_onehot_decode_idx as int, 0)
                &&& *final(self) == (TileCpuV2 {
                    gates: SynthGates { rd_decode: fresh_gate(), ..old(self).gates },
                    saved: SavedTiles {
                        rd_decode: old(sim)@.kinds[old(self).idx.rd_onehot_decode_idx as int],
                        ..old(self).saved
                    },
                    pipe: PipelineState { compact_ops_stale: true, ..old(self).pipe },
                    ..*old(self)
                })
            },
            final(sim).wf(),
            final(sim).len() == old(sim).len(),
    {
        if self.gates.rd_decode.enabled {
            return;
        }
        let at: usize = self.idx.rd_onehot_decode_idx;
        self.saved.rd_decode = sim.tile_type(at);
        sim.set_tile(at, TileType::Const);
        sim.set_logic_value_by_idx(at, 0);
        self.gates.rd_decode.enable();
        self.pipe.compact_ops_stale = true;
    }

    /// Take this gate out of force: the tile is what it was.
    pub fn disable_synth_rd_decode(&mut self, sim: &mut Simulation)
        requires
            old(self).on(*old(sim)),
        ensures
            if old(self).gates.rd_decode.enabled {
                &&& final(sim)@ == old(sim)@.retype(
                    old(self).idx.rd_onehot_decode_idx as int,
                    old(self).saved.rd_decode,
                )
                &&& *final(self) == (TileCpuV2 {
                    gates: SynthGates {
                        rd_decode: SynthGate { enabled: false, ..old(self).gates.rd_decode },
                        ..old(self).gates
                    },
                    pipe: PipelineState { compact_ops_stale: true, ..old(self).pipe },
                    ..*old(self)
                })
            } else {
                *final(self) == *old(self) && final(sim)@ == old(sim)@
            },
            final(sim).wf(),
            final(sim).len() == old(sim).len(),
    {
        if self.gates.rd_decode.enabled {
            sim.set_tile(self.idx.rd_onehot_decode_idx, self.saved.rd_decode);
            self.gates.rd_decode.disable();
            self.pipe.compact_ops_stale = true;
        }
    }

    /// Put the row decode gate in force: the decoder becomes a constant and keeps its value.
    pub fn enable_synth_ram_decode(&mut self, sim: &mut Simulation)
        requires
            old(self).on(*old(sim)),
        ensures
            if old(self).gates.ram_decode.enabled {
                *final(self) == *old(self) && final(sim)@ == old(sim)@
            } else {
                &&& final(sim)@ == old(sim)@.retype(
                    old(self).idx.ram_write_decode_idx as int,
                    TileType::Const,
                )
                &&& *final(self) == (TileCpuV2 {
                    gates: SynthGates { ram_decode: fresh_gate(), ..old(self).gates },
                    saved: SavedTiles {
                        ram_decode: old(sim)@.kinds[old(self).idx.ram_write_decode_idx as int],
                        ..old(self).saved
                    },
                    pipe: PipelineState { compact_ops_stale: true, ..old(self).pipe },
                    ..*old(self)
                })
            },
            final(sim).wf(),
            final(sim).len() == old(sim).len(),
    {
        if self.gates.ram_decode.enabled {
            return;
        }
        let at: usize = self.idx.ram_write_decode_idx;
        self.saved.ram_decode = sim.tile_type(at);
        sim.set_tile(at, TileType::Const);
        self.gates.ram_decode.enable();
        self.pipe.compact_ops_stale = true;
    }

    /// Take this gate out of force: the tile is what it was.
    pub fn disable_synth_ram_decode(&mut self, sim: &mut Simulation)
        requires
            old(self).on(*old(sim)),
        ensures
            if old(self).gates.ram_decode.enabled {
                &&& final(sim)@ == old(sim)@.retype(
                    old(self).idx.ram_write_decode_idx as int,
                    old(self).saved.ram_decode,
                )
                &&& *final(self) == (TileCpuV2 {
                    gates: SynthGates {
                        ram_decode: SynthGate { enabled: false, ..old(self).gates.ram_decode },
                        ..old(self).gates
                    },
                    pipe: PipelineState { compact_ops_stale: true, ..old(self).pipe },
                    ..*old(self)
                })
            } else {
                *final(self) == *old(self) && final(sim)@ == old(sim)@
            },
            final(sim).wf(),
            final(sim).len() == old(sim).len(),
    {
        if self.gates.ram_decode.enabled {
            sim.set_tile(self.idx.ram_write_decode_idx, self.saved.ram_decode);
            self.gates.ram_decode.disable();
            self.pipe.compact_ops_stale = true;
        }
    }

    /// Put this gate in force, unless it is.
    pub fn enable_synth_ctrl_b(&mut self)
        ensures
            *final(self) == if old(self).gates.ctrl_b.enabled {
                *old(self)
            } else {
                TileCpuV2 {
                    gates: SynthGates { ctrl_b: fresh_gate(), ..old(self).gates },
                    ..*old(self)
                }
            },
    {
        if !self.gates.ctrl_b.enabled {
            self.gates.ctrl_b.enable();
        }
    }

    /// Take this gate out of force.
    pub fn disable_synth_ctrl_b(&mut self)
        ensures
            *final(self) == (TileCpuV2 {
                gates: SynthGates {
                    ctrl_b: SynthGate { enabled: false, ..old(self).gates.ctrl_b },
                    ..old(self).gates
                },
                ..*old(self)
            }),
    {
        self.gates.ctrl_b.disable();
    }

    /// Put this gate in force, unless it is.
    pub fn enable_synth_operand_bypass(&mut self)
        ensures
            *final(self) == if old(self).gates.operand.enabled {
                *old(self)
            } else {
                TileCpuV2 {
                    gates: SynthGates { operand: fresh_gate(), ..old(self).gates },
                    ..*old(self)
                }
            },
    {
        if !self.gates.operand.enabled {
            self.gates.operand.enable();
        }
    }

    /// Take this gate out of force.
    pub fn disable_synth_operand_bypass(&mut self)
        ensures
            *final(self) == (TileCpuV2 {
                gates: SynthGates {
                    operand: SynthGate { enabled: false, ..old(self).gates.operand },
                    ..old(self).gates
                },
                ..*old(self)
            }),
    {
        self.gates.operand.disable();
    }

    /// Put the control byte A gate in force: the register and flag write enables become
    /// constants.
    pub fn enable_synth_ctrl_a(&mut self, sim: &mut Simulation)
        requires
            old(self).on(*old(sim)),
        ensures
            ({
                let we = old(self).idx.we_mask_const_idx as int;
                let fw = old(self).idx.flag_we_mask_const_idx as int;
                let g1 = old(sim)@.retype(we, TileType::Const).put(we, 0);
                if old(self).gates.ctrl_a.enabled {
                    *final(self) == *old(self) && final(sim)@ == old(sim)@
                } else {
                    &&& final(sim)@ == g1.retype(fw, TileType::Const).put(fw, 0)
                    &&& *final(self) == (TileCpuV2 {
                        gates: SynthGates { ctrl_a: fresh_gate(), ..old(self).gates },
                        saved: SavedTiles {
                            we_mask: old(sim)@.kinds[we],
                            flag_we_mask: g1.kinds[fw],
                            ..old(self).saved
                        },
                        pipe: PipelineState { compact_ops_stale: true, ..old(self).pipe },
                        ..*old(self)
                    })
                }
            }),
            final(sim).wf(),
            final(sim).len() == old(sim).len(),
    {
        if self.gates.ctrl_a.enabled {
            return;
        }
        let we: usize = self.idx.we_mask_const_idx;
        let fw: usize = self.idx.flag_we_mask_const_idx;
        self.saved.we_mask = sim.tile_type(we);
        sim.set_tile(we, TileType::Const);
        sim.set_logic_value_by_idx(we, 0);
        self.saved.flag_we_mask = sim.tile_type(fw);
        sim.set_tile(fw, TileType::Const);
        sim.set_logic_value_by_idx(fw, 0);
        self.gates.ctrl_a.enable();
        self.pipe.compact_ops_stale = true;
    }

    /// Take the control byte A gate out of force: the write enables are what they were.
    pub fn disable_synth_ctrl_a(&mut self, sim: &mut Simulation)
        requires
            old(self).on(*old(sim)),
        ensures
            if old(self).gates.ctrl_a.enabled {
                &&& final(sim)@ == old(sim)@.retype(
                    old(self).idx.we_mask_const_idx as int,
                    old(self).saved.we_mask,
                ).retype(
                    old(self).idx.flag_we_mask_const_idx as int,
                    old(self).saved.flag_we_mask,
                )
                &&& *final(self) == (TileCpuV2 {
                    gates: SynthGates {
                        ctrl_a: SynthGate { enabled: false, ..old(self).gates.ctrl_a },
                        ..old(self).gates
                    },
                    pipe: PipelineState { compact_ops_stale: true, ..old(self).pipe },
                    ..*old(self)
                })
            } else {
                *final(self) == *old(self) && final(sim)@ == old(sim)@
            },
            final(sim).wf(),
            final(sim).len() == old(sim).len(),
    {
        if self.gates.ctrl_a.enabled {
            sim.set_tile(self.idx.we_mask_const_idx, self.saved.we_mask);
            sim.set_tile(self.idx.flag_we_mask_const_idx, self.saved.flag_we_mask);
            self.gates.ctrl_a.disable();
            self.pipe.compact_ops_stale = true;
        }
    }

    /// Compare the tile ALU's results from now on, counting from zero.
    pub fn enable_alu_readback(&mut self)
        ensures
            final(self).gates == (SynthGates { alu: fresh_gate(), ..old(self).gates }),
            forall|i: int| 0 <= i < 32 ==> #[trigger] final(self).checks.alu_opcode_mismatches@[i]
                == 0,
            *final(self) == (TileCpuV2 {
                gates: final(self).gates,
                checks: Checks {
                    reg_capture: no_checks(),
                    alu_mux_select_mismatches: 0,
                    alu_opcode_mismatches: final(self).checks.alu_opcode_mismatches,
                    ..old(self).checks
                },
                ..*old(self)
            }),
    {
        self.gates.alu.enable();
        self.checks.reg_capture = CheckCounter::zero();
        self.checks.alu_mux_select_mismatches = 0;
        self.checks.alu_opcode_mismatches = [0u64; 32];
    }

    /// Let a multiplier block deliver products, and compare the tile ALU's results.
    pub fn enable_synth_mul(&mut self)
        ensures
            *final(self) == (TileCpuV2 {
                gates: SynthGates { alu: fresh_gate(), ..old(self).gates },
                auth: Authority { mul: true, ..old(self).auth },
                ..*old(self)
            }),
    {
        self.gates.alu.enable();
        self.auth = Authority { mul: true, ..self.auth };
    }

    /// Use one table for both control bytes: A in the low byte, B in the high byte.
    pub fn set_combined_decode_lut(&mut self, lut: [u16; 32])
        ensures
            *final(self) == (TileCpuV2 {
                tables: DecodeTables { combined: Some(lut), ..old(self).tables },
                ..*old(self)
            }),
    {
        self.tables.combined = Some(lut);
    }

    /// Control byte B of each opcode.
    pub fn ctrl_b_lut() -> (r: [u8; 32])
        ensures
            forall|i: int| 0 <= i < 32 ==> #[trigger] r@[i] == ctrl_b_of(i),
    {
        crate::branch::ctrl_b_lut()
    }

    /// Let the tiles compute the upper trees' selectors. The listed tiles are marked with them.
    pub fn set_physical_via_decode(&mut self, enabled: bool, inversion_dirty: Vec<usize>)
        ensures
            *final(self) == (TileCpuV2 {
                auth: Authority { via_decode: enabled, ..old(self).auth },
                checks: Checks { via_decode: no_checks(), ..old(self).checks },
                idx: V2CpuIndices {
                    via_decode_inversion_dirty: inversion_dirty,
                    ..old(self).idx
                },
                ..*old(self)
            }),
    {
        self.auth = Authority { via_decode: enabled, ..self.auth };
        self.idx.via_decode_inversion_dirty = inversion_dirty;
        self.checks.via_decode = CheckCounter::zero();
    }

    /// Leave the tiles out of the clock edge that software writes back after it.
    pub fn elide_software_writeback_from_clock_cache(&mut self)
        ensures
            final(self).idx.in_scope_clock_cache@ == select(
                old(self).idx.in_scope_clock_cache@,
                captures(old(self).idx, old(self).idx.in_scope_clock_cache@),
            ),
            *final(self) == (TileCpuV2 {
                idx: V2CpuIndices {
                    in_scope_clock_cache: final(self).idx.in_scope_clock_cache,
                    ..old(self).idx
                },
                ..*old(self)
            }),
    {
        self.idx.in_scope_clock_cache = elide_software_writeback_from_clock_cache(
            &self.idx,
            &self.idx.in_scope_clock_cache,
        );
    }

    /// Let the lower registers capture on the clock edge again, and trust what they capture.
    pub fn restore_reg_clock_cache_for_physical_writeback(&mut self)
        ensures
            final(self).idx.in_scope_clock_cache@ == with_missing(
                old(self).idx.in_scope_clock_cache@,
                old(self).idx.reg_indices@.take(8),
                8,
            ),
            *final(self) == (TileCpuV2 {
                idx: V2CpuIndices {
                    in_scope_clock_cache: final(self).idx.in_scope_clock_cache,
                    ..old(self).idx
                },
                auth: Authority { reg_writeback: true, ..old(self).auth },
                checks: Checks { reg_wb: no_checks(), ..old(self).checks },
                ..*old(self)
            }),
    {
        let r: [usize; 16] = self.idx.reg_indices;
        let list: [usize; 8] = [r[0], r[1], r[2], r[3], r[4], r[5], r[6], r[7]];
        assert(list@ =~= r@.take(8));
        add_missing(&mut self.idx.in_scope_clock_cache, list.as_slice());
        self.auth = Authority { reg_writeback: true, ..self.auth };
        self.checks.reg_wb = CheckCounter::zero();
    }

    /// Let the upper registers capture on the clock edge again, and trust what they capture.
    pub fn restore_high_reg_clock_cache_for_physical_writeback(&mut self)
        ensures
            final(self).idx.in_scope_clock_cache@ == with_missing(
                old(self).idx.in_scope_clock_cache@,
                old(self).idx.reg_indices@.subrange(8, 16),
                8,
            ),
            *final(self) == (TileCpuV2 {
                idx: V2CpuIndices {
                    in_scope_clock_cache: final(self).idx.in_scope_clock_cache,
                    ..old(self).idx
                },
                auth: Authority { high_reg_writeback: true, ..old(self).auth },
                checks: Checks { high_reg_wb: no_checks(), ..old(self).checks },
                ..*old(self)
            }),
    {
        let r: [usize; 16] = self.idx.reg_indices;
        let list: [usize; 8] = [r[8], r[9], r[10], r[11], r[12], r[13], r[14], r[15]];
        assert(list@ =~= r@.subrange(8, 16));
        add_missing(&mut self.idx.in_scope_clock_cache, list.as_slice());
        self.auth = Authority { high_reg_writeback: true, ..self.auth };
        self.checks.high_reg_wb = CheckCounter::zero();
    }

    /// Let the flags capture on the clock edge again, and trust what they capture. The other
    /// cache, for instructions that write no flags, leaves them out.
    pub fn restore_flag_clock_cache_for_physical_writeback(&mut self)
        ensures
            final(self).idx.in_scope_clock_cache@ == with_missing(
                old(self).idx.in_scope_clock_cache@,
                seq![old(self).idx.flag_z_idx, old(self).idx.flag_c_idx],
                2,
            ),
            final(self).clock_cache_no_flags@ == select(
                final(self).idx.in_scope_clock_cache@,
                no_flag(old(self).idx, final(self).idx.in_scope_clock_cache@),
            ),
            *final(self) == (TileCpuV2 {
                idx: V2CpuIndices {
                    in_scope_clock_cache: final(self).idx.in_scope_clock_cache,
                    ..old(self).idx
                },
                clock_cache_no_flags: final(self).clock_cache_no_flags,
                auth: Authority { flag_writeback: true, ..old(self).auth },
                checks: Checks {
                    flag_wb: no_checks(),
                    flag_z_mismatches: 0,
                    flag_c_mismatches: 0,
                    ..old(self).checks
                },
                ..*old(self)
            }),
    {
        let list: [usize; 2] = [self.idx.flag_z_idx, self.idx.flag_c_idx];
        assert(list@ =~= seq![self.idx.flag_z_idx, self.idx.flag_c_idx]);
        add_missing(&mut self.idx.in_scope_clock_cache, list.as_slice());
        self.clock_cache_no_flags =
        rebuild_no_flags_clock_cache(&self.idx, &self.idx.in_scope_clock_cache);
        assert(no_flag(self.idx, self.idx.in_scope_clock_cache@) =~= no_flag(
            old(self).idx,
            self.idx.in_scope_clock_cache@,
        ));
        self.auth = Authority { flag_writeback: true, ..self.auth };
        self.checks.flag_wb = CheckCounter::zero();
        self.checks.flag_z_mismatches = 0;
        self.checks.flag_c_mismatches = 0;
    }

    /// Let the memory tiles capture on the clock edge, and compare them from now on. All of them
    /// join the clock cache; only the first eight join the clock scope.
    pub fn restore_ram_clock_cache_for_physical_writeback(&mut self)
        ensures
            final(self).idx.in_scope_clock_cache@ == with_missing(
                old(self).idx.in_scope_clock_cache@,
                old(self).idx.ram_indices@,
                128,
            ),
            final(self).idx.clock_scope_mask@.len() == old(self).idx.clock_scope_mask@.len(),
            forall|t: int| #[trigger]
                has_tile(final(self).idx.clock_scope_mask@, t) <==> (has_tile(
                    old(self).idx.clock_scope_mask@,
                    t,
                ) || (lists(bank0(old(self).idx), t) && t / 64
                    < old(self).idx.clock_scope_mask@.len())),
            *final(self) == (TileCpuV2 {
                idx: V2CpuIndices {
                    in_scope_clock_cache: final(self).idx.in_scope_clock_cache,
                    clock_scope_mask: final(self).idx.clock_scope_mask,
                    ..old(self).idx
                },
                auth: Authority { ram_writeback: true, ..old(self).auth },
                checks: Checks {
                    ram_wb: no_checks(),
                    ram_wb_store_mismatches: 0,
                    ram_wb_nonstore_mismatches: 0,
                    ..old(self).checks
                },
                ..*old(self)
            }),
    {
        let mut cache: Vec<usize> = Vec::new();
        let mut mask: Vec<u64> = Vec::new();
        std::mem::swap(&mut cache, &mut self.idx.in_scope_clock_cache);
        std::mem::swap(&mut mask, &mut self.idx.clock_scope_mask);
        restore_ram_tiles(&self.idx, &mut cache, &mut mask);
        self.idx.in_scope_clock_cache = cache;
        self.idx.clock_scope_mask = mask;
        self.auth = Authority { ram_writeback: true, ..self.auth };
        self.checks.ram_wb = CheckCounter::zero();
        self.checks.ram_wb_store_mismatches = 0;
        self.checks.ram_wb_nonstore_mismatches = 0;
    }

    /// Take the flags out of the clock cache for instructions that write none.
    pub fn rebuild_no_flags_clock_cache(&mut self)
        ensures
            final(self).clock_cache_no_flags@ == select(
                old(self).idx.in_scope_clock_cache@,
                no_flag(old(self).idx, old(self).idx.in_scope_clock_cache@),
            ),
            *final(self) == (TileCpuV2 {
                clock_cache_no_flags: final(self).clock_cache_no_flags,
                ..*old(self)
            }),
    {
        self.clock_cache_no_flags =
        rebuild_no_flags_clock_cache(&self.idx, &self.idx.in_scope_clock_cache);
    }

    /// Give the register decoder back to the tiles, and trust it.
    pub fn restore_rd_decode_tile(&mut self, sim: &mut Simulation)
        requires
            old(self).on(*old(sim)),
        ensures
            final(sim)@ == old(sim)@.retype(
                old(self).idx.rd_onehot_decode_idx as int,
                old(self).saved.rd_decode,
            ),
            *final(self) == (TileCpuV2 {
                auth: Authority { rd_decode: true, ..old(self).auth },
                pipe: PipelineState { compact_ops_stale: true, ..old(self).pipe },
                ..*old(self)
            }),
            final(sim).wf(),
            final(sim).len() == old(sim).len(),
    {
        sim.set_tile(self.idx.rd_onehot_decode_idx, self.saved.rd_decode);
        self.auth = Authority { rd_decode: true, ..self.auth };
        self.pipe.compact_ops_stale = true;
    }

    /// Give the register write enables back to the tiles, and trust them.
    pub fn restore_we_mask_tile(&mut self, sim: &mut Simulation)
        requires
            old(self).on(*old(sim)),
        ensures
            final(sim)@ == old(sim)@.retype(
                old(self).idx.we_mask_const_idx as int,
                old(self).saved.we_mask,
            ),
            *final(self) == (TileCpuV2 {
                auth: Authority { we_mask: true, ..old(self).auth },
                pipe: PipelineState { compact_ops_stale: true, ..old(self).pipe },
                ..*old(self)
            }),
            final(sim).wf(),
            final(sim).len() == old(sim).len(),
    {
        sim.set_tile(self.idx.we_mask_const_idx, self.saved.we_mask);
        self.auth = Authority { we_mask: true, ..self.auth };
        self.pipe.compact_ops_stale = true;
    }

    /// Give the flag write enables back to the tiles, and trust them.
    pub fn restore_flag_we_mask_tile(&mut self, sim: &mut Simulation)
        requires
            old(self).on(*old(sim)),
        ensures
            final(sim)@ == old(sim)@.retype(
                old(self).idx.flag_we_mask_const_idx as int,
                old(self).saved.flag_we_mask,
            ),
            *final(self) == (TileCpuV2 {
                auth: Authority { flag_we_mask: true, ..old(self).auth },
                pipe: PipelineState { compact_ops_stale: true, ..old(self).pipe },
                ..*old(self)
            }),
            final(sim).wf(),
            final(sim).len() == old(sim).len(),
    {
        sim.set_tile(self.idx.flag_we_mask_const_idx, self.saved.flag_we_mask);
        self.auth = Authority { flag_we_mask: true, ..self.auth };
        self.pipe.compact_ops_stale = true;
    }

    /// A register, as software mirrors it; zero for a number that is none.
    pub fn read_reg(&self, _sim: &Simulation, reg: usize) -> (r: u64)
        ensures
            r == if reg < 16 {
                self.arch.regs@[reg as int]
            } else {
                0
            },
    {
        if reg < 16 {
            self.arch.regs[reg]
        } else {
            0
        }
    }

    /// A register's tile; zero for a number that is none.
    pub fn read_physical_reg(&self, sim: &Simulation, reg: usize) -> (r: u64)
        requires
            self.on(*sim),
        ensures
            r == if reg < 16 {
                sim@.values[self.idx.reg_indices@[reg as int] as int]
            } else {
                0
            },
    {
        if reg < 16 {
            sim.get_logic_value_by_idx(self.idx.reg_indices[reg])
        } else {
            0
        }
    }

    /// What the operand trees see of a register: the tap of a lower register, the tile of an
    /// upper one.
    pub fn read_reg_tap(&self, sim: &Simulation, reg: usize) -> (r: u64)
        requires
            self.on(*sim),
        ensures
            r == if reg < 8 {
                sim@.values[self.idx.reg_tap_l1_indices@[reg as int] as int]
            } else if reg < 16 {
                sim@.values[self.idx.reg_indices@[reg as int] as int]
            } else {
                0
            },
    {
        if reg < 8 {
            sim.get_logic_value_by_idx(self.idx.reg_tap_l1_indices[reg])
        } else if reg < 16 {
            sim.get_logic_value_by_idx(self.idx.reg_indices[reg])
        } else {
            0
        }
    }

    /// The destination register that the tiles extracted from the instruction.
    pub fn read_extract_rd(&self, sim: &Simulation) -> (r: u8)
        requires
            self.on(*sim),
        ensures
            ({
                let b = |i: int| sim@.values[self.idx.extract_rd_bit_indices@[i] as int] != 0;
                r == (if b(0) {
                    1int
                } else {
                    0int
                }) + (if b(1) {
                    2int
                } else {
                    0int
                }) + (if b(2) {
                    4int
                } else {
                    0int
                })
            }),
    {
        let mut r: u8 = 0;
        if sim.get_logic_value_by_idx(self.idx.extract_rd_bit_indices[0]) != 0 {
            r = r + 1;
        }
        if sim.get_logic_value_by_idx(self.idx.extract_rd_bit_indices[1]) != 0 {
            r = r + 2;
        }
        if sim.get_logic_value_by_idx(self.idx.extract_rd_bit_indices[2]) != 0 {
            r = r + 4;
        }
        r
    }

    /// Set a register, in software and in its tile. The pipeline is marked in full after a lower
    /// register is set.
    pub fn write_reg(&mut self, sim: &mut Simulation, reg: usize, value: u64)
        requires
            old(self).on(*old(sim)),
        ensures
            if reg < 16 {
                &&& final(self).arch.regs@ == old(self).arch.regs@.update(reg as int, value)
                &&& final(sim)@ == old(sim)@.put(
                    old(self).idx.reg_indices@[reg as int] as int,
                    value,
                )
                &&& *final(self) == (TileCpuV2 {
                    arch: ArchState { regs: final(self).arch.regs, ..old(self).arch },
                    pipe: PipelineState {
                        force_full_dirty: old(self).pipe.force_full_dirty || reg < 8,
                        ..old(self).pipe
                    },
                    ..*old(self)
                })
            } else {
                *final(self) == *old(self) && final(sim)@ == old(sim)@
            },
            final(sim).wf(),
            final(sim).len() == old(sim).len(),
    {
        if reg < 16 {
            self.arch.regs[reg] = value;
            sim.set_logic_value_by_idx(self.idx.reg_indices[reg], value);
            if reg < 8 {
                self.pipe.force_full_dirty = true;
            }
        }
    }

    /// Set the program counter, in software and in its tiles.
    pub fn write_pc(&mut self, sim: &mut Simulation, value: u32)
        requires
            old(self).on(*old(sim)),
        ensures
            *final(self) == (TileCpuV2 {
                arch: ArchState { pc: value & old(self).mode.pc_phys_mask, ..old(self).arch },
                ..*old(self)
            }),
            final(sim)@ == with_pc(
                old(self).idx,
                value & old(self).mode.pc_phys_mask,
                old(sim)@,
            ),
            final(sim).wf(),
            final(sim).len() == old(sim).len(),
    {
        set_pc(&self.idx, &self.mode, sim, &mut self.arch, value);
    }

    /// Set the zero flag, in software and in its tile.
    pub fn write_flag_z(&mut self, sim: &mut Simulation, value: bool)
        requires
            old(self).on(*old(sim)),
        ensures
            *final(self) == (TileCpuV2 {
                arch: ArchState { flag_z: value, ..old(self).arch },
                ..*old(self)
            }),
            final(sim)@ == old(sim)@.put(
                old(self).idx.flag_z_idx as int,
                if value {
                    1
                } else {
                    0
                },
            ),
            final(sim).wf(),
            final(sim).len() == old(sim).len(),
    {
        self.arch.flag_z = value;
        let v: u64 = if value {
            1
        } else {
            0
        };
        sim.set_logic_value_by_idx(self.idx.flag_z_idx, v);
    }

    /// Set the carry, in software and in its tile.
    pub fn write_flag_c(&mut self, sim: &mut Simulation, value: bool)
        requires
            old(self).on(*old(sim)),
        ensures
            *final(self) == (TileCpuV2 {
                arch: ArchState { flag_c: value, ..old(self).arch },
                ..*old(self)
            }),
            final(sim)@ == old(sim)@.put(
                old(self).idx.flag_c_idx as int,
                if value {
                    1
                } else {
                    0
                },
            ),
            final(sim).wf(),
            final(sim).len() == old(sim).len(),
    {
        self.arch.flag_c = value;
        let v: u64 = if value {
            1
        } else {
            0
        };
        sim.set_logic_value_by_idx(self.idx.flag_c_idx, v);
    }

    /// A data word; zero outside the memory.
    pub fn read_ram(&self, _sim: &Simulation, addr: usize) -> (r: u64)
        requires
            self.mem.wf(),
        ensures
            r == self.mem.word(addr as int),
    {
        self.mem.read(addr)
    }

    /// Set a data word, and the tile of a scratchpad word. Nothing happens outside the memory.
    pub fn write_ram(&mut self, sim: &mut Simulation, addr: usize, value: u64)
        requires
            old(self).on(*old(sim)),
            old(self).mem.wf(),
        ensures
            final(self).mem.writes(old(self).mem, addr as int, value),
            final(self).mem.wf(),
            *final(self) == (TileCpuV2 { mem: final(self).mem, ..*old(self) }),
            final(sim)@ == if addr < 128 {
                old(sim)@.put(old(self).idx.ram_indices@[addr as int] as int, value)
            } else {
                old(sim)@
            },
            final(sim).wf(),
            final(sim).len() == old(sim).len(),
    {
        self.mem.write(addr, value);
        if addr < 128 {
            sim.set_logic_value_by_idx(self.idx.ram_indices[addr], value);
        }
    }

    /// The tile of a scratchpad word.
    pub fn ram_tile_idx(&self, addr: usize) -> (r: usize)
        requires
            addr < 128,
        ensures
            r == self.idx.ram_indices@[addr as int],
    {
        self.idx.ram_indices[addr]
    }

    /// Use the 256-word address space, with the words of the program that the tiles do not hold.
    pub fn enable_extended_pc(&mut self, program: &Vec<u32>)
        requires
            program@.len() <= u32::MAX,
        ensures
            final(self).program_ext@ == program_ext(program@, 0xFF),
            *final(self) == (TileCpuV2 {
                mode: PcMode {
                    extended_pc: true,
                    wide_pc: old(self).mode.wide_pc,
                    pc_addr_bits: 8,
                    pc_phys_mask: 0xFF,
                },
                program_ext: final(self).program_ext,
                ..*old(self)
            }),
    {
        self.mode.extend();
        self.program_ext = build_program_ext(program, 0xFF);
    }

    /// Use the 65536-word address space, with the words of the program that the tiles do not
    /// hold.
    pub fn enable_wide_pc(&mut self, program: &Vec<u32>)
        requires
            program@.len() <= u32::MAX,
        ensures
            final(self).program_ext@ == program_ext(program@, 0xFFFF),
            *final(self) == (TileCpuV2 {
                mode: PcMode {
                    extended_pc: true,
                    wide_pc: true,
                    pc_addr_bits: 16,
                    pc_phys_mask: 0xFFFF,
                },
                program_ext: final(self).program_ext,
                ..*old(self)
            }),
    {
        self.mode.widen();
        self.program_ext = build_program_ext(program, 0xFFFF);
    }

    /// Passes and evaluated tiles of each kind of pass: cone, settle, settle with constant
    /// selectors, branch, commit.
    pub fn per_path_prop_stats(&self) -> (r: [(u64, u64); 5])
        ensures
            r@ == seq![
                (self.prop.prop_cone_calls, self.prop.prop_cone_evals),
                (self.prop.prop_settle_calls, self.prop.prop_settle_evals),
                (self.prop.prop_constswap_calls, self.prop.prop_constswap_evals),
                (self.prop.prop_branch_calls, self.prop.prop_branch_evals),
                (self.prop.prop_commit_calls, self.prop.prop_commit_evals),
            ],
    {
        let r: [(u64, u64); 5] = [
            (self.prop.prop_cone_calls, self.prop.prop_cone_evals),
            (self.prop.prop_settle_calls, self.prop.prop_settle_evals),
            (self.prop.prop_constswap_calls, self.prop.prop_constswap_evals),
            (self.prop.prop_branch_calls, self.prop.prop_branch_evals),
            (self.prop.prop_commit_calls, self.prop.prop_commit_evals),
        ];
        assert(r@ =~= seq![
            (self.prop.prop_cone_calls, self.prop.prop_cone_evals),
            (self.prop.prop_settle_calls, self.prop.prop_settle_evals),
            (self.prop.prop_constswap_calls, self.prop.prop_constswap_evals),
            (self.prop.prop_branch_calls, self.prop.prop_branch_evals),
            (self.prop.prop_commit_calls, self.prop.prop_commit_evals),
        ]);
        r
    }

    /// The name and size of each scope.
    pub fn zone_scope_sizes(&self) -> (r: [(&'static str, usize); 3])
        ensures
            r@[0].0@ == "pipeline"@,
            r@[0].1 == self.idx.pipeline_scope@.len(),
            r@[1].0@ == "branch"@,
            r@[1].1 == self.idx.branch_scope@.len(),
            r@[2].0@ == "commit"@,
            r@[2].1 == self.idx.commit_scope@.len(),
    {
        [
            ("pipeline", self.idx.pipeline_scope.len()),
            ("branch", self.idx.branch_scope.len()),
            ("commit", self.idx.commit_scope.len()),
        ]
    }

    /// The first eight memory tiles at three moments of the last store.
    pub fn ram_snapshots(&self) -> (r: ([u64; 8], [u64; 8], [u64; 8]))
        ensures
            r.0 == self.ram_snaps.post_commit,
            r.1 == self.ram_snaps.post_reinject,
            r.2 == self.ram_snaps.post_clock,
    {
        (self.ram_snaps.post_commit, self.ram_snaps.post_reinject, self.ram_snaps.post_clock)
    }

    /// Count from now on how often each settle operation switches, where there are any.
    pub fn enable_settle_switch_counting(&mut self)
        ensures
            final(self).settle_switch_counts@ == if old(self).scopes.settle.ops@.len() > 0 {
                Seq::new(old(self).scopes.settle.ops@.len(), |i: int| 0u32)
            } else {
                old(self).settle_switch_counts@
            },
            *final(self) == (TileCpuV2 {
                settle_switch_counts: final(self).settle_switch_counts,
                ..*old(self)
            }),
    {
        let n: usize = self.scopes.settle.ops.len();
        if n > 0 {
            self.settle_switch_counts = vec![0u32; n];
            assert(self.settle_switch_counts@ =~= Seq::new(n as nat, |i: int| 0u32));
        }
    }

    /// Take the switch counts, and stop counting.
    pub fn take_settle_switch_counts(&mut self) -> (r: Vec<u32>)
        ensures
            r@ == old(self).settle_switch_counts@,
            final(self).settle_switch_counts@.len() == 0,
            *final(self) == (TileCpuV2 {
                settle_switch_counts: final(self).settle_switch_counts,
                ..*old(self)
            }),
    {
        let mut r: Vec<u32> = Vec::new();
        std::mem::swap(&mut r, &mut self.settle_switch_counts);
        r
    }

    /// Count from now on what switches at flag-writing edges, where edges are scheduled.
    pub fn enable_clock_cascade_counting(&mut self)
        ensures
            match old(self).scopes.clock_schedule {
                Some(s) => {
                    &&& final(self).clock_flags.counts@ == Seq::new(s.ops@.len(), |i: int| 0u32)
                    &&& final(self).clock_flags.warmup_remaining == u32::MAX
                    &&& final(self).clock_flags.live_ops@ == old(self).clock_flags.live_ops@
                    &&& final(self).clock_flags.live_wvia@ == old(self).clock_flags.live_wvia@
                },
                None => final(self).clock_flags == old(self).clock_flags,
            },
            *final(self) == (TileCpuV2 { clock_flags: final(self).clock_flags, ..*old(self) }),
    {
        match &self.scopes.clock_schedule {
            Some(s) => {
                self.clock_flags.start_counting(Some(s));
            },
            None => {},
        }
    }

    /// Take the counts of flag-writing edges, and stop counting.
    pub fn take_clock_cascade_counts(&mut self) -> (r: Vec<u32>)
        ensures
            r@ == old(self).clock_flags.counts@,
            final(self).clock_flags.counts@.len() == 0,
            final(self).clock_flags.warmup_remaining == 0,
            final(self).clock_flags.live_ops@ == old(self).clock_flags.live_ops@,
            final(self).clock_flags.live_wvia@ == old(self).clock_flags.live_wvia@,
            *final(self) == (TileCpuV2 { clock_flags: final(self).clock_flags, ..*old(self) }),
    {
        self.clock_flags.take_counts()
    }

    /// Keep the operations that switched, for both sorts of edge.
    pub fn build_live_clock_ops(&mut self, switch_counts: &Vec<u32>)
        requires
            old(self).scopes.clock_schedule matches Some(s) ==> s.wf(),
        ensures
            match old(self).scopes.clock_schedule {
                Some(s) if switch_counts@.len() == s.ops@.len() => {
                    &&& final(self).clock_flags.live_ops@ == select(
                        s.ops@,
                        switched(switch_counts@),
                    )
                    &&& final(self).clock_noflags.live_ops@ == select(
                        s.ops@,
                        switched(switch_counts@),
                    )
                    &&& final(self).clock_flags.live_wvia@ == select_wvia(
                        s.ops@,
                        s.wvia@,
                        switched(switch_counts@),
                        s.ops@.len(),
                    )
                    &&& final(self).clock_noflags.live_wvia@ == select_wvia(
                        s.ops@,
                        s.wvia@,
                        switched(switch_counts@),
                        s.ops@.len(),
                    )
                },
                _ => {
                    &&& final(self).clock_flags.live_ops@ == old(self).clock_flags.live_ops@
                    &&& final(self).clock_noflags.live_ops@ == old(self).clock_noflags.live_ops@
                    &&& final(self).clock_flags.live_wvia@ == old(self).clock_flags.live_wvia@
                    &&& final(self).clock_noflags.live_wvia@ == old(self).clock_noflags.live_wvia@
                },
            },
            *final(self) == (TileCpuV2 {
                clock_flags: final(self).clock_flags,
                clock_noflags: final(self).clock_noflags,
                ..*old(self)
            }),
            final(self).clock_flags.counts@ == old(self).clock_flags.counts@,
            final(self).clock_flags.warmup_remaining == old(self).clock_flags.warmup_remaining,
            final(self).clock_noflags.counts@ == old(self).clock_noflags.counts@,
            final(self).clock_noflags.warmup_remaining == old(self).clock_noflags.warmup_remaining,
    {
        match &self.scopes.clock_schedule {
            Some(s) => {
                self.clock_flags.build_live_profile(switch_counts, s);
                self.clock_noflags.build_live_profile(switch_counts, s);
            },
            None => {},
        }
    }

    /// Hits, misses and kept snapshots of the settle memo.
    pub fn read_memoization_stats(&self) -> (r: (u64, u64, usize))
        requires
            self.settle_memo.wf(),
        ensures
            r.0 == self.settle_memo.hits,
            r.1 == self.settle_memo.misses,
            r.2 == self.settle_memo.cache.order@.len(),
    {
        self.settle_memo.stats()
    }

    /// Hits, misses and kept snapshots of the decode memo.
    pub fn read_decode_memoization_stats(&self) -> (r: (u64, u64, usize))
        requires
            self.decode_memo.wf(),
        ensures
            r.0 == self.decode_memo.hits,
            r.1 == self.decode_memo.misses,
            r.2 == self.decode_memo.cache.order@.len(),
    {
        self.decode_memo.stats()
    }

    /// How many tiles key the decode memo, how many it restores, and how many operations remain.
    pub fn read_decode_partition_sizes(&self) -> (r: (usize, usize, usize))
        ensures
            r.0 == self.decode_memo.input_indices@.len(),
            r.1 == self.decode_memo.output_indices@.len(),
            r.2 == self.scopes.execute.ops@.len(),
    {
        (
            self.decode_memo.input_indices.len(),
            self.decode_memo.output_indices.len(),
            self.scopes.execute.ops.len(),
        )
    }

    /// Forget what the settle memo keeps, and count from zero.
    pub fn reset_memoization_cache(&mut self)
        ensures
            final(self).settle_memo.wf(),
            final(self).settle_memo.cache.order@.len() == 0,
            final(self).settle_memo.hits == 0,
            final(self).settle_memo.misses == 0,
            final(self).settle_memo.enabled == old(self).settle_memo.enabled,
            final(self).settle_memo.input_indices == old(self).settle_memo.input_indices,
            final(self).settle_memo.output_indices == old(self).settle_memo.output_indices,
            *final(self) == (TileCpuV2 { settle_memo: final(self).settle_memo, ..*old(self) }),
    {
        self.settle_memo.reset();
    }

    /// Forget what the decode memo keeps, and count from zero.
    pub fn reset_decode_memoization_cache(&mut self)
        ensures
            final(self).decode_memo.wf(),
            final(self).decode_memo.cache.order@.len() == 0,
            final(self).decode_memo.hits == 0,
            final(self).decode_memo.misses == 0,
            final(self).decode_memo.enabled == old(self).decode_memo.enabled,
            final(self).decode_memo.input_indices == old(self).decode_memo.input_indices,
            final(self).decode_memo.output_indices == old(self).decode_memo.output_indices,
            *final(self) == (TileCpuV2 { decode_memo: final(self).decode_memo, ..*old(self) }),
    {
        self.decode_memo.reset();
    }

    /// Gate the decode memo by its hit rate, after a warm-up of at least one lookup.
    pub fn set_adaptive_decode_memoization(&mut self, enable: bool, warmup_calls: u32)
        ensures
            *final(self) == (TileCpuV2 {
                adaptive: AdaptiveDecode {
                    enabled: enable,
                    warmup_calls: if warmup_calls == 0 {
                        1
                    } else {
                        warmup_calls
                    },
                    ..old(self).adaptive
                },
                ..*old(self)
            }),
    {
        self.adaptive.configure(enable, warmup_calls);
    }

    /// Lookups skipped, the gating's mode, and the decode memo's hits and lookups.
    pub fn read_adaptive_decode_stats(&self) -> (r: (u64, u8, u64, u64))
        requires
            self.decode_memo.hits + self.decode_memo.misses <= u64::MAX,
        ensures
            r.0 == self.adaptive.skipped,
            r.1 == self.adaptive.mode,
            r.2 == self.decode_memo.hits,
            r.3 == self.decode_memo.hits + self.decode_memo.misses,
    {
        (
            self.adaptive.skipped,
            self.adaptive.mode,
            self.decode_memo.hits,
            self.decode_memo.hits + self.decode_memo.misses,
        )
    }

    /// Let the gating of the decode memo warm up again.
    pub fn reset_adaptive_decode_state(&mut self)
        ensures
            *final(self) == (TileCpuV2 {
                adaptive: AdaptiveDecode { mode: 0, skipped: 0, ..old(self).adaptive },
                ..*old(self)
            }),
    {
        self.adaptive.reset();
    }

    /// Allocate main memory above the scratchpad; none for zero words.
    pub fn configure_main_memory(&mut self, words: usize)
        requires
            words < usize::MAX / 4,
        
        ensures
            final(self).mem.wf(),
            final(self).mem.ram@ == old(self).mem.ram@,
            final(self).mem.main_mem@ == Seq::new(final(self).mem.main_mem@.len(), |i: int| 0u64),
            words == 0 ==> final(self).mem.main_mem@.len() == 0,
            words > 0 ==> final(self).mem.main_mem@.len() >= words && final(self).mem.main_mem@.len() + 128
                < 2 * (words + 128),
            *final(self) == (TileCpuV2 { mem: final(self).mem, ..*old(self) }),
    {
        self.mem.configure_main_memory(words);
    }

    /// The extension half of the instruction word at the program counter.
    pub fn read_ir_ext(&self, sim: &Simulation) -> (r: u16)
        requires
            self.on(*sim),
        ensures
            ({
                let pc = tile_pc(self.idx, self.mode, sim@);
                let lanes = rom_lanes(self.idx, self.mode, self.program_ext@, pc, sim@);
                r == (lanes[3] % 256) * 256 + lanes[2] % 256
            }),
    {
        crate::fetch::read_ir_ext(&self.idx, &self.mode, &self.program_ext, sim)
    }

    /// The architectural state, with the instruction in the latch.
    pub fn debug_snapshot(&self, _sim: &Simulation) -> (s: V2DebugSnapshot)
        ensures
            s == (V2DebugSnapshot {
                pc: self.arch.pc,
                ir_low: self.pipe.latch.ir_low,
                ir_ext: self.pipe.latch.ir_ext,
                flag_z: self.arch.flag_z,
                flag_c: self.arch.flag_c,
                halted: self.arch.halted,
                regs: self.arch.regs,
            }),
    {
        crate::debug::debug_snapshot(&self.arch, &self.pipe.latch)
    }

    /// Mark the branch path for a fresh evaluation with the present control byte and flags.
    pub fn mark_branch_snapshot(&self, sim: &mut Simulation)
        requires
            self.on(*old(sim)),
        ensures
            final(sim)@ == old(sim)@.mark(self.idx.branch_ctrl_b_l1_tap_idx as int).mark(
                self.idx.branch_flag_z_l1_tap_idx as int,
            ).mark(self.idx.branch_flag_c_l1_tap_idx as int).mark_all(
                self.idx.branch_flag_dirty_indices@,
            ),
            final(sim).wf(),
            final(sim).len() == old(sim).len(),
    {
        sim.mark_dirty(self.idx.branch_ctrl_b_l1_tap_idx);
        sim.mark_dirty(self.idx.branch_flag_z_l1_tap_idx);
        sim.mark_dirty(self.idx.branch_flag_c_l1_tap_idx);
        sim.mark_all(&self.idx.branch_flag_dirty_indices);
    }

    /// The branch kind, the flags and the branch decision that the tiles hold.
    pub fn read_branch_snapshot(&self, sim: &Simulation) -> (r: (u8, bool, bool, bool))
        requires
            self.on(*sim),
        ensures
            r.0 == sim@.values[self.idx.ctrl_b_mux_idx as int] % 8,
            r.1 == (sim@.values[self.idx.flag_z_idx as int] != 0),
            r.2 == (sim@.values[self.idx.flag_c_idx as int] != 0),
            r.3 == (sim@.values[self.idx.branch_taken_core_idx as int] != 0),
    {
        (
            (sim.get_logic_value_by_idx(self.idx.ctrl_b_mux_idx) % 8) as u8,
            sim.get_logic_value_by_idx(self.idx.flag_z_idx) != 0,
            sim.get_logic_value_by_idx(self.idx.flag_c_idx) != 0,
            sim.get_logic_value_by_idx(self.idx.branch_taken_core_idx) != 0,
        )
    }

    /// Add tiles to the pipeline's and the clock's scope.
    pub fn extend_scope_masks_for_spine(&mut self, spine: &Vec<usize>)
        requires
            old(self).idx.clock_scope_mask@.len() >= old(self).idx.pipeline_scope_mask@.len(),
        ensures
            ({
                let n = old(self).idx.pipeline_scope_mask@.len();
                &&& forall|t: int| #[trigger]
                    has_tile(final(self).idx.pipeline_scope_mask@, t) <==> (has_tile(
                        old(self).idx.pipeline_scope_mask@,
                        t,
                    ) || (lists(spine@, t) && t / 64 < n))
                &&& forall|t: int| #[trigger]
                    has_tile(final(self).idx.clock_scope_mask@, t) <==> (has_tile(
                        old(self).idx.clock_scope_mask@,
                        t,
                    ) || (lists(spine@, t) && t / 64 < n))
            }),
            final(self).idx.upper_bank_dirty_indices@ == old(
                self,
            ).idx.upper_bank_dirty_indices@ + spine@,
            *final(self) == (TileCpuV2 { idx: final(self).idx, ..*old(self) }),
    {
        crate::clock_cache::extend_scope_masks_for_spine(&mut self.idx, spine);
    }

    /// Rebuild every scope from what the grid gives.
    pub fn rebuild_eval_order(
        &mut self,
        pipeline_order: Vec<usize>,
        src: ScopeSources,
        nb: &Vec<[u32; 4]>,
    )
        requires
            src.wf(nb@),
            old(self).idx.fits(nb@.len()),
            nb@.len() <= 0x1_0000_0000,
        ensures
            final(self).idx == (V2CpuIndices {
                pipeline_eval_order: pipeline_order,
                ..old(self).idx
            }),
            !final(self).pipe.compact_ops_stale,
            scopes_rebuilt(final(self).scopes, src, final(self).idx, nb@.len()),
            final(self).settle_memo.wf(),
            final(self).settle_memo.cache.order@.len() == 0,
            final(self).settle_memo.hits == 0,
            final(self).settle_memo.misses == 0,
            final(self).settle_memo.enabled == old(self).settle_memo.enabled,
            final(self).settle_memo.cache.capacity == old(self).settle_memo.cache.capacity,
            final(self).scopes.backbone.ops@.len() == 0 ==> final(self).scopes.backbone_set == old(
                self,
            ).scopes.backbone_set,
            if is_memoizable(final(self).scopes) {
                memo_rebuilt(final(self).scopes, final(self).settle_memo, final(self).idx)
            } else {
                &&& final(self).settle_memo.input_indices@.len() == 0
                &&& final(self).settle_memo.output_indices@.len() == 0
            },
            decode_rebuilt(final(self).scopes, final(self).decode_memo, nb@, final(self).idx),
            final(self).decode_memo.wf(),
            final(self).decode_memo.enabled == old(self).decode_memo.enabled,
            final(self).decode_memo.hits == old(self).decode_memo.hits,
            final(self).decode_memo.misses == old(self).decode_memo.misses,
            final(self).decode_memo.cache.capacity == old(self).decode_memo.cache.capacity,
            *final(self) == (TileCpuV2 {
                idx: final(self).idx,
                scopes: final(self).scopes,
                settle_memo: final(self).settle_memo,
                decode_memo: final(self).decode_memo,
                pipe: PipelineState { compact_ops_stale: false, ..old(self).pipe },
                ..*old(self)
            }),
    {
        self.idx.pipeline_eval_order = pipeline_order;
        crate::scopes::rebuild_eval_order(
            &mut self.scopes,
            &mut self.settle_memo,
            &mut self.decode_memo,
            &self.idx,
            src,
            nb,
            &mut self.pipe.compact_ops_stale,
        );
    }
}

/// A gate that replaced a tile by a constant leaves the tile's kind as it was, once it is put in
/// force and taken out again.
pub proof fn law_gates_restore_tile_kinds(kinds: Seq<TileType>, i: int)
    requires
        0 <= i < kinds.len(),
    ensures
        kinds.update(i, TileType::Const).update(i, kinds[i]) == kinds,
{
    assert(kinds.update(i, TileType::Const).update(i, kinds[i]) =~= kinds);
}

} // verus!
