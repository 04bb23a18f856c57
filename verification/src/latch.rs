//! The pipeline latch between fetch and execute, and per-tick statistics.
use vstd::prelude::*;

use crate::isa::{ext_flag, fields_of};

verus! {

/// What the fetch stage hands to the execute stage.
#[derive(Clone, Copy, Debug, PartialEq, Eq, Structural)]
pub struct PipelineLatch {
    pub valid: bool,
    pub pc: u32,
    pub opcode: u8,
    pub rd: u8,
    pub ctrl_b: u8,
    pub ir_low: u8,
    pub ir_ext: u16,
    pub a: u64,
    pub b: u64,
    /// The operand tree outputs as the tiles settled them.
    pub phys_top_a: u64,
    pub phys_top_b: u64,
}

impl PipelineLatch {
    /// A latch that holds no instruction.
    pub open spec fn is_empty_latch(self) -> bool {
        self == (PipelineLatch {
            valid: false,
            pc: 0,
            opcode: 0,
            rd: 0,
            ctrl_b: 0,
            ir_low: 0,
            ir_ext: 0,
            a: 0,
            b: 0,
            phys_top_a: 0,
            phys_top_b: 0,
        })
    }

    /// The destination register is in the upper bank.
    pub open spec fn rd_hi(self) -> bool {
        ext_flag(self.ir_ext, 0)
    }

    /// The source register is in the upper bank.
    pub open spec fn rs_hi(self) -> bool {
        ext_flag(self.ir_ext, 1)
    }

    /// The instruction has a wide immediate.
    pub open spec fn wide(self) -> bool {
        ext_flag(self.ir_ext, 2)
    }

    /// The destination register.
    pub open spec fn rd_eff(self) -> int {
        (self.rd % 8) + if self.rd_hi() {
            8int
        } else {
            0int
        }
    }

    /// The immediate, extended to 16 bits when it is wide.
    pub open spec fn imm(self) -> u64 {
        if self.wide() {
            ((self.ir_ext / 256) * 256 + self.ir_low) as u64
        } else {
            self.ir_low as u64
        }
    }

    /// A latch that holds no instruction.
    pub fn empty() -> (l: Self)
        ensures
            l.is_empty_latch(),
    {
        PipelineLatch {
            valid: false,
            pc: 0,
            opcode: 0,
            rd: 0,
            ctrl_b: 0,
            ir_low: 0,
            ir_ext: 0,
            a: 0,
            b: 0,
            phys_top_a: 0,
            phys_top_b: 0,
        }
    }

    pub fn get_rd_hi(&self) -> (r: bool)
        ensures
            r == self.rd_hi(),
    {
        self.ir_ext % 2 == 1
    }

    pub fn get_rs_hi(&self) -> (r: bool)
        ensures
            r == self.rs_hi(),
    {
        (self.ir_ext / 2) % 2 == 1
    }

    pub fn get_wide(&self) -> (r: bool)
        ensures
            r == self.wide(),
    {
        (self.ir_ext / 4) % 2 == 1
    }

    pub fn get_rd_eff(&self) -> (r: usize)
        ensures
            r == self.rd_eff(),
            r < 16,
    {
        let low: usize = (self.rd % 8) as usize;
        if self.get_rd_hi() {
            low + 8
        } else {
            low
        }
    }

    pub fn get_imm(&self) -> (r: u64)
        ensures
            r == self.imm(),
    {
        if self.get_wide() {
            ((self.ir_ext / 256) as u64) * 256 + self.ir_low as u64
        } else {
            self.ir_low as u64
        }
    }

    /// The instruction word of the latch.
    pub fn compose_word(&self) -> (w: u32)
        ensures
            w == self.ir_ext * 65536 + (self.opcode % 32) * 2048 + (self.rd % 8) * 256
                + self.ir_low,
    {
        (self.ir_ext as u32) * 65536 + ((self.opcode % 32) as u32) * 2048 + ((self.rd % 8) as u32)
            * 256 + self.ir_low as u32
    }
}

proof fn lemma_word_parts(w: int, e: int, o: int, r: int, i: int)
    requires
        0 <= e < 65536,
        0 <= o < 32,
        0 <= r < 8,
        0 <= i < 256,
        w == e * 65536 + o * 2048 + r * 256 + i,
    ensures
        w / 65536 == e,
        (w / 2048) % 32 == o,
        (w / 256) % 8 == r,
        w % 256 == i,
{
    assert(w / 2048 == e * 32 + o);
    assert(w / 256 == e * 256 + o * 8 + r);
    assert((e * 32 + o) % 32 == o);
    assert((e * 256 + o * 8 + r) % 8 == r);
}

/// The word composed from a latch decodes back to the latch's fields.
pub proof fn law_latch_word_round_trips(l: PipelineLatch, w: u32)
    requires
        l.opcode < 32,
        l.rd < 8,
        w == l.ir_ext * 65536 + (l.opcode % 32) * 2048 + (l.rd % 8) * 256 + l.ir_low,
    ensures
        fields_of(w).opcode == l.opcode,
        fields_of(w).rd_lo == l.rd,
        fields_of(w).imm8 == l.ir_low,
        fields_of(w).ext == l.ir_ext,
        fields_of(w).rd == l.rd_eff(),
        fields_of(w).imm16 == l.imm(),
{
    lemma_word_parts(
        w as int,
        l.ir_ext as int,
        l.opcode as int,
        l.rd as int,
        l.ir_low as int,
    );
    assert(crate::isa::ext_of(w) == l.ir_ext);
}

/// Work done in one pipeline stage.
#[derive(Clone, Copy, Debug, PartialEq, Eq, Structural)]
pub struct StageStats {
    pub comb_deltas: u32,
    pub comb_eval: u32,
    pub comb_switched: u32,
    pub clock_deltas: u32,
    pub clock_eval: u32,
    pub clock_switched: u32,
    pub glitches: u32,
    pub converged: bool,
}

impl StageStats {
    pub fn empty() -> (s: Self)
        ensures
            s == (StageStats {
                comb_deltas: 0,
                comb_eval: 0,
                comb_switched: 0,
                clock_deltas: 0,
                clock_eval: 0,
                clock_switched: 0,
                glitches: 0,
                converged: true,
            }),
    {
        StageStats {
            comb_deltas: 0,
            comb_eval: 0,
            comb_switched: 0,
            clock_deltas: 0,
            clock_eval: 0,
            clock_switched: 0,
            glitches: 0,
            converged: true,
        }
    }

    /// Count one combinational pass.
    pub fn add_comb(&mut self, deltas: u32, eval: u32, switched: u32)
        requires
            old(self).comb_deltas + deltas <= u32::MAX,
            old(self).comb_eval + eval <= u32::MAX,
            old(self).comb_switched + switched <= u32::MAX,
        ensures
            *final(self) == (StageStats {
                comb_deltas: (old(self).comb_deltas + deltas) as u32,
                comb_eval: (old(self).comb_eval + eval) as u32,
                comb_switched: (old(self).comb_switched + switched) as u32,
                ..*old(self)
            }),
    {
        self.comb_deltas = self.comb_deltas + deltas;
        self.comb_eval = self.comb_eval + eval;
        self.comb_switched = self.comb_switched + switched;
    }

    /// Count one clock edge.
    pub fn add_clock(
        &mut self,
        deltas: u32,
        eval: u32,
        switched: u32,
        glitches: u32,
        converged: bool,
    )
        requires
            old(self).clock_deltas + deltas <= u32::MAX,
            old(self).clock_eval + eval <= u32::MAX,
            old(self).clock_switched + switched <= u32::MAX,
            old(self).glitches + glitches <= u32::MAX,
        ensures
            *final(self) == (StageStats {
                clock_deltas: (old(self).clock_deltas + deltas) as u32,
                clock_eval: (old(self).clock_eval + eval) as u32,
                clock_switched: (old(self).clock_switched + switched) as u32,
                glitches: (old(self).glitches + glitches) as u32,
                converged: old(self).converged && converged,
                ..*old(self)
            }),
    {
        self.clock_deltas = self.clock_deltas + deltas;
        self.clock_eval = self.clock_eval + eval;
        self.clock_switched = self.clock_switched + switched;
        self.glitches = self.glitches + glitches;
        self.converged = self.converged && converged;
    }
}

/// What one tick reports.
#[derive(Clone, Copy, Debug, PartialEq, Eq, Structural)]
pub struct TimingStats {
    pub critical_path_deltas: u32,
    pub tiles_switched: u32,
    pub tiles_evaluated: u32,
    pub total_deltas: u32,
    pub glitches_detected: u32,
    pub converged: bool,
}

/// The report of a tick from the work of its two stages: the longer combinational stage is
/// the critical path, everything else adds up.
pub open spec fn combined(f: StageStats, x: StageStats) -> TimingStats {
    TimingStats {
        critical_path_deltas: if f.comb_deltas >= x.comb_deltas {
            f.comb_deltas
        } else {
            x.comb_deltas
        },
        tiles_switched: (f.comb_switched + x.comb_switched + x.clock_switched) as u32,
        tiles_evaluated: (f.comb_eval + x.comb_eval + x.clock_eval) as u32,
        total_deltas: (f.comb_deltas + x.comb_deltas + x.clock_deltas) as u32,
        glitches_detected: x.glitches,
        converged: f.converged && x.converged,
    }
}

/// The report of a tick from the work of its two stages.
pub fn combine_stages(f: &StageStats, x: &StageStats) -> (t: TimingStats)
    requires
        work_fits(*f, *x),
    ensures
        t == combined(*f, *x),
{
    TimingStats {
        critical_path_deltas: if f.comb_deltas >= x.comb_deltas {
            f.comb_deltas
        } else {
            x.comb_deltas
        },
        tiles_switched: f.comb_switched + x.comb_switched + x.clock_switched,
        tiles_evaluated: f.comb_eval + x.comb_eval + x.clock_eval,
        total_deltas: f.comb_deltas + x.comb_deltas + x.clock_deltas,
        glitches_detected: x.glitches,
        converged: f.converged && x.converged,
    }
}

impl TimingStats {
    /// The report of no work at all.
    pub open spec fn is_blank(self) -> bool {
        self == (TimingStats {
            critical_path_deltas: 0,
            tiles_switched: 0,
            tiles_evaluated: 0,
            total_deltas: 0,
            glitches_detected: 0,
            converged: false,
        })
    }
}

impl Default for TimingStats {
    /// The report of no work at all.
    fn default() -> (t: Self)
        ensures
            t.is_blank(),
    {
        TimingStats {
            critical_path_deltas: 0,
            tiles_switched: 0,
            tiles_evaluated: 0,
            total_deltas: 0,
            glitches_detected: 0,
            converged: false,
        }
    }
}

/// The two stages of a tick did not work more than a report can tell.
pub open spec fn work_fits(f: StageStats, x: StageStats) -> bool {
    &&& f.comb_deltas + x.comb_deltas + x.clock_deltas <= u32::MAX
    &&& f.comb_eval + x.comb_eval + x.clock_eval <= u32::MAX
    &&& f.comb_switched + x.comb_switched + x.clock_switched <= u32::MAX
}

/// What a tick reports: nothing where there was none because the CPU is halted, else the work of
/// its two stages.
pub fn report_tick(ticked: bool, f: &StageStats, x: &StageStats) -> (t: TimingStats)
    requires
        ticked ==> work_fits(*f, *x),
    ensures
        !ticked ==> t.is_blank(),
        ticked ==> t == combined(*f, *x),
{
    if ticked {
        combine_stages(f, x)
    } else {
        TimingStats::default()
    }
}

/// Totals of a run, tick by tick.
#[derive(Clone, Copy, Debug, PartialEq, Eq, Structural)]
pub struct TileCpuMetrics {
    pub cycles: u64,
    pub instructions_executed: u64,
    pub total_deltas: u64,
    pub total_tiles_evaluated: u64,
    pub total_tiles_switched: u64,
    pub max_critical_path: u32,
    pub total_critical: u64,
    pub had_timing_violation: bool,
}

impl TileCpuMetrics {
    pub fn new() -> (m: Self)
        ensures
            m == (TileCpuMetrics {
                cycles: 0,
                instructions_executed: 0,
                total_deltas: 0,
                total_tiles_evaluated: 0,
                total_tiles_switched: 0,
                max_critical_path: 0,
                total_critical: 0,
                had_timing_violation: false,
            }),
    {
        TileCpuMetrics {
            cycles: 0,
            instructions_executed: 0,
            total_deltas: 0,
            total_tiles_evaluated: 0,
            total_tiles_switched: 0,
            max_critical_path: 0,
            total_critical: 0,
            had_timing_violation: false,
        }
    }

    /// The totals have room for one more tick.
    pub open spec fn room(self) -> bool {
        &&& self.cycles < u64::MAX
        &&& self.instructions_executed < u64::MAX
        &&& self.total_deltas + u32::MAX <= u64::MAX
        &&& self.total_tiles_evaluated + u32::MAX <= u64::MAX
        &&& self.total_tiles_switched + u32::MAX <= u64::MAX
        &&& self.total_critical + u32::MAX <= u64::MAX
    }

    /// Count one tick, and one instruction if the tick retired one.
    pub fn add_tick(&mut self, stats: &TimingStats, retired: bool)
        requires
            old(self).room(),
        ensures
            *final(self) == (TileCpuMetrics {
                cycles: (old(self).cycles + 1) as u64,
                instructions_executed: if retired {
                    (old(self).instructions_executed + 1) as u64
                } else {
                    old(self).instructions_executed
                },
                total_deltas: (old(self).total_deltas + stats.total_deltas) as u64,
                total_tiles_evaluated: (old(self).total_tiles_evaluated
                    + stats.tiles_evaluated) as u64,
                total_tiles_switched: (old(self).total_tiles_switched
                    + stats.tiles_switched) as u64,
                max_critical_path: if stats.critical_path_deltas > old(self).max_critical_path {
                    stats.critical_path_deltas
                } else {
                    old(self).max_critical_path
                },
                total_critical: (old(self).total_critical + stats.critical_path_deltas) as u64,
                had_timing_violation: old(self).had_timing_violation || !stats.converged,
            }),
    {
        self.cycles = self.cycles + 1;
        if retired {
            self.instructions_executed = self.instructions_executed + 1;
        }
        self.total_deltas = self.total_deltas + stats.total_deltas as u64;
        self.total_tiles_evaluated = self.total_tiles_evaluated + stats.tiles_evaluated as u64;
        self.total_tiles_switched = self.total_tiles_switched + stats.tiles_switched as u64;
        if stats.critical_path_deltas > self.max_critical_path {
            self.max_critical_path = stats.critical_path_deltas;
        }
        self.total_critical = self.total_critical + stats.critical_path_deltas as u64;
        if !stats.converged {
            self.had_timing_violation = true;
        }
    }
}

/// Counts of the moments when software stood in for tiles.
#[derive(Debug, Clone, Copy, PartialEq, Eq, Structural)]
pub struct V2HybridAssistCounters {
    pub stage_f_bank_switches: u64,
    pub stage_f_mixed_dual_capture: u64,
    pub stage_x_mixed_software: u64,
    pub ram_high_bank_read_swaps: u64,
    pub rom_upper_bank_group_select: u64,
}

/// Wall-clock time of each part of the last tick, in nanoseconds.
#[derive(Debug, Clone, Copy, PartialEq, Eq, Structural)]
pub struct V2StageTiming {
    pub stage_f_ns: u64,
    pub stage_x_ns: u64,
    pub branch_ns: u64,
    pub commit_ns: u64,
    pub clock_ns: u64,
    pub ram_ns: u64,
}

} // verus!
