//! The parts of the CPU's software state.
use vstd::prelude::*;

use crate::gates::{CheckCounter, SynthGate};
use crate::latch::PipelineLatch;

verus! {

/// Which paths the tiles decide. Where a path is not listed the software value is written.
#[derive(Clone, Copy, Debug, PartialEq, Eq, Structural)]
pub struct Authority {
    /// Bit `k` is set when the tile ALU decides the result of opcode `k`.
    pub alu_opcodes: u32,
    pub operand: bool,
    pub rd_decode: bool,
    pub we_mask: bool,
    pub flag_we_mask: bool,
    pub super_mux: bool,
    pub wb_data: bool,
    pub high_reg_writeback: bool,
    pub sub_fn_delivery: bool,
    pub sub_fn_flag: bool,
    pub load_delivery: bool,
    pub reg_writeback: bool,
    pub flag_writeback: bool,
    pub decode: bool,
    pub branch: bool,
    pub ram_writeback: bool,
    pub ram_store: bool,
    pub sra: bool,
    pub mul: bool,
    pub bitop: bool,
    pub ir_spine: bool,
    pub via_decode: bool,
    pub byte2_selector: bool,
}

impl Authority {
    /// The tile ALU decides the result of the opcode.
    pub open spec fn covers(self, opcode: u8) -> bool {
        (self.alu_opcodes >> (opcode as u32)) & 1 == 1
    }

    /// The tile ALU decides the result of the opcode.
    pub fn get_covers(&self, opcode: u8) -> (r: bool)
        requires
            opcode < 32,
        ensures
            r == self.covers(opcode),
    {
        (self.alu_opcodes >> (opcode as u32)) & 1 == 1
    }

    /// No path is decided by tiles.
    pub open spec fn no_authority() -> Authority {
        Authority {
            alu_opcodes: 0,
            operand: false,
            rd_decode: false,
            we_mask: false,
            flag_we_mask: false,
            super_mux: false,
            wb_data: false,
            high_reg_writeback: false,
            sub_fn_delivery: false,
            sub_fn_flag: false,
            load_delivery: false,
            reg_writeback: false,
            flag_writeback: false,
            decode: false,
            branch: false,
            ram_writeback: false,
            ram_store: false,
            sra: false,
            mul: false,
            bitop: false,
            ir_spine: false,
            via_decode: false,
            byte2_selector: false,
        }
    }

    /// No path is decided by tiles.
    pub fn none() -> (a: Self)
        ensures
            a == Authority::no_authority(),
    {
        Authority {
            alu_opcodes: 0,
            operand: false,
            rd_decode: false,
            we_mask: false,
            flag_we_mask: false,
            super_mux: false,
            wb_data: false,
            high_reg_writeback: false,
            sub_fn_delivery: false,
            sub_fn_flag: false,
            load_delivery: false,
            reg_writeback: false,
            flag_writeback: false,
            decode: false,
            branch: false,
            ram_writeback: false,
            ram_store: false,
            sra: false,
            mul: false,
            bitop: false,
            ir_spine: false,
            via_decode: false,
            byte2_selector: false,
        }
    }
}

/// The gates of the synthesized replacements.
#[derive(Clone, Copy, Debug, PartialEq, Eq, Structural)]
pub struct SynthGates {
    pub branch: SynthGate,
    pub rd_decode: SynthGate,
    pub ctrl_b: SynthGate,
    pub ctrl_a: SynthGate,
    pub operand: SynthGate,
    pub ram_decode: SynthGate,
    pub alu: SynthGate,
}

impl SynthGates {
    /// Every gate can count one more check and mismatch.
    pub open spec fn room(self) -> bool {
        &&& self.branch.room()
        &&& self.rd_decode.room()
        &&& self.ctrl_b.room()
        &&& self.ctrl_a.room()
        &&& self.operand.room()
        &&& self.ram_decode.room()
        &&& self.alu.room()
    }

    /// Every gate can count one more check and mismatch.
    pub fn has_room(&self) -> (r: bool)
        ensures
            r == self.room(),
    {
        self.branch.has_room()
            && self.rd_decode.has_room()
            && self.ctrl_b.has_room()
            && self.ctrl_a.has_room()
            && self.operand.has_room()
            && self.ram_decode.has_room()
            && self.alu.has_room()
    }

    /// Every gate out of force, with nothing counted.
    pub fn new() -> (g: Self)
        ensures
            g.branch == (SynthGate { enabled: false, checks: 0, mismatches: 0 }),
            g.rd_decode == (SynthGate { enabled: false, checks: 0, mismatches: 0 }),
            g.ctrl_b == (SynthGate { enabled: false, checks: 0, mismatches: 0 }),
            g.ctrl_a == (SynthGate { enabled: false, checks: 0, mismatches: 0 }),
            g.operand == (SynthGate { enabled: false, checks: 0, mismatches: 0 }),
            g.ram_decode == (SynthGate { enabled: false, checks: 0, mismatches: 0 }),
            g.alu == (SynthGate { enabled: false, checks: 0, mismatches: 0 }),
    {
        SynthGates {
            branch: SynthGate::new(),
            rd_decode: SynthGate::new(),
            ctrl_b: SynthGate::new(),
            ctrl_a: SynthGate::new(),
            operand: SynthGate::new(),
            ram_decode: SynthGate::new(),
            alu: SynthGate::new(),
        }
    }
}

/// The counters of the checks that compare tiles with software.
#[derive(Clone, Copy)]
pub struct Checks {
    pub operand: CheckCounter,
    pub rd_decode: CheckCounter,
    pub we_mask: CheckCounter,
    pub flag_we_mask: CheckCounter,
    pub super_mux: CheckCounter,
    pub upper_bank_ir: CheckCounter,
    pub wb_data: CheckCounter,
    pub high_reg_wb: CheckCounter,
    pub sub_fn_delivery: CheckCounter,
    pub load_delivery: CheckCounter,
    pub upper_alu_trunk: CheckCounter,
    pub reg_capture: CheckCounter,
    pub reg_wb: CheckCounter,
    pub flag_wb: CheckCounter,
    pub decode_ctrl_b: CheckCounter,
    pub decode_ctrl_a: CheckCounter,
    pub pc_override: CheckCounter,
    pub branch_dir: CheckCounter,
    pub ram_wb: CheckCounter,
    pub sra: CheckCounter,
    pub bitop: CheckCounter,
    pub ir_spine: CheckCounter,
    pub via_decode: CheckCounter,
    pub branch_target: CheckCounter,
    pub byte2_selector: CheckCounter,
    pub flag_z_mismatches: u64,
    pub flag_c_mismatches: u64,
    pub alu_mux_select_mismatches: u64,
    pub ram_wb_store_mismatches: u64,
    pub ram_wb_nonstore_mismatches: u64,
    pub combined_decode_checks: u64,
    pub alu_opcode_mismatches: [u64; 32],
    pub pc_mismatch_per_kind: [u64; 8],
}

impl Checks {
    /// Every counter has room for `n` more.
    pub open spec fn room(self, n: int) -> bool {
        &&& self.operand.room(n)
        &&& self.rd_decode.room(n)
        &&& self.we_mask.room(n)
        &&& self.flag_we_mask.room(n)
        &&& self.super_mux.room(n)
        &&& self.upper_bank_ir.room(n)
        &&& self.wb_data.room(n)
        &&& self.high_reg_wb.room(n)
        &&& self.sub_fn_delivery.room(n)
        &&& self.load_delivery.room(n)
        &&& self.upper_alu_trunk.room(n)
        &&& self.reg_capture.room(n)
        &&& self.reg_wb.room(n)
        &&& self.flag_wb.room(n)
        &&& self.decode_ctrl_b.room(n)
        &&& self.decode_ctrl_a.room(n)
        &&& self.pc_override.room(n)
        &&& self.branch_dir.room(n)
        &&& self.ram_wb.room(n)
        &&& self.sra.room(n)
        &&& self.bitop.room(n)
        &&& self.ir_spine.room(n)
        &&& self.via_decode.room(n)
        &&& self.branch_target.room(n)
        &&& self.byte2_selector.room(n)
        &&& self.flag_z_mismatches + n <= u64::MAX
        &&& self.flag_c_mismatches + n <= u64::MAX
        &&& self.alu_mux_select_mismatches + n <= u64::MAX
        &&& self.ram_wb_store_mismatches + n <= u64::MAX
        &&& self.ram_wb_nonstore_mismatches + n <= u64::MAX
        &&& self.combined_decode_checks + n <= u64::MAX
        &&& forall|i: int| 0 <= i < 32 ==> #[trigger] self.alu_opcode_mismatches@[i] + n <= u64::MAX
        &&& forall|i: int| 0 <= i < 8 ==> #[trigger] self.pc_mismatch_per_kind@[i] + n <= u64::MAX
    }

    /// Every counter has room for `n` more.
    pub fn has_room(&self, n: u64) -> (r: bool)
        ensures
            r == self.room(n as int),
    {
        let top: u64 = u64::MAX - n;
        let mut i: usize = 0;
        while i < 32
            invariant
                i <= 32,
                top == u64::MAX - n,
                forall|k: int| 0 <= k < i ==> #[trigger] self.alu_opcode_mismatches@[k] + n <= u64::MAX,
            decreases 32 - i,
        {
            if self.alu_opcode_mismatches[i] > top {
                return false;
            }
            i = i + 1;
        }
        let mut j: usize = 0;
        while j < 8
            invariant
                j <= 8,
                top == u64::MAX - n,
                forall|k: int| 0 <= k < j ==> #[trigger] self.pc_mismatch_per_kind@[k] + n <= u64::MAX,
            decreases 8 - j,
        {
            if self.pc_mismatch_per_kind[j] > top {
                return false;
            }
            j = j + 1;
        }
        self.operand.has_room(n)
            && self.rd_decode.has_room(n)
            && self.we_mask.has_room(n)
            && self.flag_we_mask.has_room(n)
            && self.super_mux.has_room(n)
            && self.upper_bank_ir.has_room(n)
            && self.wb_data.has_room(n)
            && self.high_reg_wb.has_room(n)
            && self.sub_fn_delivery.has_room(n)
            && self.load_delivery.has_room(n)
            && self.upper_alu_trunk.has_room(n)
            && self.reg_capture.has_room(n)
            && self.reg_wb.has_room(n)
            && self.flag_wb.has_room(n)
            && self.decode_ctrl_b.has_room(n)
            && self.decode_ctrl_a.has_room(n)
            && self.pc_override.has_room(n)
            && self.branch_dir.has_room(n)
            && self.ram_wb.has_room(n)
            && self.sra.has_room(n)
            && self.bitop.has_room(n)
            && self.ir_spine.has_room(n)
            && self.via_decode.has_room(n)
            && self.branch_target.has_room(n)
            && self.byte2_selector.has_room(n)
            && self.flag_z_mismatches <= top
            && self.flag_c_mismatches <= top
            && self.alu_mux_select_mismatches <= top
            && self.ram_wb_store_mismatches <= top
            && self.ram_wb_nonstore_mismatches <= top
            && self.combined_decode_checks <= top
    }

    /// Every counter is at zero.
    pub open spec fn is_zero(self) -> bool {
        &&& self.operand == (CheckCounter { checks: 0, mismatches: 0 })
        &&& self.rd_decode == (CheckCounter { checks: 0, mismatches: 0 })
        &&& self.we_mask == (CheckCounter { checks: 0, mismatches: 0 })
        &&& self.flag_we_mask == (CheckCounter { checks: 0, mismatches: 0 })
        &&& self.super_mux == (CheckCounter { checks: 0, mismatches: 0 })
        &&& self.upper_bank_ir == (CheckCounter { checks: 0, mismatches: 0 })
        &&& self.wb_data == (CheckCounter { checks: 0, mismatches: 0 })
        &&& self.high_reg_wb == (CheckCounter { checks: 0, mismatches: 0 })
        &&& self.sub_fn_delivery == (CheckCounter { checks: 0, mismatches: 0 })
        &&& self.load_delivery == (CheckCounter { checks: 0, mismatches: 0 })
        &&& self.upper_alu_trunk == (CheckCounter { checks: 0, mismatches: 0 })
        &&& self.reg_capture == (CheckCounter { checks: 0, mismatches: 0 })
        &&& self.reg_wb == (CheckCounter { checks: 0, mismatches: 0 })
        &&& self.flag_wb == (CheckCounter { checks: 0, mismatches: 0 })
        &&& self.decode_ctrl_b == (CheckCounter { checks: 0, mismatches: 0 })
        &&& self.decode_ctrl_a == (CheckCounter { checks: 0, mismatches: 0 })
        &&& self.pc_override == (CheckCounter { checks: 0, mismatches: 0 })
        &&& self.branch_dir == (CheckCounter { checks: 0, mismatches: 0 })
        &&& self.ram_wb == (CheckCounter { checks: 0, mismatches: 0 })
        &&& self.sra == (CheckCounter { checks: 0, mismatches: 0 })
        &&& self.bitop == (CheckCounter { checks: 0, mismatches: 0 })
        &&& self.ir_spine == (CheckCounter { checks: 0, mismatches: 0 })
        &&& self.via_decode == (CheckCounter { checks: 0, mismatches: 0 })
        &&& self.branch_target == (CheckCounter { checks: 0, mismatches: 0 })
        &&& self.byte2_selector == (CheckCounter { checks: 0, mismatches: 0 })
        &&& self.flag_z_mismatches == 0
        &&& self.flag_c_mismatches == 0
        &&& self.alu_mux_select_mismatches == 0
        &&& self.ram_wb_store_mismatches == 0
        &&& self.ram_wb_nonstore_mismatches == 0
        &&& self.combined_decode_checks == 0
        &&& forall|i: int| 0 <= i < 32 ==> #[trigger] self.alu_opcode_mismatches@[i] == 0
        &&& forall|i: int| 0 <= i < 8 ==> #[trigger] self.pc_mismatch_per_kind@[i] == 0
    }

    /// Every counter at zero.
    pub fn zero() -> (c: Self)
        ensures
            c.is_zero(),
    {
        Checks {
            operand: CheckCounter::zero(),
            rd_decode: CheckCounter::zero(),
            we_mask: CheckCounter::zero(),
            flag_we_mask: CheckCounter::zero(),
            super_mux: CheckCounter::zero(),
            upper_bank_ir: CheckCounter::zero(),
            wb_data: CheckCounter::zero(),
            high_reg_wb: CheckCounter::zero(),
            sub_fn_delivery: CheckCounter::zero(),
            load_delivery: CheckCounter::zero(),
            upper_alu_trunk: CheckCounter::zero(),
            reg_capture: CheckCounter::zero(),
            reg_wb: CheckCounter::zero(),
            flag_wb: CheckCounter::zero(),
            decode_ctrl_b: CheckCounter::zero(),
            decode_ctrl_a: CheckCounter::zero(),
            pc_override: CheckCounter::zero(),
            branch_dir: CheckCounter::zero(),
            ram_wb: CheckCounter::zero(),
            sra: CheckCounter::zero(),
            bitop: CheckCounter::zero(),
            ir_spine: CheckCounter::zero(),
            via_decode: CheckCounter::zero(),
            branch_target: CheckCounter::zero(),
            byte2_selector: CheckCounter::zero(),
            flag_z_mismatches: 0,
            flag_c_mismatches: 0,
            alu_mux_select_mismatches: 0,
            ram_wb_store_mismatches: 0,
            ram_wb_nonstore_mismatches: 0,
            combined_decode_checks: 0,
            alu_opcode_mismatches: [0u64; 32],
            pc_mismatch_per_kind: [0u64; 8],
        }
    }
}

/// The architectural registers, as software mirrors them.
#[derive(Clone, Copy)]
pub struct ArchState {
    pub regs: [u64; 16],
    pub pc: u32,
    pub lr: u32,
    pub flag_z: bool,
    pub flag_c: bool,
    pub halted: bool,
}

/// How wide the program counter is.
#[derive(Clone, Copy, Debug, PartialEq, Eq, Structural)]
pub struct PcMode {
    /// Software sequences the program counter, with more bits than the tiles decode.
    pub extended_pc: bool,
    /// The tiles hold the full program counter and step it.
    pub wide_pc: bool,
    pub pc_addr_bits: u8,
    pub pc_phys_mask: u32,
}

/// What the pipeline carries from one tick to the next.
#[derive(Clone, Copy, Debug, PartialEq, Eq, Structural)]
pub struct PipelineState {
    pub latch: PipelineLatch,
    pub force_full_dirty: bool,
    /// Bit `r` is set when register `r` changed since its data was last marked.
    pub changed_regs_mask: u16,
    pub ram_writeback_countdown: u8,
    pub reg_wb_countdown: u8,
    pub compact_eval_inhibit: bool,
    pub compact_eval_inhibit_count: u64,
    pub compact_ops_stale: bool,
    pub last_stage_x_valid: bool,
    pub retired_count: u64,
    pub cycle_count: u64,
}

/// Counters of the propagation passes.
#[derive(Clone, Copy)]
pub struct PropCounters {
    pub propagate_calls_total: u64,
    pub propagate_tiles_total: u64,
    pub cone_single_pass_checks: u64,
    pub cone_residual_changes: u64,
    pub compact_scan_total: u64,
    pub compact_active_total: u64,
    pub prop_cone_calls: u64,
    pub prop_cone_evals: u64,
    pub prop_settle_calls: u64,
    pub prop_settle_evals: u64,
    pub prop_settle_scan: u64,
    pub prop_constswap_calls: u64,
    pub prop_constswap_evals: u64,
    pub prop_branch_calls: u64,
    pub prop_branch_evals: u64,
    pub prop_commit_calls: u64,
    pub prop_commit_evals: u64,
    /// Settles by cause: fetch, selector correction, move or load-immediate, wide
    /// load-immediate, wide ALU immediate, arithmetic shift, operand trunk.
    pub settle_reason_counts: [u64; 7],
}

impl PropCounters {
    /// Every counter has room for `n` more.
    pub open spec fn room(self, n: int) -> bool {
        &&& self.propagate_calls_total + n <= u64::MAX
        &&& self.propagate_tiles_total + n <= u64::MAX
        &&& self.cone_single_pass_checks + n <= u64::MAX
        &&& self.cone_residual_changes + n <= u64::MAX
        &&& self.compact_scan_total + n <= u64::MAX
        &&& self.compact_active_total + n <= u64::MAX
        &&& self.prop_cone_calls + n <= u64::MAX
        &&& self.prop_cone_evals + n <= u64::MAX
        &&& self.prop_settle_calls + n <= u64::MAX
        &&& self.prop_settle_evals + n <= u64::MAX
        &&& self.prop_settle_scan + n <= u64::MAX
        &&& self.prop_constswap_calls + n <= u64::MAX
        &&& self.prop_constswap_evals + n <= u64::MAX
        &&& self.prop_branch_calls + n <= u64::MAX
        &&& self.prop_branch_evals + n <= u64::MAX
        &&& self.prop_commit_calls + n <= u64::MAX
        &&& self.prop_commit_evals + n <= u64::MAX
        &&& forall|i: int| 0 <= i < 7 ==> #[trigger] self.settle_reason_counts@[i] + n <= u64::MAX
    }

    /// Every counter has room for `n` more.
    pub fn has_room(&self, n: u64) -> (r: bool)
        ensures
            r == self.room(n as int),
    {
        let top: u64 = u64::MAX - n;
        let mut i: usize = 0;
        while i < 7
            invariant
                i <= 7,
                top == u64::MAX - n,
                forall|k: int| 0 <= k < i ==> #[trigger] self.settle_reason_counts@[k] + n <= u64::MAX,
            decreases 7 - i,
        {
            if self.settle_reason_counts[i] > top {
                return false;
            }
            i = i + 1;
        }
        self.propagate_calls_total <= top
            && self.propagate_tiles_total <= top
            && self.cone_single_pass_checks <= top
            && self.cone_residual_changes <= top
            && self.compact_scan_total <= top
            && self.compact_active_total <= top
            && self.prop_cone_calls <= top
            && self.prop_cone_evals <= top
            && self.prop_settle_calls <= top
            && self.prop_settle_evals <= top
            && self.prop_settle_scan <= top
            && self.prop_constswap_calls <= top
            && self.prop_constswap_evals <= top
            && self.prop_branch_calls <= top
            && self.prop_branch_evals <= top
            && self.prop_commit_calls <= top
            && self.prop_commit_evals <= top
    }

    /// Every counter is at zero.
    pub open spec fn is_zero(self) -> bool {
        &&& self.propagate_calls_total == 0
        &&& self.propagate_tiles_total == 0
        &&& self.cone_single_pass_checks == 0
        &&& self.cone_residual_changes == 0
        &&& self.compact_scan_total == 0
        &&& self.compact_active_total == 0
        &&& self.prop_cone_calls == 0
        &&& self.prop_cone_evals == 0
        &&& self.prop_settle_calls == 0
        &&& self.prop_settle_evals == 0
        &&& self.prop_settle_scan == 0
        &&& self.prop_constswap_calls == 0
        &&& self.prop_constswap_evals == 0
        &&& self.prop_branch_calls == 0
        &&& self.prop_branch_evals == 0
        &&& self.prop_commit_calls == 0
        &&& self.prop_commit_evals == 0
        &&& forall|i: int| 0 <= i < 7 ==> #[trigger] self.settle_reason_counts@[i] == 0
    }

    /// Every counter at zero.
    pub fn zero() -> (c: Self)
        ensures
            c.is_zero(),
    {
        PropCounters {
            propagate_calls_total: 0,
            propagate_tiles_total: 0,
            cone_single_pass_checks: 0,
            cone_residual_changes: 0,
            compact_scan_total: 0,
            compact_active_total: 0,
            prop_cone_calls: 0,
            prop_cone_evals: 0,
            prop_settle_calls: 0,
            prop_settle_evals: 0,
            prop_settle_scan: 0,
            prop_constswap_calls: 0,
            prop_constswap_evals: 0,
            prop_branch_calls: 0,
            prop_branch_evals: 0,
            prop_commit_calls: 0,
            prop_commit_evals: 0,
            settle_reason_counts: [0u64; 7],
        }
    }
}

} // verus!
