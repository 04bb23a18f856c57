//! What callers read of the CPU and switch on it.
use vstd::prelude::*;

use crate::cpu::{no_checks, TileCpuV2};
use crate::gates::CheckCounter;
use crate::latch::{V2HybridAssistCounters, V2StageTiming};
use crate::memo::SettleMemo;
use crate::settle::SettleFlags;
use crate::simulation::{Simulation, TileType};
use crate::state::{ArchState, Authority, Checks};

verus! {

impl TileCpuV2 {
    pub fn op_authority_checks(&self) -> (r: u64)
        ensures
            r == self.checks.operand.checks,
    {
        self.checks.operand.checks
    }

    pub fn op_authority_mismatches(&self) -> (r: u64)
        ensures
            r == self.checks.operand.mismatches,
    {
        self.checks.operand.mismatches
    }

    pub fn rd_decode_authority_checks(&self) -> (r: u64)
        ensures
            r == self.checks.rd_decode.checks,
    {
        self.checks.rd_decode.checks
    }

    pub fn rd_decode_authority_mismatches(&self) -> (r: u64)
        ensures
            r == self.checks.rd_decode.mismatches,
    {
        self.checks.rd_decode.mismatches
    }

    pub fn we_mask_authority_checks(&self) -> (r: u64)
        ensures
            r == self.checks.we_mask.checks,
    {
        self.checks.we_mask.checks
    }

    pub fn we_mask_authority_mismatches(&self) -> (r: u64)
        ensures
            r == self.checks.we_mask.mismatches,
    {
        self.checks.we_mask.mismatches
    }

    pub fn flag_we_mask_authority_checks(&self) -> (r: u64)
        ensures
            r == self.checks.flag_we_mask.checks,
    {
        self.checks.flag_we_mask.checks
    }

    pub fn flag_we_mask_authority_mismatches(&self) -> (r: u64)
        ensures
            r == self.checks.flag_we_mask.mismatches,
    {
        self.checks.flag_we_mask.mismatches
    }

    pub fn super_mux_checks(&self) -> (r: u64)
        ensures
            r == self.checks.super_mux.checks,
    {
        self.checks.super_mux.checks
    }

    pub fn super_mux_mismatches(&self) -> (r: u64)
        ensures
            r == self.checks.super_mux.mismatches,
    {
        self.checks.super_mux.mismatches
    }

    pub fn upper_bank_ir_checks(&self) -> (r: u64)
        ensures
            r == self.checks.upper_bank_ir.checks,
    {
        self.checks.upper_bank_ir.checks
    }

    pub fn upper_bank_ir_mismatches(&self) -> (r: u64)
        ensures
            r == self.checks.upper_bank_ir.mismatches,
    {
        self.checks.upper_bank_ir.mismatches
    }

    pub fn wb_data_checks(&self) -> (r: u64)
        ensures
            r == self.checks.wb_data.checks,
    {
        self.checks.wb_data.checks
    }

    pub fn wb_data_mismatches(&self) -> (r: u64)
        ensures
            r == self.checks.wb_data.mismatches,
    {
        self.checks.wb_data.mismatches
    }

    pub fn high_reg_wb_checks(&self) -> (r: u64)
        ensures
            r == self.checks.high_reg_wb.checks,
    {
        self.checks.high_reg_wb.checks
    }

    pub fn high_reg_wb_mismatches(&self) -> (r: u64)
        ensures
            r == self.checks.high_reg_wb.mismatches,
    {
        self.checks.high_reg_wb.mismatches
    }

    pub fn sub_fn_delivery_checks(&self) -> (r: u64)
        ensures
            r == self.checks.sub_fn_delivery.checks,
    {
        self.checks.sub_fn_delivery.checks
    }

    pub fn sub_fn_delivery_mismatches(&self) -> (r: u64)
        ensures
            r == self.checks.sub_fn_delivery.mismatches,
    {
        self.checks.sub_fn_delivery.mismatches
    }

    pub fn load_delivery_checks(&self) -> (r: u64)
        ensures
            r == self.checks.load_delivery.checks,
    {
        self.checks.load_delivery.checks
    }

    pub fn load_delivery_mismatches(&self) -> (r: u64)
        ensures
            r == self.checks.load_delivery.mismatches,
    {
        self.checks.load_delivery.mismatches
    }

    pub fn upper_alu_trunk_checks(&self) -> (r: u64)
        ensures
            r == self.checks.upper_alu_trunk.checks,
    {
        self.checks.upper_alu_trunk.checks
    }

    pub fn upper_alu_trunk_mismatches(&self) -> (r: u64)
        ensures
            r == self.checks.upper_alu_trunk.mismatches,
    {
        self.checks.upper_alu_trunk.mismatches
    }

    pub fn reg_capture_checks(&self) -> (r: u64)
        ensures
            r == self.checks.reg_capture.checks,
    {
        self.checks.reg_capture.checks
    }

    pub fn reg_capture_mismatches(&self) -> (r: u64)
        ensures
            r == self.checks.reg_capture.mismatches,
    {
        self.checks.reg_capture.mismatches
    }

    pub fn reg_wb_checks(&self) -> (r: u64)
        ensures
            r == self.checks.reg_wb.checks,
    {
        self.checks.reg_wb.checks
    }

    pub fn reg_wb_mismatches(&self) -> (r: u64)
        ensures
            r == self.checks.reg_wb.mismatches,
    {
        self.checks.reg_wb.mismatches
    }

    pub fn flag_wb_checks(&self) -> (r: u64)
        ensures
            r == self.checks.flag_wb.checks,
    {
        self.checks.flag_wb.checks
    }

    pub fn flag_wb_mismatches(&self) -> (r: u64)
        ensures
            r == self.checks.flag_wb.mismatches,
    {
        self.checks.flag_wb.mismatches
    }

    pub fn decode_ctrl_b_checks(&self) -> (r: u64)
        ensures
            r == self.checks.decode_ctrl_b.checks,
    {
        self.checks.decode_ctrl_b.checks
    }

    pub fn decode_ctrl_b_mismatches(&self) -> (r: u64)
        ensures
            r == self.checks.decode_ctrl_b.mismatches,
    {
        self.checks.decode_ctrl_b.mismatches
    }

    pub fn decode_ctrl_a_checks(&self) -> (r: u64)
        ensures
            r == self.checks.decode_ctrl_a.checks,
    {
        self.checks.decode_ctrl_a.checks
    }

    pub fn decode_ctrl_a_mismatches(&self) -> (r: u64)
        ensures
            r == self.checks.decode_ctrl_a.mismatches,
    {
        self.checks.decode_ctrl_a.mismatches
    }

    pub fn pc_override_checks(&self) -> (r: u64)
        ensures
            r == self.checks.pc_override.checks,
    {
        self.checks.pc_override.checks
    }

    pub fn pc_override_mismatches(&self) -> (r: u64)
        ensures
            r == self.checks.pc_override.mismatches,
    {
        self.checks.pc_override.mismatches
    }

    pub fn branch_dir_checks(&self) -> (r: u64)
        ensures
            r == self.checks.branch_dir.checks,
    {
        self.checks.branch_dir.checks
    }

    pub fn branch_dir_mismatches(&self) -> (r: u64)
        ensures
            r == self.checks.branch_dir.mismatches,
    {
        self.checks.branch_dir.mismatches
    }

    pub fn ram_wb_checks(&self) -> (r: u64)
        ensures
            r == self.checks.ram_wb.checks,
    {
        self.checks.ram_wb.checks
    }

    pub fn ram_wb_mismatches(&self) -> (r: u64)
        ensures
            r == self.checks.ram_wb.mismatches,
    {
        self.checks.ram_wb.mismatches
    }

    pub fn sra_computation_checks(&self) -> (r: u64)
        ensures
            r == self.checks.sra.checks,
    {
        self.checks.sra.checks
    }

    pub fn sra_computation_mismatches(&self) -> (r: u64)
        ensures
            r == self.checks.sra.mismatches,
    {
        self.checks.sra.mismatches
    }

    pub fn bitop_checks(&self) -> (r: u64)
        ensures
            r == self.checks.bitop.checks,
    {
        self.checks.bitop.checks
    }

    pub fn bitop_mismatches(&self) -> (r: u64)
        ensures
            r == self.checks.bitop.mismatches,
    {
        self.checks.bitop.mismatches
    }

    pub fn ir_spine_checks(&self) -> (r: u64)
        ensures
            r == self.checks.ir_spine.checks,
    {
        self.checks.ir_spine.checks
    }

    pub fn ir_spine_mismatches(&self) -> (r: u64)
        ensures
            r == self.checks.ir_spine.mismatches,
    {
        self.checks.ir_spine.mismatches
    }

    pub fn via_decode_checks(&self) -> (r: u64)
        ensures
            r == self.checks.via_decode.checks,
    {
        self.checks.via_decode.checks
    }

    pub fn via_decode_mismatches(&self) -> (r: u64)
        ensures
            r == self.checks.via_decode.mismatches,
    {
        self.checks.via_decode.mismatches
    }

    pub fn branch_target_checks(&self) -> (r: u64)
        ensures
            r == self.checks.branch_target.checks,
    {
        self.checks.branch_target.checks
    }

    pub fn branch_target_mismatches(&self) -> (r: u64)
        ensures
            r == self.checks.branch_target.mismatches,
    {
        self.checks.branch_target.mismatches
    }

    pub fn byte2_selector_checks(&self) -> (r: u64)
        ensures
            r == self.checks.byte2_selector.checks,
    {
        self.checks.byte2_selector.checks
    }

    pub fn byte2_selector_mismatches(&self) -> (r: u64)
        ensures
            r == self.checks.byte2_selector.mismatches,
    {
        self.checks.byte2_selector.mismatches
    }

    pub fn flag_z_mismatches(&self) -> (r: u64)
        ensures
            r == self.checks.flag_z_mismatches,
    {
        self.checks.flag_z_mismatches
    }

    pub fn flag_c_mismatches(&self) -> (r: u64)
        ensures
            r == self.checks.flag_c_mismatches,
    {
        self.checks.flag_c_mismatches
    }

    pub fn alu_mux_select_mismatches(&self) -> (r: u64)
        ensures
            r == self.checks.alu_mux_select_mismatches,
    {
        self.checks.alu_mux_select_mismatches
    }

    pub fn ram_wb_store_mismatches(&self) -> (r: u64)
        ensures
            r == self.checks.ram_wb_store_mismatches,
    {
        self.checks.ram_wb_store_mismatches
    }

    pub fn ram_wb_nonstore_mismatches(&self) -> (r: u64)
        ensures
            r == self.checks.ram_wb_nonstore_mismatches,
    {
        self.checks.ram_wb_nonstore_mismatches
    }

    pub fn combined_decode_checks(&self) -> (r: u64)
        ensures
            r == self.checks.combined_decode_checks,
    {
        self.checks.combined_decode_checks
    }

    pub fn alu_opcode_mismatches(&self) -> (r: [u64; 32])
        ensures
            r == self.checks.alu_opcode_mismatches,
    {
        self.checks.alu_opcode_mismatches
    }

    pub fn pc_mismatch_per_kind(&self) -> (r: [u64; 8])
        ensures
            r == self.checks.pc_mismatch_per_kind,
    {
        self.checks.pc_mismatch_per_kind
    }

    pub fn physical_operand_authority(&self) -> (r: bool)
        ensures
            r == self.auth.operand,
    {
        self.auth.operand
    }

    pub fn physical_reg_writeback(&self) -> (r: bool)
        ensures
            r == self.auth.reg_writeback,
    {
        self.auth.reg_writeback
    }

    pub fn physical_flag_writeback(&self) -> (r: bool)
        ensures
            r == self.auth.flag_writeback,
    {
        self.auth.flag_writeback
    }

    pub fn physical_decode(&self) -> (r: bool)
        ensures
            r == self.auth.decode,
    {
        self.auth.decode
    }

    pub fn physical_branch(&self) -> (r: bool)
        ensures
            r == self.auth.branch,
    {
        self.auth.branch
    }

    pub fn physical_ram_writeback(&self) -> (r: bool)
        ensures
            r == self.auth.ram_writeback,
    {
        self.auth.ram_writeback
    }

    pub fn physical_rd_decode(&self) -> (r: bool)
        ensures
            r == self.auth.rd_decode,
    {
        self.auth.rd_decode
    }

    pub fn physical_we_mask(&self) -> (r: bool)
        ensures
            r == self.auth.we_mask,
    {
        self.auth.we_mask
    }

    pub fn physical_flag_we_mask(&self) -> (r: bool)
        ensures
            r == self.auth.flag_we_mask,
    {
        self.auth.flag_we_mask
    }

    pub fn physical_super_mux(&self) -> (r: bool)
        ensures
            r == self.auth.super_mux,
    {
        self.auth.super_mux
    }

    pub fn physical_wb_data_authority(&self) -> (r: bool)
        ensures
            r == self.auth.wb_data,
    {
        self.auth.wb_data
    }

    pub fn physical_high_reg_writeback(&self) -> (r: bool)
        ensures
            r == self.auth.high_reg_writeback,
    {
        self.auth.high_reg_writeback
    }

    pub fn physical_sub_fn_delivery(&self) -> (r: bool)
        ensures
            r == self.auth.sub_fn_delivery,
    {
        self.auth.sub_fn_delivery
    }

    pub fn physical_sub_fn_flag_authority(&self) -> (r: bool)
        ensures
            r == self.auth.sub_fn_flag,
    {
        self.auth.sub_fn_flag
    }

    pub fn physical_load_delivery(&self) -> (r: bool)
        ensures
            r == self.auth.load_delivery,
    {
        self.auth.load_delivery
    }

    pub fn physical_ram_store_authority(&self) -> (r: bool)
        ensures
            r == self.auth.ram_store,
    {
        self.auth.ram_store
    }

    pub fn physical_sra_computation(&self) -> (r: bool)
        ensures
            r == self.auth.sra,
    {
        self.auth.sra
    }

    pub fn physical_mul_authority(&self) -> (r: bool)
        ensures
            r == self.auth.mul,
    {
        self.auth.mul
    }

    pub fn physical_bitop_computation(&self) -> (r: bool)
        ensures
            r == self.auth.bitop,
    {
        self.auth.bitop
    }

    pub fn physical_ir_spine(&self) -> (r: bool)
        ensures
            r == self.auth.ir_spine,
    {
        self.auth.ir_spine
    }

    pub fn physical_via_decode(&self) -> (r: bool)
        ensures
            r == self.auth.via_decode,
    {
        self.auth.via_decode
    }

    pub fn physical_alu_opcodes(&self) -> (r: u32)
        ensures
            r == self.auth.alu_opcodes,
    {
        self.auth.alu_opcodes
    }

    pub fn synth_branch_checks(&self) -> (r: u64)
        ensures
            r == self.gates.branch.checks,
    {
        self.gates.branch.checks
    }

    pub fn synth_branch_mismatches(&self) -> (r: u64)
        ensures
            r == self.gates.branch.mismatches,
    {
        self.gates.branch.mismatches
    }

    pub fn synth_rd_decode_checks(&self) -> (r: u64)
        ensures
            r == self.gates.rd_decode.checks,
    {
        self.gates.rd_decode.checks
    }

    pub fn synth_rd_decode_mismatches(&self) -> (r: u64)
        ensures
            r == self.gates.rd_decode.mismatches,
    {
        self.gates.rd_decode.mismatches
    }

    pub fn synth_ctrl_b_checks(&self) -> (r: u64)
        ensures
            r == self.gates.ctrl_b.checks,
    {
        self.gates.ctrl_b.checks
    }

    pub fn synth_ctrl_b_mismatches(&self) -> (r: u64)
        ensures
            r == self.gates.ctrl_b.mismatches,
    {
        self.gates.ctrl_b.mismatches
    }

    pub fn synth_ctrl_a_checks(&self) -> (r: u64)
        ensures
            r == self.gates.ctrl_a.checks,
    {
        self.gates.ctrl_a.checks
    }

    pub fn synth_ctrl_a_mismatches(&self) -> (r: u64)
        ensures
            r == self.gates.ctrl_a.mismatches,
    {
        self.gates.ctrl_a.mismatches
    }

    pub fn synth_operand_checks(&self) -> (r: u64)
        ensures
            r == self.gates.operand.checks,
    {
        self.gates.operand.checks
    }

    pub fn synth_operand_mismatches(&self) -> (r: u64)
        ensures
            r == self.gates.operand.mismatches,
    {
        self.gates.operand.mismatches
    }

    pub fn synth_ram_decode_checks(&self) -> (r: u64)
        ensures
            r == self.gates.ram_decode.checks,
    {
        self.gates.ram_decode.checks
    }

    pub fn synth_ram_decode_mismatches(&self) -> (r: u64)
        ensures
            r == self.gates.ram_decode.mismatches,
    {
        self.gates.ram_decode.mismatches
    }

    pub fn alu_readback_checks(&self) -> (r: u64)
        ensures
            r == self.gates.alu.checks,
    {
        self.gates.alu.checks
    }

    pub fn alu_readback_mismatches(&self) -> (r: u64)
        ensures
            r == self.gates.alu.mismatches,
    {
        self.gates.alu.mismatches
    }

    /// Propagation passes, and the tiles they evaluated.
    pub fn propagation_stats(&self) -> (r: (u64, u64))
        ensures
            r == (self.prop.propagate_calls_total, self.prop.propagate_tiles_total),
    {
        (self.prop.propagate_calls_total, self.prop.propagate_tiles_total)
    }

    /// Operations gone through, and those that were evaluated.
    pub fn scan_active_stats(&self) -> (r: (u64, u64))
        ensures
            r == (self.prop.compact_scan_total, self.prop.compact_active_total),
    {
        (self.prop.compact_scan_total, self.prop.compact_active_total)
    }

    pub fn settle_scan_total(&self) -> (r: u64)
        ensures
            r == self.prop.prop_settle_scan,
    {
        self.prop.prop_settle_scan
    }

    pub fn settle_reason_histogram(&self) -> (r: [u64; 7])
        ensures
            r == self.prop.settle_reason_counts,
    {
        self.prop.settle_reason_counts
    }

    pub fn cone_convergence_checks(&self) -> (r: u64)
        ensures
            r == self.prop.cone_single_pass_checks,
    {
        self.prop.cone_single_pass_checks
    }

    pub fn cone_convergence_residual(&self) -> (r: u64)
        ensures
            r == self.prop.cone_residual_changes,
    {
        self.prop.cone_residual_changes
    }

    pub fn settle_overlap_buckets(&self) -> (r: [u64; 5])
        ensures
            r == self.settle_overlap_buckets,
    {
        self.settle_overlap_buckets
    }

    pub fn compact_eval_inhibit_count(&self) -> (r: u64)
        ensures
            r == self.pipe.compact_eval_inhibit_count,
    {
        self.pipe.compact_eval_inhibit_count
    }

    /// The last tick retired an instruction.
    pub fn last_stage_x_valid(&self) -> (r: bool)
        ensures
            r == self.pipe.last_stage_x_valid,
    {
        self.pipe.last_stage_x_valid
    }

    pub fn read_cycle_count(&self) -> (r: u64)
        ensures
            r == self.pipe.cycle_count,
    {
        self.pipe.cycle_count
    }

    pub fn read_retired_count(&self) -> (r: u64)
        ensures
            r == self.pipe.retired_count,
    {
        self.pipe.retired_count
    }

    pub fn read_hybrid_assist_counters(&self) -> (r: V2HybridAssistCounters)
        ensures
            r == self.hybrid,
    {
        self.hybrid
    }

    pub fn read_last_stage_timing(&self) -> (r: V2StageTiming)
        ensures
            r == self.timing,
    {
        self.timing
    }

    pub fn read_lr(&self) -> (r: u32)
        ensures
            r == self.arch.lr,
    {
        self.arch.lr
    }

    pub fn is_halted(&self) -> (r: bool)
        ensures
            r == self.arch.halted,
    {
        self.arch.halted
    }

    pub fn extended_pc(&self) -> (r: bool)
        ensures
            r == self.mode.extended_pc,
    {
        self.mode.extended_pc
    }

    pub fn wide_pc(&self) -> (r: bool)
        ensures
            r == self.mode.wide_pc,
    {
        self.mode.wide_pc
    }

    pub fn pc_phys_mask(&self) -> (r: u32)
        ensures
            r == self.mode.pc_phys_mask,
    {
        self.mode.pc_phys_mask
    }

    pub fn mem_addr_mask(&self) -> (r: usize)
        ensures
            r == self.mem.mem_addr_mask,
    {
        self.mem.mem_addr_mask
    }

    pub fn main_mem_len(&self) -> (r: usize)
        ensures
            r == self.mem.main_mem@.len(),
    {
        self.mem.main_mem.len()
    }

    pub fn pipeline_dirty_len(&self) -> (r: usize)
        ensures
            r == self.idx.pipeline_dirty_indices@.len(),
    {
        self.idx.pipeline_dirty_indices.len()
    }

    pub fn ram_write_gate_idx(&self) -> (r: usize)
        ensures
            r == self.idx.ram_write_gate_idx,
    {
        self.idx.ram_write_gate_idx
    }

    pub fn ram_snap_store_addr(&self) -> (r: usize)
        ensures
            r == self.store.store_addr,
    {
        self.store.store_addr
    }

    pub fn ctrl_a_lut(&self) -> (r: [u8; 32])
        ensures
            r == self.tables.ctrl_a,
    {
        self.tables.ctrl_a
    }

    pub fn read_pc(&self, _sim: &Simulation) -> (r: u32)
        ensures
            r == self.arch.pc,
    {
        self.arch.pc
    }

    pub fn read_flag_z(&self, _sim: &Simulation) -> (r: bool)
        ensures
            r == self.arch.flag_z,
    {
        self.arch.flag_z
    }

    pub fn read_flag_c(&self, _sim: &Simulation) -> (r: bool)
        ensures
            r == self.arch.flag_c,
    {
        self.arch.flag_c
    }

    pub fn pipeline_eval_order(&self) -> (r: &Vec<usize>)
        ensures
            *r == self.idx.pipeline_eval_order,
    {
        &self.idx.pipeline_eval_order
    }

    pub fn pipeline_scope_mask(&self) -> (r: &Vec<u64>)
        ensures
            *r == self.idx.pipeline_scope_mask,
    {
        &self.idx.pipeline_scope_mask
    }

    pub fn branch_eval_order(&self) -> (r: &Vec<usize>)
        ensures
            *r == self.idx.branch_eval_order,
    {
        &self.idx.branch_eval_order
    }

    pub fn branch_scope_mask(&self) -> (r: &Vec<u64>)
        ensures
            *r == self.idx.branch_scope_mask,
    {
        &self.idx.branch_scope_mask
    }

    pub fn commit_eval_order(&self) -> (r: &Vec<usize>)
        ensures
            *r == self.idx.commit_eval_order,
    {
        &self.idx.commit_eval_order
    }

    pub fn commit_scope_mask(&self) -> (r: &Vec<u64>)
        ensures
            *r == self.idx.commit_scope_mask,
    {
        &self.idx.commit_scope_mask
    }

    pub fn read_operand_a_root(&self, sim: &Simulation) -> (r: u64)
        requires
            self.on(*sim),
        ensures
            r == sim@.values[self.idx.op_a_root_idx as int],
    {
        sim.get_logic_value_by_idx(self.idx.op_a_root_idx)
    }

    pub fn read_operand_b_root(&self, sim: &Simulation) -> (r: u64)
        requires
            self.on(*sim),
        ensures
            r == sim@.values[self.idx.op_b_root_idx as int],
    {
        sim.get_logic_value_by_idx(self.idx.op_b_root_idx)
    }

    pub fn read_extract_opcode_shr(&self, sim: &Simulation) -> (r: u8)
        requires
            self.on(*sim),
        ensures
            r == sim@.values[self.idx.extract_opcode_shr_idx as int] % 32,
    {
        (sim.get_logic_value_by_idx(self.idx.extract_opcode_shr_idx) % 32) as u8
    }

    pub fn read_extract_opcode_bit4(&self, sim: &Simulation) -> (r: bool)
        requires
            self.on(*sim),
        ensures
            r == (sim@.values[self.idx.extract_opcode_bit4_idx as int] != 0),
    {
        sim.get_logic_value_by_idx(self.idx.extract_opcode_bit4_idx) != 0
    }

    pub fn read_extract_rs_field(&self, sim: &Simulation) -> (r: u8)
        requires
            self.on(*sim),
        ensures
            r == sim@.values[self.idx.extract_rs_field_idx as int] % 8,
    {
        (sim.get_logic_value_by_idx(self.idx.extract_rs_field_idx) % 8) as u8
    }

    pub fn read_we_mask_source(&self, sim: &Simulation) -> (r: u64)
        requires
            self.on(*sim),
        ensures
            r == sim@.values[self.idx.we_mask_const_idx as int],
    {
        sim.get_logic_value_by_idx(self.idx.we_mask_const_idx)
    }

    pub fn read_flag_we_mask_source(&self, sim: &Simulation) -> (r: u64)
        requires
            self.on(*sim),
        ensures
            r == sim@.values[self.idx.flag_we_mask_const_idx as int],
    {
        sim.get_logic_value_by_idx(self.idx.flag_we_mask_const_idx)
    }

    pub fn read_branch_taken_core(&self, sim: &Simulation) -> (r: bool)
        requires
            self.on(*sim),
        ensures
            r == (sim@.values[self.idx.branch_taken_core_idx as int] != 0),
    {
        sim.get_logic_value_by_idx(self.idx.branch_taken_core_idx) != 0
    }

    pub fn read_physical_rd_decode(&self, sim: &Simulation) -> (r: u64)
        requires
            self.on(*sim),
        ensures
            r == sim@.values[self.idx.rd_onehot_decode_idx as int],
    {
        sim.get_logic_value_by_idx(self.idx.rd_onehot_decode_idx)
    }

    pub fn read_physical_flag_z(&self, sim: &Simulation) -> (r: bool)
        requires
            self.on(*sim),
        ensures
            r == (sim@.values[self.idx.flag_z_idx as int] != 0),
    {
        sim.get_logic_value_by_idx(self.idx.flag_z_idx) != 0
    }

    pub fn read_physical_flag_c(&self, sim: &Simulation) -> (r: bool)
        requires
            self.on(*sim),
        ensures
            r == (sim@.values[self.idx.flag_c_idx as int] != 0),
    {
        sim.get_logic_value_by_idx(self.idx.flag_c_idx) != 0
    }

    pub fn read_physical_ctrl_b(&self, sim: &Simulation) -> (r: u8)
        requires
            self.on(*sim),
        ensures
            r == sim@.values[self.idx.ctrl_b_mux_idx as int] % 8,
    {
        (sim.get_logic_value_by_idx(self.idx.ctrl_b_mux_idx) % 8) as u8
    }

    pub fn read_physical_ctrl_a(&self, sim: &Simulation) -> (r: u8)
        requires
            self.on(*sim),
        ensures
            r == sim@.values[self.idx.ctrl_a_mux_idx as int] % 256,
    {
        (sim.get_logic_value_by_idx(self.idx.ctrl_a_mux_idx) % 256) as u8
    }

    pub fn read_physical_alu_result(&self, sim: &Simulation) -> (r: u64)
        requires
            self.on(*sim),
        ensures
            r == sim@.values[self.idx.wb_alu_root_idx as int],
    {
        sim.get_logic_value_by_idx(self.idx.wb_alu_root_idx)
    }

    pub fn read_physical_wb_data(&self, sim: &Simulation) -> (r: u64)
        requires
            self.on(*sim),
        ensures
            r == sim@.values[self.idx.wb_data_mux_idx as int],
    {
        sim.get_logic_value_by_idx(self.idx.wb_data_mux_idx)
    }

    pub fn branch_taken_core_tile_type(&self, sim: &Simulation) -> (r: TileType)
        requires
            self.on(*sim),
        ensures
            r == sim@.kinds[self.idx.branch_taken_core_idx as int],
    {
        sim.tile_type(self.idx.branch_taken_core_idx)
    }

    pub fn rd_decode_tile_type(&self, sim: &Simulation) -> (r: TileType)
        requires
            self.on(*sim),
        ensures
            r == sim@.kinds[self.idx.rd_onehot_decode_idx as int],
    {
        sim.tile_type(self.idx.rd_onehot_decode_idx)
    }

    pub fn ram_decode_tile_type(&self, sim: &Simulation) -> (r: TileType)
        requires
            self.on(*sim),
        ensures
            r == sim@.kinds[self.idx.ram_write_decode_idx as int],
    {
        sim.tile_type(self.idx.ram_write_decode_idx)
    }

    /// Trust the operand trees, and count from zero.
    pub fn set_physical_operand_authority(&mut self, enabled: bool)
        ensures
            *final(self) == (TileCpuV2 {
                auth: Authority {
                    operand: enabled,
                    ..old(self).auth
                },
                checks: Checks {
                    operand: no_checks(),
                    ..old(self).checks
                },
                ..*old(self)
            }),
    {
        self.auth = Authority { operand: enabled, ..self.auth };
        self.checks = Checks { operand: CheckCounter::zero(), ..self.checks };
    }

    /// Trust the tiles' decode, and count from zero.
    pub fn set_physical_decode(&mut self, enabled: bool)
        ensures
            *final(self) == (TileCpuV2 {
                auth: Authority {
                    decode: enabled,
                    ..old(self).auth
                },
                checks: Checks {
                    decode_ctrl_b: no_checks(),
                    decode_ctrl_a: no_checks(),
                    ..old(self).checks
                },
                ..*old(self)
            }),
    {
        self.auth = Authority { decode: enabled, ..self.auth };
        self.checks = Checks {
            decode_ctrl_b: CheckCounter::zero(),
            decode_ctrl_a: CheckCounter::zero(),
            ..self.checks
        };
    }

    /// Trust the tiles' branch decisions, and count from zero.
    pub fn set_physical_branch(&mut self, enabled: bool)
        ensures
            *final(self) == (TileCpuV2 {
                auth: Authority {
                    branch: enabled,
                    ..old(self).auth
                },
                checks: Checks {
                    branch_dir: no_checks(),
                    ..old(self).checks
                },
                ..*old(self)
            }),
    {
        self.auth = Authority { branch: enabled, ..self.auth };
        self.checks = Checks { branch_dir: CheckCounter::zero(), ..self.checks };
    }

    pub fn set_physical_super_mux(&mut self, enabled: bool)
        ensures
            *final(self) == (TileCpuV2 {
                auth: Authority {
                    super_mux: enabled,
                    ..old(self).auth
                },
                ..*old(self)
            }),
    {
        self.auth = Authority { super_mux: enabled, ..self.auth };
    }

    pub fn set_physical_wb_data_authority(&mut self, enabled: bool)
        ensures
            *final(self) == (TileCpuV2 {
                auth: Authority {
                    wb_data: enabled,
                    ..old(self).auth
                },
                ..*old(self)
            }),
    {
        self.auth = Authority { wb_data: enabled, ..self.auth };
    }

    pub fn set_physical_sub_fn_delivery(&mut self, enabled: bool)
        ensures
            *final(self) == (TileCpuV2 {
                auth: Authority {
                    sub_fn_delivery: enabled,
                    ..old(self).auth
                },
                checks: Checks {
                    sub_fn_delivery: no_checks(),
                    ..old(self).checks
                },
                ..*old(self)
            }),
    {
        self.auth = Authority { sub_fn_delivery: enabled, ..self.auth };
        self.checks = Checks { sub_fn_delivery: CheckCounter::zero(), ..self.checks };
    }

    pub fn set_physical_sub_fn_flag_authority(&mut self, enabled: bool)
        ensures
            *final(self) == (TileCpuV2 {
                auth: Authority {
                    sub_fn_flag: enabled,
                    ..old(self).auth
                },
                ..*old(self)
            }),
    {
        self.auth = Authority { sub_fn_flag: enabled, ..self.auth };
    }

    pub fn set_physical_load_delivery(&mut self, enabled: bool)
        ensures
            *final(self) == (TileCpuV2 {
                auth: Authority {
                    load_delivery: enabled,
                    ..old(self).auth
                },
                checks: Checks {
                    load_delivery: no_checks(),
                    ..old(self).checks
                },
                ..*old(self)
            }),
    {
        self.auth = Authority { load_delivery: enabled, ..self.auth };
        self.checks = Checks { load_delivery: CheckCounter::zero(), ..self.checks };
    }

    pub fn set_physical_ram_store_authority(&mut self, enabled: bool)
        ensures
            *final(self) == (TileCpuV2 {
                auth: Authority {
                    ram_store: enabled,
                    ..old(self).auth
                },
                ..*old(self)
            }),
    {
        self.auth = Authority { ram_store: enabled, ..self.auth };
    }

    pub fn set_physical_sra_computation(&mut self, enabled: bool)
        ensures
            *final(self) == (TileCpuV2 {
                auth: Authority {
                    sra: enabled,
                    ..old(self).auth
                },
                checks: Checks {
                    sra: no_checks(),
                    ..old(self).checks
                },
                ..*old(self)
            }),
    {
        self.auth = Authority { sra: enabled, ..self.auth };
        self.checks = Checks { sra: CheckCounter::zero(), ..self.checks };
    }

    pub fn set_physical_bitop_computation(&mut self, enabled: bool)
        ensures
            *final(self) == (TileCpuV2 {
                auth: Authority {
                    bitop: enabled,
                    ..old(self).auth
                },
                checks: Checks {
                    bitop: no_checks(),
                    ..old(self).checks
                },
                ..*old(self)
            }),
    {
        self.auth = Authority { bitop: enabled, ..self.auth };
        self.checks = Checks { bitop: CheckCounter::zero(), ..self.checks };
    }

    pub fn set_physical_ir_spine(&mut self, enabled: bool)
        ensures
            *final(self) == (TileCpuV2 {
                auth: Authority {
                    ir_spine: enabled,
                    ..old(self).auth
                },
                checks: Checks {
                    ir_spine: no_checks(),
                    ..old(self).checks
                },
                ..*old(self)
            }),
    {
        self.auth = Authority { ir_spine: enabled, ..self.auth };
        self.checks = Checks { ir_spine: CheckCounter::zero(), ..self.checks };
    }

    pub fn set_physical_byte2_selector(&mut self, enabled: bool)
        ensures
            *final(self) == (TileCpuV2 {
                auth: Authority {
                    byte2_selector: enabled,
                    ..old(self).auth
                },
                checks: Checks {
                    byte2_selector: no_checks(),
                    ..old(self).checks
                },
                ..*old(self)
            }),
    {
        self.auth = Authority { byte2_selector: enabled, ..self.auth };
        self.checks = Checks { byte2_selector: CheckCounter::zero(), ..self.checks };
    }

    /// Trust the tile ALU for the opcodes whose bits are set.
    pub fn set_physical_alu_opcodes(&mut self, mask: u32)
        ensures
            *final(self) == (TileCpuV2 {
                auth: Authority {
                    alu_opcodes: mask,
                    ..old(self).auth
                },
                ..*old(self)
            }),
    {
        self.auth = Authority { alu_opcodes: mask, ..self.auth };
    }

    /// Trust the tile ALU for opcodes 4 to 15.
    pub fn enable_physical_alu_all_basic(&mut self)
        ensures
            *final(self) == (TileCpuV2 {
                auth: Authority {
                    alu_opcodes: 0xFFF0,
                    ..old(self).auth
                },
                ..*old(self)
            }),
    {
        self.auth = Authority { alu_opcodes: 0xFFF0, ..self.auth };
    }

    pub fn set_use_prefiltered_settle(&mut self, enable: bool)
        ensures
            *final(self) == (TileCpuV2 {
                settle_flags: SettleFlags {
                    prefiltered: enable,
                    ..old(self).settle_flags
                },
                ..*old(self)
            }),
    {
        self.settle_flags = SettleFlags { prefiltered: enable, ..self.settle_flags };
    }

    pub fn set_use_no_dirty_settle(&mut self, enable: bool)
        ensures
            *final(self) == (TileCpuV2 {
                settle_flags: SettleFlags {
                    no_dirty: enable,
                    ..old(self).settle_flags
                },
                ..*old(self)
            }),
    {
        self.settle_flags = SettleFlags { no_dirty: enable, ..self.settle_flags };
    }

    /// Settle the backbone unconditionally first, then everything that is marked.
    pub fn set_backbone_jit_enabled(&mut self, enable: bool)
        ensures
            *final(self) == (TileCpuV2 {
                settle_flags: SettleFlags {
                    two_phase: enable,
                    ..old(self).settle_flags
                },
                ..*old(self)
            }),
    {
        self.settle_flags = SettleFlags { two_phase: enable, ..self.settle_flags };
    }

    pub fn set_hybrid_settle_enabled(&mut self, enable: bool)
        ensures
            *final(self) == (TileCpuV2 {
                settle_flags: SettleFlags {
                    hybrid: enable,
                    ..old(self).settle_flags
                },
                ..*old(self)
            }),
    {
        self.settle_flags = SettleFlags { hybrid: enable, ..self.settle_flags };
    }

    /// Put the settle memo to use or out of it. It serves no settle that cannot be memoized.
    pub fn set_memoization_enabled(&mut self, enable: bool)
        ensures
            *final(self) == (TileCpuV2 {
                settle_memo: SettleMemo {
                    enabled: enable,
                    ..old(self).settle_memo
                },
                ..*old(self)
            }),
    {
        self.settle_memo.enabled = enable;
    }

    pub fn set_decode_memoization_enabled(&mut self, enable: bool)
        ensures
            *final(self) == (TileCpuV2 {
                decode_memo: SettleMemo {
                    enabled: enable,
                    ..old(self).decode_memo
                },
                ..*old(self)
            }),
    {
        self.decode_memo.enabled = enable;
    }

    pub fn disable_clock_auto_warmup(&mut self)
        ensures
            *final(self) == (TileCpuV2 {
                clock_auto_warmup: false,
                ..*old(self)
            }),
    {
        self.clock_auto_warmup = false;
    }

    pub fn set_stage_timing(&mut self, enabled: bool)
        ensures
            *final(self) == (TileCpuV2 {
                stage_timing: enabled,
                ..*old(self)
            }),
    {
        self.stage_timing = enabled;
    }

    pub fn set_convergence_probe(&mut self, enabled: bool)
        ensures
            *final(self) == (TileCpuV2 {
                convergence_probe: enabled,
                ..*old(self)
            }),
    {
        self.convergence_probe = enabled;
    }

    pub fn set_halted(&mut self, value: bool)
        ensures
            *final(self) == (TileCpuV2 {
                arch: ArchState {
                    halted: value,
                    ..old(self).arch
                },
                ..*old(self)
            }),
    {
        self.arch = ArchState { halted: value, ..self.arch };
    }

    /// Set the link register, as wide as the program counter.
    pub fn write_lr(&mut self, value: u32)
        ensures
            *final(self) == (TileCpuV2 {
                arch: ArchState {
                    lr: value & old(self).mode.pc_phys_mask,
                    ..old(self).arch
                },
                ..*old(self)
            }),
    {
        self.arch = ArchState { lr: value & self.mode.pc_phys_mask, ..self.arch };
    }
}

} // verus!
