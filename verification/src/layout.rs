//! Where the parts of the CPU sit on the tile grid.
use vstd::prelude::*;

use crate::simulation::all_below;

verus! {

/// Tile indices of the CPU's registers, selectors, control points and injection points, and
/// the tiles to mark when each part changes.
pub struct V2CpuIndices {
    pub pc_idx: usize,
    pub pc_next_mux_idx: usize,
    pub pc_ingress_idx: usize,
    /// The selected instruction bytes, lowest first.
    pub rom_selected_indices: [usize; 4],
    pub final_mux_indices: [usize; 4],
    /// Entry `4 * b + lane` is lane `lane` of bank `4 + b`.
    pub bank47_mux_indices: [usize; 16],
    pub super_mux_inject_indices: [usize; 4],
    pub super_mux_inject_right_indices: [usize; 4],
    pub extract_opcode_shr_idx: usize,
    pub extract_opcode_bit4_idx: usize,
    pub extract_rd_bit_indices: [usize; 3],
    pub extract_rs_field_idx: usize,
    pub ctrl_a_mux_idx: usize,
    pub ctrl_b_mux_idx: usize,
    pub branch_ctrl_b_l1_tap_idx: usize,
    pub branch_flag_z_l1_tap_idx: usize,
    pub branch_flag_c_l1_tap_idx: usize,
    pub branch_taken_core_idx: usize,
    pub branch_dirty_indices: Vec<usize>,
    pub branch_flag_dirty_indices: Vec<usize>,
    pub op_a_root_idx: usize,
    pub op_b_root_idx: usize,
    pub pipeline_dirty_indices: Vec<usize>,
    pub pipeline_backbone_dirty_indices: Vec<usize>,
    pub upper_bank_dirty_indices: Vec<usize>,
    pub via_decode_inversion_dirty: Vec<usize>,
    /// One list per register.
    pub pipeline_reg_data_dirty_indices: Vec<Vec<usize>>,
    pub reg_tap_l1_indices: [usize; 16],
    pub rd_onehot_decode_idx: usize,
    pub rd_decode_l0_chain: Vec<usize>,
    pub we_mask_const_idx: usize,
    pub commit_dirty_indices: Vec<usize>,
    pub reg_wb_dirty_indices: Vec<usize>,
    pub flag_we_mask_const_idx: usize,
    pub flag_commit_dirty_indices: Vec<usize>,
    pub lr_idx: usize,
    pub reg_indices: [usize; 16],
    pub flag_z_idx: usize,
    pub flag_c_idx: usize,
    pub ram_indices: [usize; 128],
    pub alu_add_l_enable_idx: usize,
    pub alu_add_l_mux_idx: usize,
    pub high_reg_wb_data_const_indices: [usize; 8],
    pub high_reg_we_const_indices: [usize; 8],
    pub high_reg_merge_mux_indices: [usize; 8],
    pub high_tree_a_sel_const_indices: Vec<usize>,
    pub high_tree_b_sel_const_indices: Vec<usize>,
    pub high_tree_a_data_const_indices: Vec<usize>,
    pub high_tree_b_data_const_indices: Vec<usize>,
    pub top_mux_a_sel_const_idx: usize,
    pub top_mux_b_sel_const_idx: usize,
    pub high_tree_a_dirty_indices: Vec<usize>,
    pub high_tree_b_dirty_indices: Vec<usize>,
    pub top_mux_a_dirty_indices: Vec<usize>,
    pub top_mux_b_dirty_indices: Vec<usize>,
    pub alu_a_trunk_terminal_idx: usize,
    pub alu_b_trunk_terminal_idx: usize,
    pub alu_a_downstream_dirty: Vec<usize>,
    pub alu_b_downstream_dirty: Vec<usize>,
    pub alu_r_mux_output_indices: [usize; 8],
    pub ram_write_decode_idx: usize,
    pub ram_write_gate_idx: usize,
    pub wb_alu_root_idx: usize,
    pub wb_data_mux_idx: usize,
    pub grid_width: usize,
    pub tile_count: usize,
    pub pipeline_scope: Vec<u32>,
    pub branch_scope: Vec<u32>,
    pub commit_scope: Vec<u32>,
    pub pipeline_scope_mask: Vec<u64>,
    pub branch_scope_mask: Vec<u64>,
    pub commit_scope_mask: Vec<u64>,
    pub clock_scope_mask: Vec<u64>,
    pub pipeline_eval_order: Vec<usize>,
    pub branch_eval_order: Vec<usize>,
    pub commit_eval_order: Vec<usize>,
    pub in_scope_clock_cache: Vec<usize>,
}

impl V2CpuIndices {
    /// Every tile that the CPU reads, sets or marks is a tile of a grid of `n` tiles, and every
    /// operand selector has a tile to its left.
    pub open spec fn fits(self, n: nat) -> bool {
        &&& self.fits_fetch(n)
        &&& self.fits_execute(n)
        &&& self.fits_commit(n)
    }

    /// The tiles of fetch and decode.
    pub open spec fn fits_fetch(self, n: nat) -> bool {
        &&& self.pc_idx < n
        &&& forall|i: int| 0 <= i < 4 ==> #[trigger] self.rom_selected_indices@[i] < n
        &&& forall|i: int| 0 <= i < 4 ==> #[trigger] self.final_mux_indices@[i] < n
        &&& forall|i: int| 0 <= i < 16 ==> #[trigger] self.bank47_mux_indices@[i] < n
        &&& forall|i: int| 0 <= i < 4 ==> #[trigger] self.super_mux_inject_indices@[i] < n
        &&& forall|i: int| 0 <= i < 4 ==> #[trigger] self.super_mux_inject_right_indices@[i] < n
        &&& self.ctrl_a_mux_idx < n
        &&& self.ctrl_b_mux_idx < n
        &&& self.op_a_root_idx < n
        &&& self.op_b_root_idx < n
        &&& all_below(self.pipeline_dirty_indices@, n)
        &&& all_below(self.pipeline_backbone_dirty_indices@, n)
        &&& all_below(self.upper_bank_dirty_indices@, n)
        &&& all_below(self.via_decode_inversion_dirty@, n)
        &&& self.pipeline_reg_data_dirty_indices@.len() == 16
        &&& forall|r: int|
            0 <= r < 16 ==> all_below((#[trigger] self.pipeline_reg_data_dirty_indices@[r])@, n)
        &&& self.high_tree_a_sel_const_indices@.len() == 7
        &&& all_below(self.high_tree_a_sel_const_indices@, n)
        &&& self.high_tree_b_sel_const_indices@.len() == 7
        &&& all_below(self.high_tree_b_sel_const_indices@, n)
        &&& self.high_tree_a_data_const_indices@.len() == 8
        &&& all_below(self.high_tree_a_data_const_indices@, n)
        &&& self.high_tree_b_data_const_indices@.len() == 8
        &&& all_below(self.high_tree_b_data_const_indices@, n)
        &&& self.top_mux_a_sel_const_idx < n
        &&& self.top_mux_b_sel_const_idx < n
        &&& all_below(self.high_tree_a_dirty_indices@, n)
        &&& all_below(self.high_tree_b_dirty_indices@, n)
        &&& all_below(self.top_mux_a_dirty_indices@, n)
        &&& all_below(self.top_mux_b_dirty_indices@, n)
        &&& self.alu_add_l_enable_idx < n
        &&& self.alu_add_l_mux_idx < n
    }

    /// The tiles of the ALU and of branches.
    pub open spec fn fits_execute(self, n: nat) -> bool {
        &&& self.branch_taken_core_idx < n
        &&& self.branch_ctrl_b_l1_tap_idx < n
        &&& self.branch_flag_z_l1_tap_idx < n
        &&& self.branch_flag_c_l1_tap_idx < n
        &&& all_below(self.branch_dirty_indices@, n)
        &&& all_below(self.branch_flag_dirty_indices@, n)
        &&& self.alu_a_trunk_terminal_idx < n
        &&& self.alu_b_trunk_terminal_idx < n
        &&& all_below(self.alu_a_downstream_dirty@, n)
        &&& all_below(self.alu_b_downstream_dirty@, n)
        &&& forall|i: int| 0 <= i < 8 ==> 0 < #[trigger] self.alu_r_mux_output_indices@[i] < n
        &&& self.wb_alu_root_idx < n
        &&& self.lr_idx < n
    }

    /// The tiles of registers, flags, memory and write-back.
    pub open spec fn fits_commit(self, n: nat) -> bool {
        &&& self.pc_next_mux_idx < n
        &&& self.pc_ingress_idx < n
        &&& self.rd_onehot_decode_idx < n
        &&& all_below(self.rd_decode_l0_chain@, n)
        &&& self.we_mask_const_idx < n
        &&& self.flag_we_mask_const_idx < n
        &&& all_below(self.commit_dirty_indices@, n)
        &&& all_below(self.reg_wb_dirty_indices@, n)
        &&& all_below(self.flag_commit_dirty_indices@, n)
        &&& forall|i: int| 0 <= i < 16 ==> #[trigger] self.reg_indices@[i] < n
        &&& forall|i: int| 0 <= i < 16 ==> #[trigger] self.reg_tap_l1_indices@[i] < n
        &&& self.flag_z_idx < n
        &&& self.flag_c_idx < n
        &&& forall|i: int| 0 <= i < 128 ==> #[trigger] self.ram_indices@[i] < n
        &&& forall|i: int| 0 <= i < 8 ==> #[trigger] self.high_reg_wb_data_const_indices@[i] < n
        &&& forall|i: int| 0 <= i < 8 ==> #[trigger] self.high_reg_we_const_indices@[i] < n
        &&& forall|i: int| 0 <= i < 8 ==> #[trigger] self.high_reg_merge_mux_indices@[i] < n
        &&& self.ram_write_decode_idx < n
        &&& self.ram_write_gate_idx < n
        &&& self.wb_data_mux_idx < n
        &&& self.extract_opcode_shr_idx < n
        &&& self.extract_opcode_bit4_idx < n
        &&& forall|i: int| 0 <= i < 3 ==> #[trigger] self.extract_rd_bit_indices@[i] < n
        &&& self.extract_rs_field_idx < n
    }
}

} // verus!
