//! Whether a CPU, its layout and a grid are fit for a step: the conditions that every step asks
//! for, as tests.
use vstd::prelude::*;

use crate::cpu::TileCpuV2;
use crate::fetch::decoder_fits;
use crate::layout::V2CpuIndices;
use crate::simulation::{all_below, Simulation};

verus! {

/// Every entry is under `n`.
fn all_under(list: &[usize], n: usize) -> (r: bool)
    ensures
        r == all_below(list@, n as nat),
{
    let mut i: usize = 0;
    while i < list.len()
        invariant
            i <= list@.len(),
            forall|k: int| 0 <= k < i ==> #[trigger] list@[k] < n,
        decreases list@.len() - i,
    {
        if list[i] >= n {
            return false;
        }
        i = i + 1;
    }
    true
}

/// Every entry of every list is under `n`.
fn lists_under(lists: &Vec<Vec<usize>>, n: usize) -> (r: bool)
    ensures
        r == forall|k: int|
            0 <= k < lists@.len() ==> all_below((#[trigger] lists@[k])@, n as nat),
{
    let mut i: usize = 0;
    while i < lists.len()
        invariant
            i <= lists@.len(),
            forall|k: int| 0 <= k < i ==> all_below((#[trigger] lists@[k])@, n as nat),
        decreases lists@.len() - i,
    {
        if !all_under(lists[i].as_slice(), n) {
            assert(!all_below(lists@[i as int]@, n as nat));
            return false;
        }
        i = i + 1;
    }
    true
}

/// Every entry is positive.
fn all_positive(list: &[usize]) -> (r: bool)
    ensures
        r == forall|k: int| 0 <= k < list@.len() ==> 0 < #[trigger] list@[k],
{
    let mut i: usize = 0;
    while i < list.len()
        invariant
            i <= list@.len(),
            forall|k: int| 0 <= k < i ==> 0 < #[trigger] list@[k],
        decreases list@.len() - i,
    {
        if list[i] == 0 {
            return false;
        }
        i = i + 1;
    }
    true
}

impl V2CpuIndices {
    /// The tiles of fetch and decode are on a grid of `n` tiles.
    fn get_fits_fetch(&self, n: usize) -> (r: bool)
        ensures
            r == self.fits_fetch(n as nat),
    {
        self.pc_idx < n
            && all_under(self.rom_selected_indices.as_slice(), n)
            && all_under(self.final_mux_indices.as_slice(), n)
            && all_under(self.bank47_mux_indices.as_slice(), n)
            && all_under(self.super_mux_inject_indices.as_slice(), n)
            && all_under(self.super_mux_inject_right_indices.as_slice(), n)
            && self.ctrl_a_mux_idx < n
            && self.ctrl_b_mux_idx < n
            && self.op_a_root_idx < n
            && self.op_b_root_idx < n
            && all_under(self.pipeline_dirty_indices.as_slice(), n)
            && all_under(self.pipeline_backbone_dirty_indices.as_slice(), n)
            && all_under(self.upper_bank_dirty_indices.as_slice(), n)
            && all_under(self.via_decode_inversion_dirty.as_slice(), n)
            && self.pipeline_reg_data_dirty_indices.len() == 16
            && lists_under(&self.pipeline_reg_data_dirty_indices, n)
            && self.high_tree_a_sel_const_indices.len() == 7
            && all_under(self.high_tree_a_sel_const_indices.as_slice(), n)
            && self.high_tree_b_sel_const_indices.len() == 7
            && all_under(self.high_tree_b_sel_const_indices.as_slice(), n)
            && self.high_tree_a_data_const_indices.len() == 8
            && all_under(self.high_tree_a_data_const_indices.as_slice(), n)
            && self.high_tree_b_data_const_indices.len() == 8
            && all_under(self.high_tree_b_data_const_indices.as_slice(), n)
            && self.top_mux_a_sel_const_idx < n
            && self.top_mux_b_sel_const_idx < n
            && all_under(self.high_tree_a_dirty_indices.as_slice(), n)
            && all_under(self.high_tree_b_dirty_indices.as_slice(), n)
            && all_under(self.top_mux_a_dirty_indices.as_slice(), n)
            && all_under(self.top_mux_b_dirty_indices.as_slice(), n)
            && self.alu_add_l_enable_idx < n
            && self.alu_add_l_mux_idx < n
    }

    /// The tiles of the ALU and of branches are on a grid of `n` tiles.
    fn get_fits_execute(&self, n: usize) -> (r: bool)
        ensures
            r == self.fits_execute(n as nat),
    {
        self.branch_taken_core_idx < n
            && self.branch_ctrl_b_l1_tap_idx < n
            && self.branch_flag_z_l1_tap_idx < n
            && self.branch_flag_c_l1_tap_idx < n
            && all_under(self.branch_dirty_indices.as_slice(), n)
            && all_under(self.branch_flag_dirty_indices.as_slice(), n)
            && self.alu_a_trunk_terminal_idx < n
            && self.alu_b_trunk_terminal_idx < n
            && all_under(self.alu_a_downstream_dirty.as_slice(), n)
            && all_under(self.alu_b_downstream_dirty.as_slice(), n)
            && all_under(self.alu_r_mux_output_indices.as_slice(), n)
            && all_positive(self.alu_r_mux_output_indices.as_slice())
            && self.wb_alu_root_idx < n
            && self.lr_idx < n
    }

    /// The tiles of registers, flags, memory and write-back are on a grid of `n` tiles.
    fn get_fits_commit(&self, n: usize) -> (r: bool)
        ensures
            r == self.fits_commit(n as nat),
    {
        self.pc_next_mux_idx < n
            && self.pc_ingress_idx < n
            && self.rd_onehot_decode_idx < n
            && all_under(self.rd_decode_l0_chain.as_slice(), n)
            && self.we_mask_const_idx < n
            && self.flag_we_mask_const_idx < n
            && all_under(self.commit_dirty_indices.as_slice(), n)
            && all_under(self.reg_wb_dirty_indices.as_slice(), n)
            && all_under(self.flag_commit_dirty_indices.as_slice(), n)
            && all_under(self.reg_indices.as_slice(), n)
            && all_under(self.reg_tap_l1_indices.as_slice(), n)
            && self.flag_z_idx < n
            && self.flag_c_idx < n
            && all_under(self.ram_indices.as_slice(), n)
            && all_under(self.high_reg_wb_data_const_indices.as_slice(), n)
            && all_under(self.high_reg_we_const_indices.as_slice(), n)
            && all_under(self.high_reg_merge_mux_indices.as_slice(), n)
            && self.ram_write_decode_idx < n
            && self.ram_write_gate_idx < n
            && self.wb_data_mux_idx < n
            && self.extract_opcode_shr_idx < n
            && self.extract_opcode_bit4_idx < n
            && all_under(self.extract_rd_bit_indices.as_slice(), n)
            && self.extract_rs_field_idx < n
    }

    /// Every tile that the CPU reads, sets or marks is on a grid of `n` tiles.
    pub fn get_fits(&self, n: usize) -> (r: bool)
        ensures
            r == self.fits(n as nat),
    {
        self.get_fits_fetch(n) && self.get_fits_execute(n) && self.get_fits_commit(n)
    }
}

impl Simulation {
    /// The grid has a tile per layer, its size is counted, and its tables cover the same tiles.
    pub fn get_wf(&self) -> (r: bool)
        ensures
            r == self.wf(),
    {
        self.width > 0 && self.height > 0 && match self.width.checked_mul(self.height) {
            Some(_) => true,
            None => false,
        } && self.kinds.len() == self.values.len() && self.dirty.len() == self.values.len()
    }

    /// The grid has at least four layers.
    fn get_four_layers(&self) -> (r: bool)
        requires
            self.wf(),
        ensures
            r == (4 * (self.width * self.height) <= self.len()),
    {
        let layer: usize = self.width * self.height;
        layer <= self.values.len() / 4
    }
}

impl TileCpuV2 {
    /// The CPU can take a step on this grid: its tiles are on it, its memory is well formed, a
    /// store through tiles stays on the grid, and every counter has room.
    pub open spec fn can_step(self, sim: Simulation) -> bool {
        &&& self.on(sim)
        &&& self.room()
        &&& self.mem.wf()
        &&& self.stores_fit(sim)
        &&& decoder_fits(sim, self.origin.0 as int, self.origin.1 as int)
    }

    fn get_stores_fit(&self, sim: &Simulation) -> (r: bool)
        ensures
            r == self.stores_fit(*sim),
    {
        if self.auth.ram_store {
            let mut i: usize = 0;
            while i < 8
                invariant
                    i <= 8,
                    self.auth.ram_store,
                    forall|k: int| 0 <= k < i ==> #[trigger] self.idx.ram_indices@[k] >= sim.width,
                decreases 8 - i,
            {
                if self.idx.ram_indices[i] < sim.width {
                    return false;
                }
                i = i + 1;
            }
        }
        let via: bool = match self.store.saved_via {
            Some(v) => v.0 < sim.values.len(),
            None => true,
        };
        via && self.store.inject_up_idx < sim.values.len()
    }

    /// Whether the CPU can take a step on this grid. The memory is well formed by construction.
    pub fn get_can_step(&self, sim: &Simulation) -> (r: bool)
        requires
            self.mem.wf(),
        ensures
            r == self.can_step(*sim),
    {
        let (ox, oy) = self.origin;
        sim.get_wf() && self.idx.get_fits(sim.values.len()) && self.has_room()
            && self.get_stores_fit(sim) && ox < sim.width && sim.width - ox > 46 && oy < sim.height
            && sim.height - oy > 37 && sim.get_four_layers()
    }
}

} // verus!
