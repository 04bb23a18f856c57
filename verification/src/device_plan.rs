//! The device-cycle plan: what a device ALU program is built from.
use vstd::prelude::*;

use crate::cop;
use crate::device_model::{zero_cell, NamedOp, NamedProgram, Taps};

verus! {

/// One tile operation: the output tile, the operation code, the operand tiles.
#[derive(Clone, Copy, Debug, PartialEq, Eq, Structural)]
pub struct CompactOp {
    pub idx: u32,
    pub op: u8,
    pub in0: u32,
    pub in1: u32,
    pub in2: u32,
}

/// The neighbour tiles and the firing threshold of a threshold via.
#[derive(Clone, Copy, Debug)]
pub struct ThresholdVia {
    pub neighbors: [u32; 4],
    pub threshold: u8,
}

/// One op stream of a plan. `wvia[i]` is the shift and mask of op `i`, `tvia[i]` its
/// threshold data; tile `tile_count` stands for the constant-zero row.
pub struct AluKernel {
    pub tile_count: u32,
    pub ops: Vec<CompactOp>,
    pub wvia: Vec<(u8, u64)>,
    pub tvia: Vec<ThresholdVia>,
}

/// The tiles that the device cycle injects into and reads back.
pub struct DeviceLayout {
    pub pc_idx: u32,
    pub final_mux_indices: [u32; 4],
    pub super_mux_inject_right_indices: [u32; 4],
    pub super_mux_inject_indices: [u32; 4],
    /// Entry `4 * b + lane` is lane `lane` of bank `4 + b`.
    pub bank47_mux_indices: [u32; 16],
    pub alu_a_trunk_terminal_idx: u32,
    pub alu_b_trunk_terminal_idx: u32,
    pub wb_alu_root_idx: u32,
}

/// The three op streams of the tile ALU and the tiles around them.
pub struct DeviceCyclePlan {
    pub cone: AluKernel,
    pub settle: AluKernel,
    pub trunk: AluKernel,
    pub layout: DeviceLayout,
}

/// The cell a tile index names, where `zero_row` names the constant-zero row.
pub open spec fn cell(t: u32, zero_row: u32) -> int {
    if t == zero_row {
        zero_cell()
    } else {
        t as int
    }
}

impl AluKernel {
    /// How many ops the stream has: as many as all three tables cover.
    pub open spec fn op_len(self) -> nat {
        if self.ops@.len() <= self.wvia@.len() && self.ops@.len() <= self.tvia@.len() {
            self.ops@.len()
        } else if self.wvia@.len() <= self.tvia@.len() {
            self.wvia@.len()
        } else {
            self.tvia@.len()
        }
    }

    /// Op `i` over named cells.
    pub open spec fn named_op(self, i: int, zero_row: u32) -> NamedOp {
        let op = self.ops@[i];
        let tv = self.tvia@[i];
        let threshold_op = op.op == cop::COP_THRESHOLD_VIA;
        NamedOp {
            code: op.op,
            out: cell(op.idx, zero_row),
            ins: Seq::new(
                7,
                |k: int|
                    if k == 0 {
                        cell(op.in0, zero_row)
                    } else if k == 1 {
                        cell(op.in1, zero_row)
                    } else if k == 2 {
                        cell(op.in2, zero_row)
                    } else if threshold_op {
                        cell(tv.neighbors@[k - 3], zero_row)
                    } else {
                        zero_cell()
                    },
            ),
            threshold: if threshold_op {
                tv.threshold
            } else {
                0
            },
            shift: self.wvia@[i].0,
            mask: self.wvia@[i].1,
        }
    }

    /// The first `n` ops over named cells, constants left out.
    pub open spec fn stream(self, zero_row: u32, n: nat) -> Seq<NamedOp>
        decreases n,
    {
        if n == 0 {
            Seq::empty()
        } else {
            let earlier = self.stream(zero_row, (n - 1) as nat);
            if self.ops@[n - 1].op == cop::COP_CONST {
                earlier
            } else {
                earlier.push(self.named_op(n - 1, zero_row))
            }
        }
    }

    /// Every weighted via shifts by less than the width of a tile value.
    pub open spec fn shifts_valid(self) -> bool {
        forall|i: int| 0 <= i < self.op_len() ==> (#[trigger] self.wvia@[i]).0 < 64
    }

    /// How many ops the stream has.
    pub fn op_count(&self) -> (n: usize)
        ensures
            n == self.op_len(),
    {
        let mut n: usize = self.ops.len();
        if self.wvia.len() < n {
            n = self.wvia.len();
        }
        if self.tvia.len() < n {
            n = self.tvia.len();
        }
        n
    }
}

impl DeviceLayout {
    /// The taps over named cells.
    pub open spec fn taps(self) -> Taps {
        Taps {
            pc: self.pc_idx as int,
            final_mux: Seq::new(4, |i: int| self.final_mux_indices@[i] as int),
            inject_right: Seq::new(4, |i: int| self.super_mux_inject_right_indices@[i] as int),
            inject: Seq::new(4, |i: int| self.super_mux_inject_indices@[i] as int),
            bank47: Seq::new(
                4,
                |b: int| Seq::new(4, |i: int| self.bank47_mux_indices@[4 * b + i] as int),
            ),
            a_term: self.alu_a_trunk_terminal_idx as int,
            b_term: self.alu_b_trunk_terminal_idx as int,
            root: self.wb_alu_root_idx as int,
        }
    }
}

impl DeviceCyclePlan {
    /// The plan's program over named cells, nothing dropped but constants.
    pub open spec fn program(self) -> NamedProgram {
        let z = self.cone.tile_count;
        NamedProgram {
            cone: self.cone.stream(z, self.cone.op_len()),
            settle: self.settle.stream(z, self.settle.op_len()),
            trunk: self.trunk.stream(z, self.trunk.op_len()),
            taps: self.layout.taps(),
        }
    }

    /// The plan's streams share one tile numbering, shift by valid amounts, and mention few
    /// enough tiles to number them in 32 bits.
    pub open spec fn valid(self) -> bool {
        &&& self.settle.tile_count == self.cone.tile_count
        &&& self.trunk.tile_count == self.cone.tile_count
        &&& self.cone.shifts_valid()
        &&& self.settle.shifts_valid()
        &&& self.trunk.shifts_valid()
        &&& 8 * (self.cone.op_len() + self.settle.op_len() + self.trunk.op_len()) + 64
            < u32::MAX
    }
}

} // verus!
