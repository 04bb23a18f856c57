//! Which synthesized blocks of tiles a step of the pipeline asks for, and with what inputs.
use vstd::prelude::*;

use crate::alu::{is_store, is_sub_function, sub_function};
use crate::branch::{branch_kind, compute_synth_branch_inputs};
use crate::cop::level;
use crate::cpu::TileCpuV2;
use crate::execute::access_addr;
use crate::fetch::FetchWord;
use crate::isa::{is_mmio, is_v2_mmio_addr};
use crate::latch::PipelineLatch;
use crate::levels::{bit_levels, levels_of};
use crate::memory::compute_mem_addr;
use crate::operand::{arithmetic_shift, is_sra, sra_block_inputs, sra_block_levels};
use crate::settle_commit::mul_block_inputs;
use crate::simulation::{Grid, Simulation};
use crate::stage_f::asks_control_block;
use crate::stage_x::StageX;

verus! {

/// What a block computes.
#[derive(Clone, Copy, Debug, PartialEq, Eq, Structural)]
pub enum BlockKind {
    /// The sign bits of an arithmetic shift.
    Sign,
    /// A bit operation, by its sub-function. Its input is the operand itself.
    Bits(u8),
    /// Whether a branch is taken.
    Branch,
    /// The select of a destination register.
    RdSelect,
    /// The select of a memory row.
    RamSelect,
    CtrlA,
    CtrlB,
    /// The product of two bytes.
    Product,
}

/// A block to drive, and its inputs.
pub struct BlockRequest {
    pub kind: BlockKind,
    pub inputs: Vec<u64>,
}

/// The requests as mathematical values.
pub open spec fn requests(v: Seq<BlockRequest>) -> Seq<(BlockKind, Seq<u64>)> {
    Seq::new(v.len(), |i: int| (v[i].kind, v[i].inputs@))
}

/// One request, if it is made.
pub open spec fn ask_if(yes: bool, kind: BlockKind, inputs: Seq<u64>) -> Seq<
    (BlockKind, Seq<u64>),
> {
    if yes {
        seq![(kind, inputs)]
    } else {
        Seq::empty()
    }
}

/// The inputs of the branch block.
pub open spec fn branch_levels(l: PipelineLatch, z: bool, c: bool) -> Seq<u64> {
    let kind = branch_kind(l.ctrl_b);
    seq![level(kind % 2 == 1), level((kind / 2) % 2 == 1), level((kind / 4) % 2 == 1), level(z), level(c)]
}

/// The blocks that are driven before the selects are injected.
pub open spec fn select_blocks(c: TileCpuV2, l: PipelineLatch) -> Seq<(BlockKind, Seq<u64>)> {
    let addr = access_addr(l, c.arch, c.mem);
    ask_if(
        c.gates.rd_decode.enabled && !c.auth.rd_decode,
        BlockKind::RdSelect,
        levels_of((l.rd % 8) as u64, 3),
    ) + ask_if(
        c.gates.ram_decode.enabled && is_store(l.opcode) && addr < 128 && !is_mmio(addr),
        BlockKind::RamSelect,
        levels_of((addr % 8) as u64, 3),
    ) + ask_if(
        c.gates.ctrl_a.enabled && !c.auth.decode && c.tables.combined is None,
        BlockKind::CtrlA,
        levels_of(l.opcode as u64, 5),
    )
}

/// The blocks that stage X asks for in a state.
pub open spec fn blocks_of(c: TileCpuV2, g: Grid, at: StageX) -> Seq<(BlockKind, Seq<u64>)> {
    match at {
        StageX::Operands(l, _) => ask_if(
            c.gates.alu.enabled && c.auth.sra && is_sra(l.opcode, l.ir_low),
            BlockKind::Sign,
            sra_block_levels(l.a, l.ir_low),
        ),
        StageX::Compute(l, _, _) => ask_if(
            l.opcode == 0x09 && 1 <= l.ir_low % 32 <= 3 && c.auth.bitop,
            BlockKind::Bits((l.ir_low % 32) as u8),
            seq![l.a],
        ),
        StageX::Branch(x) => ask_if(
            c.gates.branch.enabled,
            BlockKind::Branch,
            branch_levels(x.l, c.arch.flag_z, c.arch.flag_c),
        ),
        StageX::Verify(l, z, cy) => ask_if(
            c.gates.branch.enabled && (l.pc / 64) % 2 == 0,
            BlockKind::Branch,
            branch_levels(l, z, cy),
        ),
        StageX::Select(x) => select_blocks(c, x.l),
        StageX::Product(x) => ask_if(
            x.l.opcode == 0x04 && x.l.ir_ext % 32 == 1 && c.auth.mul && is_sub_function(
                x.l.opcode,
                x.l.ir_low,
            ),
            BlockKind::Product,
            levels_of(g.values[c.idx.alu_a_trunk_terminal_idx as int], 8) + levels_of(
                g.values[c.idx.alu_b_trunk_terminal_idx as int],
                8,
            ),
        ),
        _ => Seq::empty(),
    }
}

fn branch_request(l: &PipelineLatch, z: bool, c: bool) -> (r: BlockRequest)
    ensures
        r.kind == BlockKind::Branch,
        r.inputs@ == branch_levels(*l, z, c),
{
    let levels: [u64; 5] = compute_synth_branch_inputs(l.ctrl_b % 8, z, c);
    let mut inputs: Vec<u64> = Vec::new();
    inputs.extend_from_slice(levels.as_slice());
    assert(inputs@ =~= branch_levels(*l, z, c));
    BlockRequest { kind: BlockKind::Branch, inputs }
}

impl TileCpuV2 {
    fn ask_select_blocks(&self, l: &PipelineLatch) -> (r: Vec<BlockRequest>)
        ensures
            requests(r@) == select_blocks(*self, *l),
    {
        let mut r: Vec<BlockRequest> = Vec::new();
        if self.gates.rd_decode.enabled && !self.auth.rd_decode {
            r.push(
                BlockRequest {
                    kind: BlockKind::RdSelect,
                    inputs: bit_levels((l.rd % 8) as u64, 3),
                },
            );
        }
        let ghost first = requests(r@);
        let addr: usize = compute_mem_addr(
            l.opcode,
            l.ir_low,
            l.ir_ext,
            l.b,
            &self.arch.regs,
            self.mem.mem_addr_mask,
        );
        if self.gates.ram_decode.enabled && (l.opcode == 0x17 || l.opcode == 0x19) && addr < 128
            && !is_v2_mmio_addr(addr) {
            r.push(
                BlockRequest {
                    kind: BlockKind::RamSelect,
                    inputs: bit_levels((addr % 8) as u64, 3),
                },
            );
        }
        let ghost second = requests(r@);
        assert(second =~= first + ask_if(
            self.gates.ram_decode.enabled && is_store(l.opcode) && addr < 128 && !is_mmio(
                addr as int,
            ),
            BlockKind::RamSelect,
            levels_of((addr % 8) as u64, 3),
        ));
        if self.gates.ctrl_a.enabled && !self.auth.decode && self.tables.combined.is_none() {
            r.push(
                BlockRequest { kind: BlockKind::CtrlA, inputs: bit_levels(l.opcode as u64, 5) },
            );
        }
        assert(requests(r@) =~= select_blocks(*self, *l));
        r
    }

    /// The blocks to drive, in order, before the next step of stage X.
    pub fn asked_blocks(&self, sim: &Simulation, at: &StageX) -> (r: Vec<BlockRequest>)
        requires
            self.on(*sim),
        ensures
            requests(r@) == blocks_of(*self, sim@, *at),
    {
        let mut r: Vec<BlockRequest> = Vec::new();
        match at {
            StageX::Operands(l, _) => {
                if self.gates.alu.enabled && self.auth.sra && arithmetic_shift(
                    l.opcode,
                    l.ir_low,
                ) {
                    let levels: [u64; 4] = sra_block_inputs(l.a, l.ir_low);
                    let mut inputs: Vec<u64> = Vec::new();
                    inputs.extend_from_slice(levels.as_slice());
                    assert(inputs@ =~= sra_block_levels(l.a, l.ir_low));
                    r.push(BlockRequest { kind: BlockKind::Sign, inputs });
                }
            },
            StageX::Compute(l, _, _) => {
                let sub: u8 = l.ir_low % 32;
                if l.opcode == 0x09 && 1 <= sub && sub <= 3 && self.auth.bitop {
                    let mut inputs: Vec<u64> = Vec::new();
                    inputs.push(l.a);
                    assert(inputs@ =~= seq![l.a]);
                    r.push(BlockRequest { kind: BlockKind::Bits(sub), inputs });
                }
            },
            StageX::Branch(x) => {
                if self.gates.branch.enabled {
                    r.push(branch_request(&x.l, self.arch.flag_z, self.arch.flag_c));
                }
            },
            StageX::Verify(l, z, c) => {
                if self.gates.branch.enabled && (l.pc / 64) % 2 == 0 {
                    r.push(branch_request(l, *z, *c));
                }
            },
            StageX::Select(x) => {
                return self.ask_select_blocks(&x.l);
            },
            StageX::Product(x) => {
                if x.l.opcode == 0x04 && x.l.ir_ext % 32 == 1 && self.auth.mul && sub_function(
                    x.l.opcode,
                    x.l.ir_low,
                ) {
                    r.push(
                        BlockRequest {
                            kind: BlockKind::Product,
                            inputs: mul_block_inputs(&self.idx, sim),
                        },
                    );
                }
            },
            _ => {},
        }
        assert(requests(r@) =~= blocks_of(*self, sim@, *at));
        r
    }

    /// The block to drive before the control byte is decided, if any.
    pub fn asked_control_block(&self, w: &FetchWord) -> (r: Option<BlockRequest>)
        ensures
            match r {
                Some(b) => {
                    &&& asks_control_block(*self)
                    &&& b.kind == BlockKind::CtrlB
                    &&& b.inputs@ == levels_of(w.opcode as u64, 5)
                },
                None => !asks_control_block(*self),
            },
    {
        if self.get_asks_control_block() {
            Some(BlockRequest { kind: BlockKind::CtrlB, inputs: bit_levels(w.opcode as u64, 5) })
        } else {
            None
        }
    }
}

} // verus!
