//! What each step of the stages asks for, holds, marks and compares.
use vstd::prelude::*;

use crate::blocks::{blocks_of, select_blocks, BlockKind};
use crate::bits::lemma_bit_of;
use crate::branch_stage::{in_upper_half, target_mux, target_tiles, transfers, with_branch};
use crate::cpu::TileCpuV2;
use crate::decode::{wide_constant, with_wide_load};
use crate::equivalence::{is_step, XStep};
use crate::execute::access_addr;
use crate::fetch::{
    high_ingress, immediate_tile, low_ingress, with_pipeline_marks, with_reg_marks, FetchWord,
};
use crate::latch::PipelineLatch;
use crate::layout::V2CpuIndices;
use crate::levels::{law_packed_bits, levels_of, packed};
use crate::memory::{is_pow2, DataMemory};
use crate::memory_laws::law_accessed_address;
use crate::operand::alu_readback;
use crate::settle_commit::{held_all, hold_plan, with_commit_marks, HoldPlan};
use crate::simulation::{lists, Grid, TileType};
use crate::stage_x::StageX;
use crate::state::{ArchState, Authority, Checks, PipelineState};
use crate::writeback::{ram_checks, ram_differences};

verus! {

/// A load from a device address takes the device's answer, where one is attached: it is the result,
/// memory mirrors it, and it is logged. Any other load takes what memory holds, and nothing is
/// logged.
pub proof fn law_devices_answer_loads(s: XStep, l: PipelineLatch, addr: int)
    requires
        is_step(s),
        s.at matches StageX::Compute(k, _, _) && k == l,
        l.opcode == 0x16 || l.opcode == 0x18,
        addr == access_addr(l, s.a.arch, s.a.mem),
    ensures
        s.to is Executed,
        41 <= addr <= 63 && s.out.answer is Some ==> {
            &&& s.to->Executed_0.o.result == s.out.answer->0
            &&& s.b.mem.ram@ == s.a.mem.ram@.update(addr, s.out.answer->0)
            &&& s.b.log.reads@ == s.a.log.reads@.push((addr as u8, s.out.answer->0))
        },
        !(41 <= addr <= 63) || s.out.answer is None ==> {
            &&& 0 <= addr < 128 ==> s.to->Executed_0.o.result == s.a.mem.ram@[addr]
            &&& s.b.mem == s.a.mem
            &&& s.b.log.reads@ == s.a.log.reads@
        },
        s.to->Executed_0.o.flag_z == (s.to->Executed_0.o.result == 0),
        s.to->Executed_0.o.flag_c == s.a.arch.flag_c,
        s.to->Executed_0.o.writes_reg,
        s.b.log.writes@ == s.a.log.writes@,
        s.b.arch == s.a.arch,
{
    reveal(is_step);
}

/// A store to a device address goes to the device, where one is attached: it is logged, and memory
/// stays. Any other store goes to memory, and nothing is logged.
pub proof fn law_devices_take_stores(s: XStep, l: PipelineLatch, addr: int)
    requires
        is_step(s),
        s.at matches StageX::Compute(k, _, _) && k == l,
        l.opcode == 0x17 || l.opcode == 0x19,
        addr == access_addr(l, s.a.arch, s.a.mem),
    ensures
        41 <= addr <= 63 && s.out.device ==> {
            &&& s.b.mem == s.a.mem
            &&& s.b.log.writes@ == s.a.log.writes@.push((addr as u8, l.a))
        },
        !(41 <= addr <= 63) || !s.out.device ==> {
            &&& 0 <= addr < 128 ==> s.b.mem.ram@ == s.a.mem.ram@.update(addr, l.a)
            &&& s.b.log.writes@ == s.a.log.writes@
        },
        s.b.log.reads@ == s.a.log.reads@,
        s.b.arch == s.a.arch,
{
    reveal(is_step);
}

/// The levels of a word's low bits, lowest first: all ones for a set bit, zero for a clear one.
pub proof fn law_levels_are_bits(x: u64, n: nat, k: int)
    requires
        0 <= k < n <= 64,
    ensures
        levels_of(x, n).len() == n,
        (x >> (k as u64)) & 1 == 1 ==> levels_of(x, n)[k] == 0xFFFF_FFFF_FFFF_FFFF,
        (x >> (k as u64)) & 1 != 1 ==> levels_of(x, n)[k] == 0,
{
}

/// The blocks that the selects ask for: the register select takes the destination's three bits, the
/// row select the low three bits of a scratchpad store's address, control byte A the five bits of
/// the opcode; each where its gate is in force and nothing else is trusted for it.
pub proof fn law_blocks_for_the_selects(c: TileCpuV2, l: PipelineLatch, addr: int)
    requires
        addr == access_addr(l, c.arch, c.mem),
    ensures
        select_blocks(c, l).contains((BlockKind::RdSelect, levels_of((l.rd % 8) as u64, 3)))
            <==> c.gates.rd_decode.enabled && !c.auth.rd_decode,
        select_blocks(c, l).contains((BlockKind::RamSelect, levels_of((addr % 8) as u64, 3)))
            <==> c.gates.ram_decode.enabled && (l.opcode == 0x17 || l.opcode == 0x19) && addr < 128
            && !(41 <= addr <= 63),
        select_blocks(c, l).contains((BlockKind::CtrlA, levels_of(l.opcode as u64, 5)))
            <==> c.gates.ctrl_a.enabled && !c.auth.decode && c.tables.combined is None,
{
    let s = select_blocks(c, l);
    let rd = c.gates.rd_decode.enabled && !c.auth.rd_decode;
    let ram = c.gates.ram_decode.enabled && (l.opcode == 0x17 || l.opcode == 0x19) && addr < 128
        && !(41 <= addr <= 63);
    let ca = c.gates.ctrl_a.enabled && !c.auth.decode && c.tables.combined is None;
    let a = if rd {
        1int
    } else {
        0int
    };
    let b = a + if ram {
        1int
    } else {
        0int
    };
    if rd {
        assert(s[0] == (BlockKind::RdSelect, levels_of((l.rd % 8) as u64, 3)));
    }
    if ram {
        assert(s[a] == (BlockKind::RamSelect, levels_of((addr % 8) as u64, 3)));
    }
    if ca {
        assert(s[b] == (BlockKind::CtrlA, levels_of(l.opcode as u64, 5)));
    }
}

/// The blocks that the other states ask for: the sign block of an arithmetic shift takes the sign
/// and the three bits of the amount, a bit count its operand, the branch block the three bits of
/// its kind and the flags, the multiplier the low bytes of the two trunks.
pub proof fn law_blocks_for_the_other_states(c: TileCpuV2, g: Grid, at: StageX, k: int)
    ensures
        at matches StageX::Operands(l, _) ==> c.gates.alu.enabled && c.auth.sra && l.opcode == 0x0E
            && (l.ir_low / 8) % 2 == 1 ==> {
            let s = blocks_of(c, g, at);
            &&& s.len() == 1
            &&& s[0].0 == BlockKind::Sign
            &&& s[0].1.len() == 4
            &&& s[0].1[0] != 0 <==> (l.a >> 63u64) & 1 == 1
            &&& s[0].1[1] != 0 <==> l.ir_low % 2 == 1
            &&& s[0].1[2] != 0 <==> (l.ir_low / 2) % 2 == 1
            &&& s[0].1[3] != 0 <==> (l.ir_low / 4) % 2 == 1
        },
        at matches StageX::Compute(l, _, _) ==> l.opcode == 0x09 && 1 <= l.ir_low % 32 <= 3
            && c.auth.bitop ==> {
            let s = blocks_of(c, g, at);
            s.len() == 1 && s[0].0 == BlockKind::Bits((l.ir_low % 32) as u8) && s[0].1 == seq![l.a]
        },
        at matches StageX::Branch(x) ==> c.gates.branch.enabled ==> {
            let s = blocks_of(c, g, at);
            &&& s.len() == 1
            &&& s[0].0 == BlockKind::Branch
            &&& s[0].1.len() == 5
            &&& s[0].1[0] != 0 <==> x.l.ctrl_b % 2 == 1
            &&& s[0].1[1] != 0 <==> (x.l.ctrl_b / 2) % 2 == 1
            &&& s[0].1[2] != 0 <==> (x.l.ctrl_b / 4) % 2 == 1
            &&& s[0].1[3] != 0 <==> c.arch.flag_z
            &&& s[0].1[4] != 0 <==> c.arch.flag_c
        },
        at matches StageX::Branch(_) && !c.gates.branch.enabled ==> blocks_of(c, g, at).len() == 0,
        at matches StageX::Verify(l, z, cy) ==> c.gates.branch.enabled && (l.pc / 64) % 2 == 0 ==> {
            let s = blocks_of(c, g, at);
            &&& s.len() == 1
            &&& s[0].0 == BlockKind::Branch
            &&& s[0].1.len() == 5
            &&& s[0].1[0] != 0 <==> l.ctrl_b % 2 == 1
            &&& s[0].1[1] != 0 <==> (l.ctrl_b / 2) % 2 == 1
            &&& s[0].1[2] != 0 <==> (l.ctrl_b / 4) % 2 == 1
            &&& s[0].1[3] != 0 <==> z
            &&& s[0].1[4] != 0 <==> cy
        },
        at matches StageX::Verify(l, _, _) ==> !(c.gates.branch.enabled && (l.pc / 64) % 2 == 0)
            ==> blocks_of(c, g, at).len() == 0,
        at matches StageX::Product(x) ==> c.auth.mul && x.l.opcode == 0x04 && x.l.ir_low % 32 == 1
            && x.l.ir_ext % 32 == 1 ==> {
            let s = blocks_of(c, g, at);
            &&& s.len() == 1
            &&& s[0].0 == BlockKind::Product
            &&& s[0].1.len() == 16
            &&& 0 <= k < 8 ==> (s[0].1[k] != 0 <==> (g.values[c.idx.alu_a_trunk_terminal_idx as int]
                >> (k as u64)) & 1 == 1)
            &&& 0 <= k < 8 ==> (s[0].1[8 + k] != 0 <==> (
            g.values[c.idx.alu_b_trunk_terminal_idx as int] >> (k as u64)) & 1 == 1)
        },
{
    if let StageX::Branch(x) = at {
        lemma_low_three_bits(x.l.ctrl_b);
    }
    if let StageX::Verify(l, _, _) = at {
        lemma_low_three_bits(l.ctrl_b);
    }
}

proof fn lemma_low_three_bits(b: u8)
    ensures
        (b % 8) % 2 == b % 2,
        ((b % 8) / 2) % 2 == (b / 2) % 2,
        ((b % 8) / 4) % 2 == (b / 4) % 2,
{
}

/// The word that a load or store of the pipeline accesses lies in memory, as far behind the one that
/// its base register names as its offset says.
pub proof fn law_pipeline_accesses(l: PipelineLatch, arch: ArchState, mem: DataMemory, base: u64)
    requires
        0x16 <= l.opcode <= 0x19,
        arch.regs@.len() == 16,
        is_pow2(mem.mem_addr_mask + 1),
        mem.mem_addr_mask < u64::MAX,
        base == arch.regs@[l.ir_low as int / 32 + 8 * ((l.ir_ext as int / 2) % 2)],
        l.opcode <= 0x17 ==> l.b == base,
    ensures
        0 <= access_addr(l, arch, mem) <= mem.mem_addr_mask,
        (l.ir_ext as int / 8) % 2 == 1 && base + l.ir_ext as int / 256 <= mem.mem_addr_mask
            ==> access_addr(l, arch, mem) == base + l.ir_ext as int / 256,
        (l.ir_ext as int / 8) % 2 == 0 && l.opcode <= 0x17 && base <= mem.mem_addr_mask
            ==> access_addr(l, arch, mem) == base,
        (l.ir_ext as int / 8) % 2 == 0 && l.opcode >= 0x18 && l.ir_low <= mem.mem_addr_mask
            ==> access_addr(l, arch, mem) == l.ir_low,
{
    let m = mem.mem_addr_mask as u64;
    law_accessed_address(l.opcode, l.ir_low, l.ir_ext, l.b, arch.regs@, m, base);
    vstd::arithmetic::div_mod::lemma_mod_bound(
        (base + l.ir_ext as int / 256) % 0x1_0000_0000_0000_0000,
        m + 1,
    );
    vstd::arithmetic::div_mod::lemma_mod_bound(base as int, m + 1);
    vstd::arithmetic::div_mod::lemma_mod_bound(l.ir_low as int, m + 1);
    if base <= m {
        vstd::arithmetic::div_mod::lemma_small_mod(base as nat, (m + 1) as nat);
    }
    if l.ir_low <= m {
        vstd::arithmetic::div_mod::lemma_small_mod(l.ir_low as nat, (m + 1) as nat);
    }
}

/// The tile ALU's result is what its output tile holds; for an arithmetic shift that is trusted, bit
/// `57 + i` is set too where output `i` of the sign block is.
pub proof fn law_read_back_result(
    root: u64,
    auth: Authority,
    l: PipelineLatch,
    levels: Seq<u64>,
    k: u64,
)
    requires
        k < 64,
        levels.len() <= 7,
    ensures
        alu_readback(root, auth, l, None) == root,
        !(l.opcode == 0x0E && (l.ir_low / 8) % 2 == 1 && auth.sra) ==> alu_readback(
            root,
            auth,
            l,
            Some(levels),
        ) == root,
        l.opcode == 0x0E && (l.ir_low / 8) % 2 == 1 && auth.sra ==> ((alu_readback(
            root,
            auth,
            l,
            Some(levels),
        ) >> k) & 1 == 1 <==> (root >> k) & 1 == 1 || (57 <= k < 57 + levels.len() && levels[k
            - 57] != 0)),
{
    law_packed_bits(levels, 57, levels.len(), k);
    lemma_bit_of(root, packed(levels, 57, levels.len()), 0, k);
}

/// The branch settle starts with the decision in its tile, all ones for a branch that is taken, and
/// its path marked, where this gate is in force; else with the flags' routes marked for an
/// instruction that branches or halts.
pub proof fn law_branch_settles_start_from(
    idx: V2CpuIndices,
    ctrl_b: u8,
    taken: bool,
    g: Grid,
    t: int,
)
    requires
        idx.branch_taken_core_idx < g.values.len(),
        0 <= t < g.dirty.len(),
    ensures
        taken ==> with_branch(idx, true, ctrl_b, taken, g).values[idx.branch_taken_core_idx as int]
            == 0xFFFF_FFFF_FFFF_FFFF,
        !taken ==> with_branch(idx, true, ctrl_b, taken, g).values[idx.branch_taken_core_idx as int]
            == 0,
        with_branch(idx, true, ctrl_b, taken, g).dirty[t] <==> g.dirty[t] || lists(
            idx.branch_dirty_indices@,
            t,
        ),
        ctrl_b % 8 != 0 || (ctrl_b / 32) % 2 == 1 ==> (with_branch(
            idx,
            false,
            ctrl_b,
            taken,
            g,
        ).dirty[t] <==> g.dirty[t] || lists(idx.branch_flag_dirty_indices@, t)),
        ctrl_b % 8 == 0 && (ctrl_b / 32) % 2 == 0 ==> with_branch(idx, false, ctrl_b, taken, g)
            == g,
        with_branch(idx, false, ctrl_b, taken, g).values == g.values,
        transfers(ctrl_b) <==> ctrl_b % 8 != 0 || (ctrl_b / 32) % 2 == 1,
{
}

/// What the commit settle starts from: always its own tiles, the write-back path's where a register
/// is being written, and the flags' for an instruction that writes them, which are the immediates,
/// arithmetic, logic, shifts and loads.
pub proof fn law_commit_settles_start_from(
    idx: V2CpuIndices,
    opcode: u8,
    reg_wb: bool,
    g: Grid,
    t: int,
)
    requires
        0 <= t < g.dirty.len(),
    ensures
        with_commit_marks(idx, opcode, reg_wb, g).dirty[t] <==> {
            ||| g.dirty[t]
            ||| lists(idx.commit_dirty_indices@, t)
            ||| (reg_wb && lists(idx.reg_wb_dirty_indices@, t))
            ||| ((0x03 <= opcode <= 0x14 || opcode == 0x16 || opcode == 0x18) && lists(
                idx.flag_commit_dirty_indices@,
                t,
            ))
        },
        with_commit_marks(idx, opcode, reg_wb, g).values == g.values,
        with_commit_marks(idx, opcode, reg_wb, g).kinds == g.kinds,
{
}

/// Which tiles are held for the commit: the write enables for an upper destination, the memory gate
/// for a store, the flag enables for a multiplication; each where the tiles are trusted with it.
pub proof fn law_when_tiles_are_held(
    l: PipelineLatch,
    auth: Authority,
    o: crate::alu::AluOutcome,
    ram_gate: bool,
    block: bool,
)
    ensures
        hold_plan(l, auth, o, ram_gate, block).we <==> l.ir_ext % 2 == 1 && o.writes_reg
            && auth.we_mask,
        hold_plan(l, auth, o, ram_gate, block).ram <==> auth.ram_writeback && ram_gate && (l.opcode
            == 0x17 || l.opcode == 0x19),
        hold_plan(l, auth, o, ram_gate, block).flag <==> l.opcode == 0x04 && l.ir_low % 32 == 1
            && auth.sub_fn_flag && auth.flag_we_mask,
        hold_plan(l, auth, o, ram_gate, block).mul ==> block && auth.mul && l.opcode == 0x04
            && l.ir_low % 32 == 1,
{
}

/// What the held tiles hold: the bus its value, the register enables nothing, the memory gate the
/// row select, the flag enables the zero flag's alone. All of them are constants then.
pub proof fn law_what_held_tiles_hold(idx: V2CpuIndices, p: HoldPlan, product: u64, g: Grid)
    requires
        idx.wb_data_mux_idx < g.values.len(),
        idx.we_mask_const_idx < g.values.len(),
        idx.ram_write_gate_idx < g.values.len(),
        idx.flag_we_mask_const_idx < g.values.len(),
        idx.ram_write_decode_idx < g.values.len(),
        g.kinds.len() == g.values.len(),
        idx.wb_data_mux_idx != idx.we_mask_const_idx,
        idx.wb_data_mux_idx != idx.ram_write_gate_idx,
        idx.wb_data_mux_idx != idx.flag_we_mask_const_idx,
        idx.wb_data_mux_idx != idx.ram_write_decode_idx,
        idx.we_mask_const_idx != idx.ram_write_gate_idx,
        idx.we_mask_const_idx != idx.flag_we_mask_const_idx,
        idx.we_mask_const_idx != idx.ram_write_decode_idx,
        idx.ram_write_gate_idx != idx.flag_we_mask_const_idx,
    ensures
        ({
            let h = held_all(idx, p, product, g);
            &&& p.wb matches Some(v) ==> h.values[idx.wb_data_mux_idx as int] == v
                && h.kinds[idx.wb_data_mux_idx as int] == TileType::Const
            &&& p.mul && p.wb is None ==> h.values[idx.wb_data_mux_idx as int] == product
                && h.kinds[idx.wb_data_mux_idx as int] == TileType::Const
            &&& p.we ==> h.values[idx.we_mask_const_idx as int] == 0
                && h.kinds[idx.we_mask_const_idx as int] == TileType::Const
            &&& p.ram ==> h.values[idx.ram_write_gate_idx as int]
                == g.values[idx.ram_write_decode_idx as int]
                && h.kinds[idx.ram_write_gate_idx as int] == TileType::Const
            &&& p.flag ==> h.values[idx.flag_we_mask_const_idx as int] == 1
                && h.kinds[idx.flag_we_mask_const_idx as int] == TileType::Const
        }),
{
}

/// The pipeline settles from everything where that is forced; else from its backbone and from the
/// data of every register whose bit is set.
pub proof fn law_pipeline_settles_start_from(
    idx: V2CpuIndices,
    p: PipelineState,
    g: Grid,
    r: int,
    t: int,
)
    requires
        0 <= t < g.dirty.len(),
        0 <= r < 16,
        idx.pipeline_reg_data_dirty_indices@.len() == 16,
    ensures
        p.force_full_dirty ==> (with_pipeline_marks(idx, p, g).dirty[t] <==> g.dirty[t] || lists(
            idx.pipeline_dirty_indices@,
            t,
        )),
        !p.force_full_dirty && (g.dirty[t] || lists(idx.pipeline_backbone_dirty_indices@, t))
            ==> with_pipeline_marks(idx, p, g).dirty[t],
        !p.force_full_dirty && (p.changed_regs_mask >> (r as u16)) & 1 == 1 && lists(
            idx.pipeline_reg_data_dirty_indices@[r]@,
            t,
        ) ==> with_pipeline_marks(idx, p, g).dirty[t],
        !p.force_full_dirty && p.changed_regs_mask == 0 && !g.dirty[t] && !lists(
            idx.pipeline_backbone_dirty_indices@,
            t,
        ) ==> !with_pipeline_marks(idx, p, g).dirty[t],
        with_pipeline_marks(idx, p, g).values == g.values,
{
    let b = g.mark_all(idx.pipeline_backbone_dirty_indices@);
    lemma_reg_marks(idx, p.changed_regs_mask, 16, b, r, t);
}

proof fn lemma_reg_marks(idx: V2CpuIndices, mask: u16, n: nat, g: Grid, r: int, t: int)
    requires
        0 <= t < g.dirty.len(),
        n <= 16,
    ensures
        with_reg_marks(idx, mask, n, g).dirty.len() == g.dirty.len(),
        with_reg_marks(idx, mask, n, g).values == g.values,
        g.dirty[t] ==> with_reg_marks(idx, mask, n, g).dirty[t],
        0 <= r < n && (mask >> (r as u16)) & 1 == 1 && lists(
            idx.pipeline_reg_data_dirty_indices@[r]@,
            t,
        ) ==> with_reg_marks(idx, mask, n, g).dirty[t],
        mask == 0 ==> with_reg_marks(idx, mask, n, g) == g,
    decreases n,
{
    if n > 0 {
        lemma_reg_marks(idx, mask, (n - 1) as nat, g, r, t);
        if mask == 0 {
            let k = (n - 1) as u16;
            assert((0u16 >> k) & 1 == 0) by (bit_vector);
        }
    }
}

/// The constant of a wide load-immediate: the top byte of the word above its low byte. It is put at
/// the first operand selector, and the adder passes it through.
pub proof fn law_wide_constants_pass_through(idx: V2CpuIndices, w: FetchWord, g: Grid)
    requires
        idx.alu_r_mux_output_indices@[0] < g.values.len(),
        idx.alu_add_l_enable_idx < g.values.len(),
        idx.alu_r_mux_output_indices@[0] != idx.alu_add_l_enable_idx,
    ensures
        wide_constant(w) == 256 * (w.ir_ext as int / 256) + w.ir_low,
        with_wide_load(idx, w, g).values[idx.alu_r_mux_output_indices@[0] as int]
            == wide_constant(w),
        with_wide_load(idx, w, g).values[idx.alu_add_l_enable_idx as int]
            == 0xFFFF_FFFF_FFFF_FFFF,
{
}

/// Where the decoder's inputs and the way to the branch target lie, counted from the CPU's corner
/// by columns, rows and layers.
pub proof fn law_where_the_decoder_lies(w: int, h: int, ox: int, oy: int, i: int)
    requires
        0 <= i < 8,
    ensures
        high_ingress(w, h, ox, oy) == (oy + 4) * w + ox + 13,
        low_ingress(w, h, ox, oy) == w * h + (oy + 4) * w + ox + 1,
        immediate_tile(w, h, ox, oy, i) == (oy + 37) * w + ox + 18 + 4 * i,
        target_mux(w, h, ox, oy) == 2 * (w * h) + (oy + 1) * w + ox + 6,
        target_tiles(w, h, ox, oy).len() == 11,
        i < 6 ==> target_tiles(w, h, ox, oy)[i] == 2 * (w * h) + (oy + 4) * w + ox + 2 + i,
        target_tiles(w, h, ox, oy)[6] == 3 * (w * h) + (oy + 4) * w + ox + 7,
        target_tiles(w, h, ox, oy)[7] == 3 * (w * h) + (oy + 1) * w + ox + 7,
        target_tiles(w, h, ox, oy)[8] == 3 * (w * h) + (oy + 2) * w + ox + 7,
        target_tiles(w, h, ox, oy)[9] == 3 * (w * h) + (oy + 3) * w + ox + 7,
        target_tiles(w, h, ox, oy)[10] == 2 * (w * h) + (oy + 1) * w + ox + 7,
{
    assert(0 * (w * h) == 0 && 1 * (w * h) == w * h);
}

/// The branch target is delivered in the upper half of the program, where decode is trusted to the
/// tiles.
pub proof fn law_when_targets_are_delivered(l: PipelineLatch, auth: Authority)
    ensures
        in_upper_half(l, auth) <==> (l.pc / 64) % 2 == 1 && auth.decode,
{
}

/// Comparing memory counts every word, and each difference once: to the stores where the instruction
/// was one, else to the others. Nothing is counted unless the tiles are trusted to store.
pub proof fn law_memory_comparisons_are_counted(
    idx: V2CpuIndices,
    ram: Seq<u64>,
    auth: Authority,
    opcode: u8,
    g: Grid,
    c: Checks,
    d: int,
)
    requires
        d == ram_differences(idx, ram, 128, g),
        d <= 128,
        c.ram_wb.room(128),
        c.ram_wb_store_mismatches + 128 <= u64::MAX,
        c.ram_wb_nonstore_mismatches + 128 <= u64::MAX,
    ensures
        !auth.ram_writeback ==> ram_checks(idx, ram, auth, opcode, g, c) == c,
        auth.ram_writeback ==> {
            let e = ram_checks(idx, ram, auth, opcode, g, c);
            &&& e.ram_wb.checks == c.ram_wb.checks + 128
            &&& e.ram_wb.mismatches == c.ram_wb.mismatches + d
            &&& opcode == 0x17 || opcode == 0x19 ==> e.ram_wb_store_mismatches
                == c.ram_wb_store_mismatches + d && e.ram_wb_nonstore_mismatches
                == c.ram_wb_nonstore_mismatches
            &&& opcode != 0x17 && opcode != 0x19 ==> e.ram_wb_nonstore_mismatches
                == c.ram_wb_nonstore_mismatches + d && e.ram_wb_store_mismatches
                == c.ram_wb_store_mismatches
        },
{
}

} // verus!
