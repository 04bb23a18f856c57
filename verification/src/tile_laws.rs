//! What the stages of the tile CPU ask of the tiles and take from them.
use vstd::prelude::*;

use crate::alu::{AluInputs, AluOutcome};
use crate::bits::lemma_bit_of;
use crate::branch::{branch_pc, branch_selector, branch_taken, ctrl_b_of};
use crate::commit::{
    acting_ctrl_a, flag_we, flag_we_injected, ram_select, rd_onehot, we_mask, DecodeTables,
};
use crate::cop_laws::lemma_one_bits;
use crate::decode::{acting_ctrl_b, operand_of, operand_regs};
use crate::execute::{access_addr, computed, decided, granted, with_load, with_store};
use crate::fetch::{
    high_data_a, high_data_b, rom_lanes, selectors_a, selectors_b, with_super_mux, FetchWord,
};
use crate::gates::CheckCounter;
use crate::latch::PipelineLatch;
use crate::layout::V2CpuIndices;
use crate::memory::{store_onehot, DataMemory};
use crate::operand::{injection_of, with_injection, Injection};
use crate::pc_stage::tile_pc;
use crate::settle_commit::wb_hold;
use crate::simulation::{tile_at, Grid};
use crate::state::{ArchState, Authority, PcMode};
use crate::writeback::{changed_flags, mask_of, ram_differences, with_regs};

verus! {

/// The control byte of an opcode: bits 0 to 2 are the kind of branch, bit 3 reads memory, bit 4
/// writes it, bit 5 halts, bit 6 saves the return address and bit 7 returns.
pub proof fn law_control_bytes(op: int, b: int)
    requires
        0 <= op < 32,
        b == ctrl_b_of(op),
    ensures
        0x1A <= op <= 0x1E ==> b % 8 == op - 0x19,
        op == 0x1F ==> b % 8 == 6,
        op == 0x15 ==> b % 8 == 7,
        op == 0x01 ==> b % 8 == 1,
        op != 0x01 && op != 0x15 && op < 0x1A ==> b % 8 == 0,
        (b / 8) % 2 == 1 <==> op == 0x16 || op == 0x18,
        (b / 16) % 2 == 1 <==> op == 0x17 || op == 0x19,
        (b / 32) % 2 == 1 <==> op == 0x01,
        (b / 64) % 2 == 1 <==> op == 0x1F,
        (b / 128) % 2 == 1 <==> op == 0x15,
{
}

/// Which way a branch goes: kind 0 never, 1, 6 and 7 always, 2 and 3 where the zero flag is set and
/// clear, 4 and 5 where the carry is. A branch that is taken goes to its target, but a return to
/// the low seven bits of the link register; one that is not goes on.
pub proof fn law_branch_directions(
    kind: int,
    z: bool,
    c: bool,
    target: u32,
    behind: u32,
    lr: u32,
)
    requires
        0 <= kind < 8,
    ensures
        kind == 0 ==> !branch_taken(kind, z, c) && branch_pc(kind, z, c, target, behind, lr)
            == behind,
        kind == 1 || kind == 6 ==> branch_taken(kind, z, c) && branch_pc(
            kind,
            z,
            c,
            target,
            behind,
            lr,
        ) == target,
        kind == 7 ==> branch_taken(kind, z, c) && branch_pc(kind, z, c, target, behind, lr) == lr
            % 128,
        kind == 2 ==> branch_taken(kind, z, c) == z && branch_pc(kind, z, c, target, behind, lr)
            == if z {
            target
        } else {
            behind
        },
        kind == 3 ==> branch_taken(kind, z, c) == !z && branch_pc(kind, z, c, target, behind, lr)
            == if z {
            behind
        } else {
            target
        },
        kind == 4 ==> branch_taken(kind, z, c) == c && branch_pc(kind, z, c, target, behind, lr)
            == if c {
            target
        } else {
            behind
        },
        kind == 5 ==> branch_taken(kind, z, c) == !c && branch_pc(kind, z, c, target, behind, lr)
            == if c {
            behind
        } else {
            target
        },
        branch_selector(kind, z, c) % 8 == kind,
        (branch_selector(kind, z, c) / 8) % 2 == 1 <==> z,
        (branch_selector(kind, z, c) / 16) % 2 == 1 <==> c,
        0 <= branch_selector(kind, z, c) < 32,
{
}

/// The lanes of a fetched word. In the lower half of the tiles' program a lane comes from the final
/// multiplexer, in the upper half from the multiplexer of the address' bank; above the tiles'
/// program, lane `i` is byte `i` of the program word, and zero behind the program's end.
pub proof fn law_lanes_of_a_fetched_word(
    idx: V2CpuIndices,
    mode: PcMode,
    program_ext: Seq<u32>,
    pc: u32,
    g: Grid,
    i: int,
)
    requires
        0 <= i < 4,
    ensures
        rom_lanes(idx, mode, program_ext, pc, g).len() == 4,
        (!mode.extended_pc || pc < 128) && (pc / 64) % 2 == 0 ==> rom_lanes(
            idx,
            mode,
            program_ext,
            pc,
            g,
        )[i] == g.values[idx.final_mux_indices@[i] as int],
        (!mode.extended_pc || pc < 128) && (pc / 64) % 2 == 1 ==> rom_lanes(
            idx,
            mode,
            program_ext,
            pc,
            g,
        )[i] == g.values[idx.bank47_mux_indices@[4 * ((pc / 16) % 4) + i] as int],
        mode.extended_pc && 128 <= pc < 128 + program_ext.len() ==> {
            let lanes = rom_lanes(idx, mode, program_ext, pc, g);
            lanes[0] + 256 * lanes[1] + 65536 * lanes[2] + 16777216 * lanes[3] == program_ext[pc
                - 128] && lanes[i] < 256
        },
        mode.extended_pc && pc >= 128 + program_ext.len() ==> rom_lanes(
            idx,
            mode,
            program_ext,
            pc,
            g,
        )[i] == 0,
{
    if mode.extended_pc && 128 <= pc < 128 + program_ext.len() {
        let w = program_ext[pc - 128] as int;
        assert(w == w % 256 + 256 * ((w / 256) % 256) + 65536 * ((w / 65536) % 256) + 16777216 * (w
            / 16777216));
    }
}

/// The program counter that the tiles hold is the low part of its tile's value.
pub proof fn law_tile_program_counter(idx: V2CpuIndices, mode: PcMode, g: Grid)
    ensures
        tile_pc(idx, mode, g) == (g.values[idx.pc_idx as int] % 0x1_0000_0000) as u32
            & mode.pc_phys_mask,
{
}

/// The selectors of the two operand trees pick the registers that the word names: reading a tree's
/// selectors from the first level up as a number, the input with that number is the register. The
/// first level's selectors are alike, and so are the second's.
pub proof fn law_trees_pick_the_registers(w: FetchWord, regs: Seq<u64>, a: int, b: int)
    requires
        regs.len() == 16,
        w.rd < 8,
        w.rs_lo < 8,
        a == (if selectors_a(w)[0] != 0 {
            1int
        } else {
            0int
        }) + (if selectors_a(w)[4] != 0 {
            2int
        } else {
            0int
        }) + (if selectors_a(w)[6] != 0 {
            4int
        } else {
            0int
        }),
        b == (if selectors_b(w)[0] != 0 {
            1int
        } else {
            0int
        }) + (if selectors_b(w)[4] != 0 {
            2int
        } else {
            0int
        }) + (if selectors_b(w)[6] != 0 {
            4int
        } else {
            0int
        }),
    ensures
        high_data_a(regs)[a] == regs[8 + w.rd],
        high_data_b(regs)[b] == regs[8 + w.rs_lo],
        forall|i: int| 0 <= i < 4 ==> #[trigger] selectors_a(w)[i] == selectors_a(w)[0],
        forall|i: int| 0 <= i < 4 ==> #[trigger] selectors_b(w)[i] == selectors_b(w)[0],
        selectors_a(w)[4] == selectors_a(w)[5],
        selectors_b(w)[4] == selectors_b(w)[5],
        selectors_a(w).len() == 7,
        selectors_b(w).len() == 7,
{
}

/// The operand registers of a word: the destination, and the source; an instruction that reads no
/// source register takes the second operand from the destination's bank. An operand is the
/// register's own tile where its gate is in force or the word is of the upper half, else the
/// tree's.
pub proof fn law_operands_of_a_word(w: FetchWord, gate: bool, tree: u64, direct: u64)
    requires
        w.rd < 8,
        w.rs_lo < 8,
    ensures
        operand_regs(w).0 == w.rd + 8 * (w.ir_ext as int % 2),
        w.opcode == 0x02 || 0x04 <= w.opcode <= 0x08 || w.opcode == 0x0F || w.opcode == 0x16
            || w.opcode == 0x17 ==> operand_regs(w).1 == w.rs_lo + 8 * ((w.ir_ext as int / 2) % 2),
        !(w.opcode == 0x02 || 0x04 <= w.opcode <= 0x08 || w.opcode == 0x0F || w.opcode == 0x16
            || w.opcode == 0x17) ==> operand_regs(w).1 == w.rs_lo + 8 * (w.ir_ext as int % 2),
        gate || (w.pc / 64) % 2 == 1 ==> operand_of(gate, w, tree, direct) == direct,
        !gate && (w.pc / 64) % 2 == 0 ==> operand_of(gate, w, tree, direct) == tree,
{
    assert(w.ir_ext % 2 == w.ir_ext as int % 2);
    assert((w.ir_ext / 2) % 2 == (w.ir_ext as int / 2) % 2);
}

/// Which control byte is acted on: the table's where the tiles' decode is trusted or a combined
/// table is there; else, where this gate is in force, the block's or the table's; else the tiles'
/// in the lower half of the program and the table's in the upper.
pub proof fn law_acting_control_byte(
    tables: DecodeTables,
    auth: Authority,
    gate: bool,
    block: Option<Seq<u64>>,
    w: FetchWord,
    tile: u64,
    b: u8,
)
    requires
        w.opcode < 32,
        b == acting_ctrl_b(tables, auth, gate, block, w, tile),
    ensures
        tables.combined matches Some(t) ==> b == t@[w.opcode as int] / 256,
        tables.combined is None && auth.decode ==> b == ctrl_b_of(w.opcode as int),
        tables.combined is None && !auth.decode && gate && block is None ==> b == ctrl_b_of(
            w.opcode as int,
        ),
        tables.combined is None && !auth.decode && !gate && (w.pc / 64) % 2 == 0 ==> b == tile
            % 256,
        tables.combined is None && !auth.decode && !gate && (w.pc / 64) % 2 == 1 ==> b == ctrl_b_of(
            w.opcode as int,
        ),
{
}

/// The register select has one bit, that of the destination's low three bits. The write enables
/// have it where control byte A writes a register and the destination is in the lower bank, and
/// else no bit. The flag enables are bits 4 and 5 of control byte A; a multiplication whose flags
/// are trusted leaves the carry's out. Control byte A is the low byte of a combined table's entry.
pub proof fn law_selects_and_enables(
    l: PipelineLatch,
    auth: Authority,
    tables: DecodeTables,
    ctrl_a: u8,
    k: u64,
)
    requires
        k < 64,
        l.opcode < 32,
    ensures
        (rd_onehot(l) >> k) & 1 == 1 <==> k == l.rd % 8,
        (ctrl_a / 8) % 2 == 1 && l.ir_ext % 2 == 0 ==> ((we_mask(l, ctrl_a) >> k) & 1 == 1 <==> k
            == l.rd % 8),
        (ctrl_a / 8) % 2 == 0 || l.ir_ext % 2 == 1 ==> we_mask(l, ctrl_a) == 0,
        flag_we(ctrl_a) % 2 == (ctrl_a as int / 16) % 2,
        flag_we(ctrl_a) / 2 == (ctrl_a as int / 32) % 2,
        l.opcode == 0x04 && l.ir_low % 32 == 1 && auth.sub_fn_flag ==> flag_we_injected(
            l,
            auth,
            ctrl_a,
        ) == (ctrl_a as int / 16) % 2,
        !(l.opcode == 0x04 && l.ir_low % 32 == 1 && auth.sub_fn_flag) ==> flag_we_injected(
            l,
            auth,
            ctrl_a,
        ) == flag_we(ctrl_a),
        tables.combined matches Some(t) ==> acting_ctrl_a(tables, auth, None, l.opcode)
            == t@[l.opcode as int] % 256,
        tables.combined is None ==> acting_ctrl_a(tables, auth, None, l.opcode)
            == tables.ctrl_a@[l.opcode as int],
{
    lemma_bit_of(1, 1, (l.rd % 8) as u64, k);
    if k >= l.rd % 8 {
        lemma_one_bits((k - l.rd % 8) as u64);
    }
    let x = ctrl_a as int;
    assert(((x / 16) % 4) % 2 == (x / 16) % 2);
    assert(((x / 16) % 4) / 2 == (x / 32) % 2);
}

/// The row select of a store has one bit, that of the address' low three bits, where the address is
/// a scratchpad word and no device's; else, and for all that is no store, it is zero.
pub proof fn law_row_select(
    l: PipelineLatch,
    arch: ArchState,
    mem: DataMemory,
    addr: int,
    k: u64,
)
    requires
        addr == access_addr(l, arch, mem),
        k < 64,
    ensures
        (l.opcode == 0x17 || l.opcode == 0x19) && (0 <= addr < 41 || 63 < addr < 128) ==> ((
        ram_select(l, arch, mem, None) >> k) & 1 == 1 <==> k == addr % 8) && ((store_onehot(addr)
            >> k) & 1 == 1 <==> k == addr % 8),
        41 <= addr <= 63 || addr >= 128 ==> ram_select(l, arch, mem, None) == 0 && store_onehot(
            addr,
        ) == 0,
        l.opcode != 0x17 && l.opcode != 0x19 ==> ram_select(l, arch, mem, None) == 0,
{
    let s = (addr % 8) as u64;
    lemma_bit_of(1, 1, s, k);
    if k >= s {
        lemma_one_bits((k - s) as u64);
    }
}

/// The tile ALU decides a result where it gave one, its opcode is entrusted to it, the instruction
/// writes a register, it is no sub-function, and the tiles decoded it: in the lower half of the
/// program, or in the upper where decode is entrusted to them. Else the result stays as it was.
/// Nothing else of the outcome changes.
pub proof fn law_when_the_tile_alu_decides(
    l: PipelineLatch,
    auth: Authority,
    phys: Option<u64>,
    o: AluOutcome,
    sub: bool,
)
    requires
        sub == ((l.opcode == 0x04 && l.ir_low % 32 == 1) || (l.opcode == 0x09 && l.ir_low % 32 != 0)
            || (l.opcode == 0x0E && (l.ir_low / 8) % 2 == 1)),
    ensures
        ({
            let entrusted = (auth.alu_opcodes >> (l.opcode as u32)) & 1 == 1 && o.writes_reg && !sub
                && ((l.pc / 64) % 2 == 0 || auth.decode);
            &&& phys is Some && entrusted ==> decided(l, auth, phys, o).result == phys->0
            &&& phys is None || !entrusted ==> decided(l, auth, phys, o).result == o.result
            &&& granted(l, auth, phys, o).alu == (phys is Some && entrusted)
        }),
        decided(l, auth, phys, o).writes_reg == o.writes_reg,
        decided(l, auth, phys, o).flag_z == o.flag_z,
        decided(l, auth, phys, o).flag_c == o.flag_c,
        granted(l, auth, phys, o).load == ((l.opcode == 0x16 || l.opcode == 0x18)
            && auth.load_delivery && o.writes_reg),
        granted(l, auth, phys, o).sub_fn == (sub && auth.sub_fn_delivery && o.writes_reg),
        granted(l, auth, phys, o).wb_path ==> phys == Some(o.result) && (l.opcode == 0x02
            || l.opcode == 0x03) && l.ir_ext % 4 == 0,
        granted(l, auth, phys, o).high_reg_wb ==> phys == Some(o.result) && (l.opcode == 0x02
            || l.opcode == 0x03) && l.ir_ext % 2 == 1,
        granted(l, auth, phys, o).compare_flag ==> phys == Some(o.result) && l.opcode == 0x0F,
{
    assert(l.ir_ext % 2 == 0 && (l.ir_ext / 2) % 2 == 0 ==> l.ir_ext % 4 == 0);
}

/// A block's value is the result of the bit count that it is entrusted with, and the tile ALU's that
/// of an arithmetic shift entrusted to it; else the result is computed.
pub proof fn law_whose_result_is_taken(
    i: AluInputs,
    l: PipelineLatch,
    auth: Authority,
    phys: Option<u64>,
    block: Option<u64>,
)
    ensures
        l.opcode == 0x09 && 1 <= l.ir_low % 32 <= 3 && auth.bitop && block is Some ==> computed(
            i,
            l,
            auth,
            phys,
            block,
        ) == block->0,
        l.opcode == 0x0E && (l.ir_low / 8) % 2 == 1 && auth.sra && phys is Some ==> computed(
            i,
            l,
            auth,
            phys,
            block,
        ) == phys->0,
        !(l.opcode == 0x09 && 1 <= l.ir_low % 32 <= 3 && auth.bitop && block is Some) && !(l.opcode
            == 0x0E && (l.ir_low / 8) % 2 == 1 && auth.sra && phys is Some) ==> computed(
            i,
            l,
            auth,
            phys,
            block,
        ) == crate::alu::outcome_of(i).result,
{
}

/// A check counts once, and a mismatch exactly where the two values differ.
pub proof fn law_checks_count_differences(c: CheckCounter, a: u64, b: u64)
    requires
        c.room(1),
    ensures
        c.after(a != b).checks == c.checks + 1,
        a == b ==> c.after(a != b).mismatches == c.mismatches,
        a != b ==> c.after(a != b).mismatches == c.mismatches + 1,
{
}

/// Register tiles are pairwise different.
pub open spec fn reg_tiles_apart(idx: V2CpuIndices) -> bool {
    forall|i: int, j: int|
        0 <= i < 16 && 0 <= j < 16 && i != j ==> #[trigger] idx.reg_indices@[i]
            != #[trigger] idx.reg_indices@[j]
}

proof fn lemma_other_reg_tile(idx: V2CpuIndices, regs: Seq<u64>, n: nat, g: Grid, i: int)
    requires
        reg_tiles_apart(idx),
        n <= i < 16,
        forall|j: int| 0 <= j < 16 ==> #[trigger] idx.reg_indices@[j] < g.values.len(),
    ensures
        with_regs(idx, regs, n, g).values.len() == g.values.len(),
        with_regs(idx, regs, n, g).values[idx.reg_indices@[i] as int]
            == g.values[idx.reg_indices@[i] as int],
    decreases n,
{
    if n > 0 {
        lemma_other_reg_tile(idx, regs, (n - 1) as nat, g, i);
        assert(idx.reg_indices@[n - 1] != idx.reg_indices@[i]);
    }
}

/// The bit of a lower register is set in the mask of changed registers exactly where the
/// instruction changed the register or its tile held something else.
pub proof fn law_changed_registers_are_noted(
    idx: V2CpuIndices,
    before: Seq<u64>,
    after: Seq<u64>,
    l: PipelineLatch,
    high: bool,
    g: Grid,
    i: u16,
)
    requires
        reg_tiles_apart(idx),
        forall|j: int| 0 <= j < 16 ==> #[trigger] idx.reg_indices@[j] < g.values.len(),
        i < 8,
    ensures
        (mask_of(changed_flags(idx, before, after, l, high, g), 16) >> i) & 1 == 1 <==> (
        after[i as int] != before[i as int] || g.values[idx.reg_indices@[i as int] as int]
            != after[i as int]),
{
    let flags = changed_flags(idx, before, after, l, high, g);
    crate::writeback::law_mask_bits(flags, 16, i);
    lemma_other_reg_tile(idx, after, i as nat, g, i as int);
}

/// The memory tiles all agree with the scratchpad exactly where no difference is counted.
pub proof fn law_memory_differences(idx: V2CpuIndices, ram: Seq<u64>, n: nat, g: Grid)
    ensures
        ram_differences(idx, ram, n, g) <= n,
        ram_differences(idx, ram, n, g) == 0 <==> forall|i: int|
            0 <= i < n ==> g.values[#[trigger] idx.ram_indices@[i] as int] == ram[i],
    decreases n,
{
    if n > 0 {
        law_memory_differences(idx, ram, (n - 1) as nat, g);
        assert(idx.ram_indices@[n - 1] == idx.ram_indices@[n - 1]);
    }
}

/// What is injected for the tile ALU, where its gate is in force: a wide immediate at the selector
/// of its opcode, counted from ADDI; the amount of an arithmetic shift; else upper-bank operands.
/// All but the shift need their opcode entrusted to the tile ALU and no sub-function.
pub proof fn law_what_is_injected(alu_gate: bool, auth: Authority, l: PipelineLatch, sub: bool)
    requires
        l.opcode < 32,
        sub == ((l.opcode == 0x04 && l.ir_low % 32 == 1) || (l.opcode == 0x09 && l.ir_low % 32 != 0)
            || (l.opcode == 0x0E && (l.ir_low / 8) % 2 == 1)),
    ensures
        ({
            let entrusted = (auth.alu_opcodes >> (l.opcode as u32)) & 1 == 1 && !sub;
            let wide = (l.ir_ext / 4) % 2 == 1 && 0x10 <= l.opcode <= 0x14;
            let upper = l.ir_ext % 2 == 1 || (l.ir_ext / 2) % 2 == 1;
            let k = injection_of(alu_gate, auth, l);
            &&& !alu_gate ==> k == Injection::Nothing
            &&& alu_gate && wide && entrusted ==> k == Injection::WideImm((l.opcode - 0x10) as usize)
            &&& alu_gate && l.opcode == 0x0E && sub && auth.sra && (auth.alu_opcodes >> 14u32) & 1
                == 1 ==> k == Injection::Sra
            &&& alu_gate && !wide && entrusted && upper ==> k == Injection::Trunk
            &&& alu_gate && !entrusted && l.opcode != 0x0E ==> k == Injection::Nothing
            &&& alu_gate && !wide && !upper && l.opcode != 0x0E ==> k == Injection::Nothing
        }),
{
}

/// After an injection of upper operands the trunks' ends hold them: the first the destination's
/// where that is in the upper bank, the second the source's where the instruction reads one from
/// there. After an injection of a wide immediate its selector holds the immediate.
pub proof fn law_injected_operands_arrive(
    idx: V2CpuIndices,
    l: PipelineLatch,
    g: Grid,
    col: usize,
)
    requires
        idx.alu_a_trunk_terminal_idx != idx.alu_b_trunk_terminal_idx,
        idx.alu_a_trunk_terminal_idx < g.values.len(),
        idx.alu_b_trunk_terminal_idx < g.values.len(),
        col < 8,
        idx.alu_r_mux_output_indices@[col as int] < g.values.len(),
        idx.alu_r_mux_output_indices@[col as int] != idx.alu_a_trunk_terminal_idx,
    ensures
        l.ir_ext % 2 == 1 ==> with_injection(
            idx,
            l,
            Injection::Trunk,
            g,
        ).values[idx.alu_a_trunk_terminal_idx as int] == l.phys_top_a,
        (l.ir_ext / 2) % 2 == 1 && (l.opcode == 0x02 || 0x04 <= l.opcode <= 0x08 || l.opcode == 0x0F
            || l.opcode == 0x16 || l.opcode == 0x17) ==> with_injection(
            idx,
            l,
            Injection::Trunk,
            g,
        ).values[idx.alu_b_trunk_terminal_idx as int] == l.phys_top_b,
        with_injection(
            idx,
            l,
            Injection::WideImm(col),
            g,
        ).values[idx.alu_r_mux_output_indices@[col as int] as int] == if (l.ir_ext / 4) % 2 == 1 {
            (256 * (l.ir_ext as int / 256) + l.ir_low) as u64
        } else {
            l.ir_low as u64
        },
{
}

/// What is held on the write-back bus is what is written to the register: the immediate of a wide
/// load-immediate, else the result. Nothing is held for an instruction that writes none.
pub proof fn law_the_held_bus_carries_the_result(
    l: PipelineLatch,
    auth: Authority,
    o: AluOutcome,
    block: bool,
)
    requires
        l.opcode == 0x03 ==> o.result == l.imm(),
    ensures
        wb_hold(l, auth, o, block) matches Some(v) ==> o.writes_reg && v == o.result,
        o.writes_reg && l.opcode == 0x03 && (l.ir_ext / 4) % 2 == 1 && auth.wb_data ==> wb_hold(
            l,
            auth,
            o,
            block,
        ) is Some,
        o.writes_reg && (l.opcode == 0x16 || l.opcode == 0x18) && auth.load_delivery ==> wb_hold(
            l,
            auth,
            o,
            block,
        ) is Some,
        l.opcode != 0x02 && l.opcode != 0x03 && l.opcode != 0x04 && l.opcode != 0x09 && l.opcode
            != 0x0E && l.opcode != 0x16 && l.opcode != 0x18 ==> wb_hold(l, auth, o, block) is None,
{
}

/// A scratchpad store puts the value on the word's tile; where tiles do the store, in the first
/// bank, it puts the value on the tile to the left and raises the tile above. A store to main
/// memory touches no tile. A device's answer to a load is put on the tile of its address.
pub proof fn law_tiles_of_loads_and_stores(
    idx: V2CpuIndices,
    g: Grid,
    addr: int,
    value: u64,
    cell: int,
)
    requires
        0 <= addr < 128 ==> cell == idx.ram_indices@[addr],
        0 < g.width <= cell < g.values.len(),
        g.width > 1,
    ensures
        0 <= addr < 128 ==> with_store(idx, g, addr, value, false).values == g.values.update(
            cell,
            value,
        ),
        8 <= addr < 128 ==> with_store(idx, g, addr, value, true).values == g.values.update(
            cell,
            value,
        ),
        0 <= addr < 8 ==> with_store(idx, g, addr, value, true).values == g.values.update(
            cell - 1,
            value,
        ).update(cell - g.width, 0xFFFF_FFFF_FFFF_FFFF),
        addr >= 128 ==> with_store(idx, g, addr, value, true) == g && with_store(
            idx,
            g,
            addr,
            value,
            false,
        ) == g,
        41 <= addr <= 63 ==> with_load(idx, g, addr, Some(value)).values == g.values.update(
            cell,
            value,
        ),
        !(41 <= addr <= 63) ==> with_load(idx, g, addr, Some(value)) == g,
        with_load(idx, g, addr, None) == g,
{
}

/// The next tile of a row, of a column and of a layer.
pub proof fn law_tiles_are_laid_out_by_layer_and_row(
    w: int,
    h: int,
    x: int,
    y: int,
    z: int,
)
    ensures
        tile_at(w, h, 0, 0, 0) == 0,
        tile_at(w, h, x + 1, y, z) == tile_at(w, h, x, y, z) + 1,
        tile_at(w, h, x, y + 1, z) == tile_at(w, h, x, y, z) + w,
        tile_at(w, h, x, y, z + 1) == tile_at(w, h, x, y, z) + w * h,
{
    assert((y + 1) * w == y * w + w) by (nonlinear_arith);
    assert((z + 1) * (w * h) == z * (w * h) + w * h) by (nonlinear_arith);
    assert(0 * (w * h) == 0 && 0 * w == 0);
}

/// Once the lanes are injected the two inputs of each word selector hold the two banks' words: the
/// right one the final multiplexer's, the left one that of the address' bank; for a word above the
/// tiles' program both hold the word's lane.
pub proof fn law_word_selectors_see_both_banks(idx: V2CpuIndices, w: FetchWord, g: Grid)
    requires
        idx.super_mux_inject_right_indices@[0] < g.values.len(),
        idx.super_mux_inject_indices@[0] < g.values.len(),
        idx.super_mux_inject_right_indices@[0] != idx.super_mux_inject_indices@[0],
    ensures
        !w.beyond ==> with_super_mux(
            idx,
            w,
            1,
            g,
        ).values[idx.super_mux_inject_right_indices@[0] as int]
            == g.values[idx.final_mux_indices@[0] as int],
        !w.beyond ==> with_super_mux(idx, w, 1, g).values[idx.super_mux_inject_indices@[0] as int]
            == g.values[idx.bank47_mux_indices@[4 * ((w.pc as int / 16) % 4)] as int],
        w.beyond ==> with_super_mux(
            idx,
            w,
            1,
            g,
        ).values[idx.super_mux_inject_right_indices@[0] as int] == w.lanes@[0] && with_super_mux(
            idx,
            w,
            1,
            g,
        ).values[idx.super_mux_inject_indices@[0] as int] == w.lanes@[0],
{
    reveal_with_fuel(with_super_mux, 2);
    assert((w.pc as int / 16) % 4 == (w.pc / 16) % 4);
}

} // verus!
