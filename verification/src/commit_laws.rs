//! What is written back, compared and counted when an instruction ends, and where the program goes
//! from there, in terms of the latch, the outcome and the tiles.
use vstd::prelude::*;

use crate::alu::AluOutcome;
use crate::branch_stage::synth_taken;
use crate::commit::{
    acting_ctrl_a, flag_we_injected, flag_we_trusted, post_commit_gates, pre_commit_done,
    rd_select, tiles_see_ir, we_trusted, with_correction,
};
use crate::cpu::TileCpuV2;
use crate::debug::asked_to_tick;
use crate::commit::DecodeTables;
use crate::decode::{operand_gate, raw_selectors_b, with_trees_cleared};
use crate::decode_partition::{const_on, list_touches, touches};
use crate::device_plan::CompactOp;
use crate::execute::{wb_path_checked, Granted, StoreState};
use crate::fetch::FetchWord;
use crate::gates::SynthGate;
use crate::latch::PipelineLatch;
use crate::layout::V2CpuIndices;
use crate::levels::{law_packed_bits, packed};
use crate::memo::SettleMemo;
use crate::memory::DataMemory;
use crate::operand::{saved_trunk, uses_upper, with_trunk_b, Injected, Injection};
use crate::pc_stage::{pc_resolved, pc_rule, pc_written, PcRule};
use crate::scopes::EvalScopes;
use crate::settle::decode_memo_ready;
use crate::settle_commit::{clock_freed, high_reg_injected, CommitHolds};
use crate::simulation::{lists, Grid};
use crate::stage_f::{asks_control_block, fetch_selected};
use crate::stage_x::{alu_read, bank_noted, branch_checked, store_executed};
use crate::state::{ArchState, Authority, Checks, PcMode, PipelineState, SynthGates};
use crate::writeback::{
    alu_checked, changed_flags, flag_capture_trusted, flags_written, high_checks, low_capture_trusted,
    low_checks, tile_differs, with_flags, with_write_back,
};

verus! {

/// The tiles see an instruction in the lower half of the program, and in the upper half where the
/// spine delivers it. Their write enables are trusted there, those of registers in the lower bank
/// only.
pub proof fn law_when_enables_are_trusted(l: PipelineLatch, auth: Authority)
    ensures
        tiles_see_ir(l, auth) <==> (l.pc / 64) % 2 == 0 || auth.ir_spine,
        we_trusted(l, auth) <==> auth.we_mask && ((l.pc / 64) % 2 == 0 || auth.ir_spine)
            && l.ir_ext % 2 == 0,
        flag_we_trusted(l, auth) <==> auth.flag_we_mask && ((l.pc / 64) % 2 == 0 || auth.ir_spine),
{
}

/// A tile that is trusted and right is left alone; any other is put right and marked.
pub proof fn law_tiles_are_put_right(g: Grid, i: int, v: u64, trusted: bool)
    requires
        0 <= i < g.values.len(),
        g.dirty.len() == g.values.len(),
    ensures
        with_correction(g, i, v, trusted).values[i] == v,
        trusted && g.values[i] == v ==> with_correction(g, i, v, trusted) == g,
        !trusted || g.values[i] != v ==> with_correction(g, i, v, trusted).dirty[i],
{
}

/// A block's outputs are its levels read as bits: for control byte A, and for the register select
/// where the tiles are not trusted with it.
pub proof fn law_block_outputs_are_bits(
    idx: V2CpuIndices,
    tables: DecodeTables,
    auth: Authority,
    l: PipelineLatch,
    v: Seq<u64>,
    opcode: u8,
    g: Grid,
    k: u64,
)
    requires
        k < 8,
        v.len() == 8,
        idx.rd_onehot_decode_idx < g.values.len(),
    ensures
        !auth.decode && tables.combined is None && packed(v, 0, 8) <= 0xFF ==> ((acting_ctrl_a(
            tables,
            auth,
            Some(v),
            opcode,
        ) as u64 >> k) & 1 == 1 <==> v[k as int] != 0),
        auth.decode || tables.combined is Some ==> acting_ctrl_a(tables, auth, Some(v), opcode)
            == tables.ctrl_a_of(opcode),
        acting_ctrl_a(tables, auth, None, opcode) == tables.ctrl_a_of(opcode),
        !auth.rd_decode ==> ((rd_select(
            idx,
            l,
            auth,
            Some(v),
            g,
        ).values[idx.rd_onehot_decode_idx as int] >> k) & 1 == 1 <==> v[k as int] != 0),
{
    law_packed_bits(v, 0, 8, k);
}

/// Before the commit each gate in force counts one check. Control byte A counts a mismatch where the
/// tiles of the lower half, not trusted with decode, hold another byte.
pub proof fn law_gates_count_before_the_commit(
    idx: V2CpuIndices,
    auth: Authority,
    tables: DecodeTables,
    l: PipelineLatch,
    arch: ArchState,
    mem: DataMemory,
    rd: Option<Seq<u64>>,
    ram: Option<Seq<u64>>,
    block: Option<Seq<u64>>,
    g: Grid,
    gates: SynthGates,
    checks: Checks,
    h: Grid,
    gates1: SynthGates,
    checks1: Checks,
)
    requires
        pre_commit_done(
            idx,
            auth,
            tables,
            l,
            arch,
            mem,
            rd,
            ram,
            block,
            g,
            gates,
            checks,
            h,
            gates1,
            checks1,
        ),
        gates.rd_decode.checks < u64::MAX,
        gates.ram_decode.checks < u64::MAX,
        gates.ctrl_a.checks < u64::MAX,
        gates.ctrl_a.mismatches < u64::MAX,
    ensures
        gates.rd_decode.enabled ==> gates1.rd_decode.checks == gates.rd_decode.checks + 1,
        !gates.rd_decode.enabled ==> gates1.rd_decode == gates.rd_decode,
        gates1.rd_decode.mismatches == gates.rd_decode.mismatches,
        gates.ram_decode.enabled ==> gates1.ram_decode.checks == gates.ram_decode.checks + 1,
        !gates.ram_decode.enabled ==> gates1.ram_decode == gates.ram_decode,
        gates.ctrl_a.enabled ==> gates1.ctrl_a.checks == gates.ctrl_a.checks + 1,
        gates.ctrl_a.enabled && (l.pc / 64) % 2 == 0 && !auth.decode
            && h.values[idx.ctrl_a_mux_idx as int] % 256 != acting_ctrl_a(
            tables,
            auth,
            block,
            l.opcode,
        ) ==> gates1.ctrl_a.mismatches == gates.ctrl_a.mismatches + 1,
        !gates.ctrl_a.enabled || (l.pc / 64) % 2 == 1 || auth.decode
            || h.values[idx.ctrl_a_mux_idx as int] % 256 == acting_ctrl_a(
            tables,
            auth,
            block,
            l.opcode,
        ) ==> gates1.ctrl_a.mismatches == gates.ctrl_a.mismatches,
        gates1.alu == gates.alu && gates1.branch == gates.branch,
{
}

/// After the clock a select that is in force counts a mismatch where its tile does not hold the one
/// bit of the destination, or of a store's row.
pub proof fn law_selects_are_compared_after_the_clock(
    idx: V2CpuIndices,
    l: PipelineLatch,
    arch: ArchState,
    mem: DataMemory,
    g: Grid,
    gates: SynthGates,
)
    requires
        gates.rd_decode.mismatches < u64::MAX,
        gates.ram_decode.mismatches < u64::MAX,
    ensures
        ({
            let p = post_commit_gates(idx, l, arch, mem, g, gates);
            &&& gates.rd_decode.enabled && g.values[idx.rd_onehot_decode_idx as int] != 1u64 << ((
            l.rd % 8) as u64) ==> p.rd_decode.mismatches == gates.rd_decode.mismatches + 1
            &&& !gates.rd_decode.enabled || g.values[idx.rd_onehot_decode_idx as int] == 1u64 << ((
            l.rd % 8) as u64) ==> p.rd_decode.mismatches == gates.rd_decode.mismatches
            &&& gates.ram_decode.enabled && l.opcode != 0x17 && l.opcode != 0x19
                && g.values[idx.ram_write_decode_idx as int] != 0 ==> p.ram_decode.mismatches
                == gates.ram_decode.mismatches + 1
            &&& l.opcode != 0x17 && l.opcode != 0x19 && g.values[idx.ram_write_decode_idx as int]
                == 0 ==> p.ram_decode.mismatches == gates.ram_decode.mismatches
            &&& !gates.ram_decode.enabled ==> p.ram_decode == gates.ram_decode
            &&& p.rd_decode.checks == gates.rd_decode.checks && p.ram_decode.checks
                == gates.ram_decode.checks
        }),
{
}

/// A multiplication that the tiles deliver with its flag enables the zero flag alone.
pub proof fn law_flag_enables_of_a_multiplication(l: PipelineLatch, auth: Authority, ctrl_a: u8)
    ensures
        l.opcode == 0x04 && l.ir_low % 32 == 1 && auth.sub_fn_flag ==> flag_we_injected(
            l,
            auth,
            ctrl_a,
        ) == (ctrl_a as int / 16) % 2,
        !(l.opcode == 0x04 && l.ir_low % 32 == 1 && auth.sub_fn_flag) ==> flag_we_injected(
            l,
            auth,
            ctrl_a,
        ) == (ctrl_a as int / 16) % 4,
{
    let x = ctrl_a as int;
    assert(((x / 16) % 4) % 2 == (x / 16) % 2);
}

/// Writing back puts the lower bank into its tiles; the destination in the upper bank goes into its
/// own where it changed or its capture is trusted.
pub proof fn law_what_is_written_back(
    idx: V2CpuIndices,
    before: Seq<u64>,
    after: Seq<u64>,
    l: PipelineLatch,
    high: bool,
    g: Grid,
    rd: int,
)
    requires
        rd == l.rd % 8 + 8 * (l.ir_ext % 2),
        forall|i: int| 0 <= i < 16 ==> #[trigger] idx.reg_indices@[i] < g.values.len(),
        forall|i: int, j: int|
            0 <= i < j < 16 ==> #[trigger] idx.reg_indices@[i] != #[trigger] idx.reg_indices@[j],
        l.rd < 8,
    ensures
        rd >= 8 && (high || after[rd] != before[rd]) ==> with_write_back(
            idx,
            before,
            after,
            l,
            high,
            g,
        ).values[idx.reg_indices@[rd] as int] == after[rd],
        rd >= 8 && !high && after[rd] == before[rd] ==> with_write_back(
            idx,
            before,
            after,
            l,
            high,
            g,
        ) == with_write_back(
            idx,
            before,
            after,
            (PipelineLatch { ir_ext: 0, ..l }),
            false,
            g,
        ),
        rd < 8 ==> with_write_back(idx, before, after, l, high, g).values[idx.reg_indices@[rd] as int]
            == after[rd],
{
    crate::trace_laws::law_registers_move_into_their_tiles(idx, after, 8, g, l.rd as int);
    assert(idx.reg_indices@[rd] < g.values.len());
}

/// When the capture of a register in the lower bank is trusted, when that of the flags is, and when
/// a register of the upper bank is injected.
pub proof fn law_when_captures_are_trusted(
    l: PipelineLatch,
    auth: Authority,
    t: Granted,
    o: AluOutcome,
)
    ensures
        low_capture_trusted(l, auth, t) <==> auth.reg_writeback && (t.alu || t.wb_path || ((t.sub_fn
            || t.load) && l.ir_ext % 2 == 0)),
        flag_capture_trusted(auth, t) <==> auth.flag_writeback && (t.alu || t.wb_path
            || t.high_reg_wb || t.compare_flag || t.sub_fn_flag || t.load),
        high_reg_injected(l, auth, o) <==> auth.high_reg_writeback && l.ir_ext % 2 == 1
            && o.writes_reg,
{
}

/// Each comparison of a captured register counts one check, and one mismatch where the tile held
/// something else, to everything that was trusted for it.
pub proof fn law_captures_are_counted(
    idx: V2CpuIndices,
    after: Seq<u64>,
    l: PipelineLatch,
    auth: Authority,
    t: Granted,
    g: Grid,
    c: Checks,
    high: bool,
    differs: bool,
)
    requires
        differs == tile_differs(idx, after, (l.rd % 8) as int, g),
        c.reg_wb.checks < u64::MAX && c.reg_wb.mismatches < u64::MAX,
        c.load_delivery.checks < u64::MAX && c.load_delivery.mismatches < u64::MAX,
        c.sub_fn_delivery.checks < u64::MAX && c.sub_fn_delivery.mismatches < u64::MAX,
        c.high_reg_wb.checks < u64::MAX && c.high_reg_wb.mismatches < u64::MAX,
    ensures
        ({
            let d = low_checks(idx, after, l, auth, t, false, g, c);
            let trusted = auth.reg_writeback && (t.alu || t.wb_path || ((t.sub_fn || t.load)
                && l.ir_ext % 2 == 0));
            &&& trusted ==> d.reg_wb.checks == c.reg_wb.checks + 1
            &&& trusted && differs ==> d.reg_wb.mismatches == c.reg_wb.mismatches + 1
            &&& trusted && !differs ==> d.reg_wb.mismatches == c.reg_wb.mismatches
            &&& !trusted ==> d.reg_wb == c.reg_wb
            &&& trusted && t.load && l.ir_ext % 2 == 0 ==> d.load_delivery.checks
                == c.load_delivery.checks + 1
            &&& !t.load || l.ir_ext % 2 == 1 ==> d.load_delivery == c.load_delivery
            &&& !t.sub_fn || l.ir_ext % 2 == 1 ==> d.sub_fn_delivery == c.sub_fn_delivery
            &&& d.reg_capture == c.reg_capture
        }),
        ({
            let d = high_checks(l, t, high, differs, c);
            &&& high ==> d.high_reg_wb.checks == c.high_reg_wb.checks + 1
            &&& high && differs ==> d.high_reg_wb.mismatches == c.high_reg_wb.mismatches + 1
            &&& high && !differs ==> d.high_reg_wb.mismatches == c.high_reg_wb.mismatches
            &&& !high ==> d.high_reg_wb == c.high_reg_wb
            &&& high && t.load && l.ir_ext % 2 == 1 ==> d.load_delivery.checks
                == c.load_delivery.checks + 1
            &&& !high || !t.load || l.ir_ext % 2 == 0 ==> d.load_delivery == c.load_delivery
            &&& high && t.sub_fn && l.ir_ext % 2 == 1 ==> d.sub_fn_delivery.checks
                == c.sub_fn_delivery.checks + 1
            &&& !high || !t.sub_fn || l.ir_ext % 2 == 0 ==> d.sub_fn_delivery == c.sub_fn_delivery
        }),
{
}

/// A register is noted as changed where its value changed; one of the lower bank also where its tile
/// held something else.
pub proof fn law_which_registers_are_noted(
    idx: V2CpuIndices,
    before: Seq<u64>,
    after: Seq<u64>,
    l: PipelineLatch,
    g: Grid,
    i: int,
)
    requires
        0 <= i < 16,
    ensures
        after[i] != before[i] ==> changed_flags(idx, before, after, l, false, g)[i],
        i >= 8 && after[i] == before[i] ==> !changed_flags(idx, before, after, l, false, g)[i],
        i < 8 && after[i] == before[i] ==> (changed_flags(idx, before, after, l, false, g)[i]
            <==> tile_differs(idx, after, i, g)),
{
}

/// The tile ALU is compared where it gave a result for an instruction that writes a register, does
/// arithmetic, logic or shifts, and is no sub-function. A difference is counted once for all
/// comparisons and once for the opcode.
pub proof fn law_the_tile_alu_is_compared(
    idx: V2CpuIndices,
    ctrl_a: Seq<u8>,
    l: PipelineLatch,
    phys: Option<u64>,
    o: AluOutcome,
    g: Grid,
    gate: SynthGate,
    checks: Checks,
    gate1: SynthGate,
    checks1: Checks,
    sub: bool,
    other: int,
)
    requires
        alu_checked(idx, ctrl_a, l, phys, o, g, gate, checks, gate1, checks1),
        sub == ((l.opcode == 0x04 && l.ir_low % 32 == 1) || (l.opcode == 0x09 && l.ir_low % 32 != 0)
            || (l.opcode == 0x0E && (l.ir_low / 8) % 2 == 1)),
        gate.checks < u64::MAX,
        gate.mismatches < u64::MAX,
        l.opcode < 32,
        checks.alu_opcode_mismatches@[l.opcode as int] < u64::MAX,
        0 <= other < 32,
        other != l.opcode,
    ensures
        ({
            let compared = phys is Some && o.writes_reg && 0x04 <= l.opcode <= 0x14 && !sub;
            &&& compared ==> gate1.checks == gate.checks + 1
            &&& !compared ==> gate1 == gate
            &&& compared && phys->0 != o.result ==> gate1.mismatches == gate.mismatches + 1
                && checks1.alu_opcode_mismatches@[l.opcode as int]
                == checks.alu_opcode_mismatches@[l.opcode as int] + 1
            &&& !compared || phys->0 == o.result ==> gate1.mismatches == gate.mismatches
                && checks1.alu_opcode_mismatches@ == checks.alu_opcode_mismatches@
        }),
        checks1.alu_opcode_mismatches@[other] == checks.alu_opcode_mismatches@[other],
{
}

/// The flags' tiles hold the flags after an instruction that writes them, and stay as they are
/// after any other. Trusted flags are compared; a difference is counted to the flag that has it.
pub proof fn law_flags_are_written(
    idx: V2CpuIndices,
    opcode: u8,
    auth: Authority,
    t: Granted,
    o: AluOutcome,
    g: Grid,
    checks: Checks,
    h: Grid,
    checks1: Checks,
)
    requires
        flags_written(idx, opcode, auth, t, o, g, checks, h, checks1),
        idx.flag_z_idx < g.values.len(),
        idx.flag_c_idx < g.values.len(),
        idx.flag_z_idx != idx.flag_c_idx,
        checks.flag_z_mismatches < u64::MAX,
        checks.flag_c_mismatches < u64::MAX,
    ensures
        0x03 <= opcode <= 0x14 || opcode == 0x16 || opcode == 0x18 ==> (
        h.values[idx.flag_z_idx as int] != 0) == o.flag_z && (h.values[idx.flag_c_idx as int] != 0)
            == o.flag_c,
        !(0x03 <= opcode <= 0x14 || opcode == 0x16 || opcode == 0x18) ==> h == g && checks1
            == checks,
        !auth.flag_writeback ==> checks1 == checks,
        (0x03 <= opcode <= 0x14 || opcode == 0x16 || opcode == 0x18) && auth.flag_writeback && t.alu
            && (g.values[idx.flag_z_idx as int] != 0) != o.flag_z ==> checks1.flag_z_mismatches
            == checks.flag_z_mismatches + 1,
        (g.values[idx.flag_z_idx as int] != 0) == o.flag_z ==> checks1.flag_z_mismatches
            == checks.flag_z_mismatches,
        (0x03 <= opcode <= 0x14 || opcode == 0x16 || opcode == 0x18) && auth.flag_writeback && t.alu
            && (g.values[idx.flag_c_idx as int] != 0) != o.flag_c ==> checks1.flag_c_mismatches
            == checks.flag_c_mismatches + 1,
        (g.values[idx.flag_c_idx as int] != 0) == o.flag_c ==> checks1.flag_c_mismatches
            == checks.flag_c_mismatches,
{
}

/// A flag's tile is all ones for a set flag and zero for a clear one.
pub proof fn law_levels_of_the_flags(idx: V2CpuIndices, z: bool, c: bool, g: Grid)
    requires
        idx.flag_z_idx < g.values.len(),
        idx.flag_c_idx < g.values.len(),
        idx.flag_z_idx != idx.flag_c_idx,
    ensures
        z ==> with_flags(idx, z, c, g).values[idx.flag_z_idx as int] == 0xFFFF_FFFF_FFFF_FFFF,
        !z ==> with_flags(idx, z, c, g).values[idx.flag_z_idx as int] == 0,
        c ==> with_flags(idx, z, c, g).values[idx.flag_c_idx as int] == 0xFFFF_FFFF_FFFF_FFFF,
        !c ==> with_flags(idx, z, c, g).values[idx.flag_c_idx as int] == 0,
{
}

/// With a narrow program counter the tiles decide in the lower half; in the upper half the next
/// address is the target's low seven bits, or the one behind, round the program's end. With an
/// extended one it is the register's or the immediate's, or the one behind, within the address
/// space; a return goes to the link register.
pub proof fn law_where_the_pipeline_goes(
    l: PipelineLatch,
    arch: ArchState,
    mode: PcMode,
    auth: Authority,
    z: bool,
    c: bool,
    rd: int,
)
    requires
        rd == l.rd % 8 + 8 * (l.ir_ext % 2),
    ensures
        !mode.extended_pc && (l.pc / 64) % 2 == 0 ==> pc_rule(l, arch, mode, auth, z, c) is Keep,
        !mode.extended_pc && (l.pc / 64) % 2 == 1 ==> {
            let r = pc_rule(l, arch, mode, auth, z, c);
            let v = match r {
                PcRule::Write(v) => v as int,
                PcRule::Check(v) => v as int,
                PcRule::Keep => -1int,
            };
            &&& r is Check <==> auth.decode
            &&& r is Write <==> !auth.decode
            &&& l.ctrl_b % 8 == 0 && (l.pc & mode.pc_phys_mask) < 0xFFFF_FFFF ==> v == ((l.pc
                & mode.pc_phys_mask) + 1) % 128
            &&& l.ctrl_b % 8 == 1 || l.ctrl_b % 8 == 6 ==> v == l.ir_low % 128
            &&& l.ctrl_b % 8 == 7 ==> v == arch.lr % 128
            &&& l.ctrl_b % 8 == 2 && z ==> v == l.ir_low % 128
            &&& l.ctrl_b % 8 == 4 && c ==> v == l.ir_low % 128
            &&& l.ctrl_b % 8 == 3 && !z ==> v == l.ir_low % 128
            &&& l.ctrl_b % 8 == 5 && !c ==> v == l.ir_low % 128
        },
        mode.extended_pc ==> {
            let r = pc_rule(l, arch, mode, auth, z, c);
            let m = mode.pc_phys_mask;
            let v = match r {
                PcRule::Write(v) => v,
                PcRule::Check(v) => v,
                PcRule::Keep => 0,
            };
            &&& r is Check <==> mode.wide_pc && l.ctrl_b % 8 == 0 && (l.ir_ext / 16) % 2 == 0
            &&& !(r is Keep)
            &&& (l.ir_ext / 16) % 2 == 1 && (l.ctrl_b % 8 == 1 || l.ctrl_b % 8 == 6) ==> v == ((
            arch.regs@[rd] % 0x1_0000_0000) as u32) & m
            &&& l.ctrl_b % 8 == 7 ==> v == arch.lr & m
            &&& l.ctrl_b % 8 == 0 ==> v == (l.pc & m).wrapping_add(1) & m
            &&& (l.ir_ext / 16) % 2 == 0 && (l.ir_ext / 4) % 2 == 0 && (l.ctrl_b % 8 == 1 || l.ctrl_b
                % 8 == 6) ==> v == (l.ir_low as u32) & m
            &&& (l.ir_ext / 16) % 2 == 0 && (l.ir_ext / 4) % 2 == 1 && (l.ctrl_b % 8 == 1 || l.ctrl_b
                % 8 == 6) ==> v == ((256 * (l.ir_ext / 256) + l.ir_low) as u32) & m
            &&& l.ctrl_b % 8 == 2 && !z ==> v == (l.pc & m).wrapping_add(1) & m
            &&& l.ctrl_b % 8 == 4 && !c ==> v == (l.pc & m).wrapping_add(1) & m
        },
{
}

/// A value that software settles is written; a trusted one only where the tiles differ from it, and
/// that is counted. Where the tiles decide nothing is written.
pub proof fn law_when_the_program_counter_is_written(v: u32, pc: u32)
    ensures
        pc_written(PcRule::Write(v), pc) == Some(v),
        pc_written(PcRule::Keep, pc) is None,
        pc == v ==> pc_written(PcRule::Check(v), pc) is None,
        pc != v ==> pc_written(PcRule::Check(v), pc) == Some(v),
{
}

/// A trusted program counter is compared: a difference is counted, and with a narrow program counter
/// counted to the branch kind as well.
pub proof fn law_program_counters_are_compared(
    idx: V2CpuIndices,
    mode: PcMode,
    l: PipelineLatch,
    auth: Authority,
    z: bool,
    c: bool,
    arch: ArchState,
    g: Grid,
    checks: Checks,
    arch1: ArchState,
    h: Grid,
    checks1: Checks,
    v: u32,
    pc: u32,
    kind: int,
)
    requires
        pc_resolved(idx, mode, l, auth, z, c, arch, g, checks, arch1, h, checks1),
        pc_rule(l, arch, mode, auth, z, c) == PcRule::Check(v),
        pc == crate::pc_stage::tile_pc(idx, mode, g),
        kind == l.ctrl_b % 8,
        checks.pc_override.checks < u64::MAX,
        checks.pc_override.mismatches < u64::MAX,
        checks.pc_mismatch_per_kind@[kind] < u64::MAX,
    ensures
        checks1.pc_override.checks == checks.pc_override.checks + 1,
        pc != v ==> checks1.pc_override.mismatches == checks.pc_override.mismatches + 1,
        pc == v ==> checks1.pc_override.mismatches == checks.pc_override.mismatches && h == g,
        pc != v && !mode.extended_pc ==> checks1.pc_mismatch_per_kind@[kind]
            == checks.pc_mismatch_per_kind@[kind] + 1,
        pc == v || mode.extended_pc ==> checks1.pc_mismatch_per_kind@
            == checks.pc_mismatch_per_kind@,
        pc == v ==> arch1.pc == pc,
        pc != v ==> arch1.pc == v & mode.pc_phys_mask,
{
}

/// The second trunk is given a register of the upper bank where the instruction uses its second
/// register. What the trunks held is kept where anything is injected for such a register.
pub proof fn law_trunks_are_given_upper_registers(
    idx: V2CpuIndices,
    l: PipelineLatch,
    k: Injection,
    g: Grid,
)
    requires
        idx.alu_b_trunk_terminal_idx < g.values.len(),
    ensures
        (l.ir_ext / 2) % 2 == 0 ==> with_trunk_b(idx, l, g) == g,
        (l.ir_ext / 2) % 2 == 1 && 0x04 <= l.opcode <= 0x08 ==> with_trunk_b(
            idx,
            l,
            g,
        ).values[idx.alu_b_trunk_terminal_idx as int] == l.phys_top_b,
        0x10 <= l.opcode <= 0x14 ==> with_trunk_b(idx, l, g) == g,
        uses_upper(l) <==> l.ir_ext % 2 == 1 || (l.ir_ext / 2) % 2 == 1,
        saved_trunk(idx, l, k, g) is Some <==> k != Injection::Nothing && (l.ir_ext % 2 == 1 || (
        l.ir_ext / 2) % 2 == 1),
{
}

/// A store to the scratchpad counts down from two to the write-back of its bank and notes its
/// address; the tiles of the first bank are held for it where they are trusted to store.
pub proof fn law_stores_are_noted(
    a: TileCpuV2,
    g: Grid,
    b: TileCpuV2,
    h: Grid,
    l: PipelineLatch,
    addr: int,
)
    requires
        store_executed(a, g, b, h, l, false),
        addr == crate::execute::access_addr(l, a.arch, a.mem),
        0 <= addr,
    ensures
        addr < 128 ==> b.pipe.ram_writeback_countdown == 2 && b.store.store_addr == addr,
        addr >= 128 ==> b.pipe.ram_writeback_countdown == a.pipe.ram_writeback_countdown && b.store
            == a.store,
        a.auth.ram_store && addr < 8 ==> b.store.saved_via is Some,
        !a.auth.ram_store && addr < 128 ==> b.store.saved_via == a.store.saved_via
            && b.store.inject_up_idx == a.store.inject_up_idx,
        8 <= addr < 128 ==> b.store.saved_via == a.store.saved_via && b.store.inject_up_idx
            == a.store.inject_up_idx,
        b.arch == a.arch,
{
}

/// The tile ALU's result is there where its gate is in force. An arithmetic shift that the tiles
/// are trusted with is compared with the shifted operand.
pub proof fn law_the_tile_alu_is_read(
    a: TileCpuV2,
    g: Grid,
    b: TileCpuV2,
    h: Grid,
    l: PipelineLatch,
    inj: Injected,
    sign: Option<Seq<u64>>,
    phys: Option<u64>,
)
    requires
        alu_read(a, g, b, h, l, inj, sign, phys),
        a.checks.sra.checks < u64::MAX,
        a.checks.sra.mismatches < u64::MAX,
    ensures
        phys is Some <==> a.gates.alu.enabled,
        a.gates.alu.enabled && sign is Some && a.auth.sra && l.opcode == 0x0E && (l.ir_low / 8) % 2
            == 1 ==> b.checks.sra.checks == a.checks.sra.checks + 1,
        !(a.gates.alu.enabled && sign is Some && a.auth.sra && l.opcode == 0x0E && (l.ir_low / 8)
            % 2 == 1) ==> b.checks.sra == a.checks.sra,
        b.arch == a.arch && b.mem == a.mem,
        inj.trunk is None ==> h == g,
{
}

/// What the first bank's tiles hold is noted for a store where they are trusted with memory.
pub proof fn law_the_first_bank_is_noted(
    c: TileCpuV2,
    g: Grid,
    opcode: u8,
    before: Seq<u64>,
    after: Seq<u64>,
    i: int,
)
    requires
        bank_noted(c, g, opcode, before, after),
        0 <= i < 8,
    ensures
        c.auth.ram_writeback && (opcode == 0x17 || opcode == 0x19) ==> after.len() == 8 && after[i]
            == g.values[c.idx.ram_indices@[i] as int],
        !c.auth.ram_writeback || (opcode != 0x17 && opcode != 0x19) ==> after == before,
{
}

/// A branch whose direction the tiles are trusted with is compared with the table's. An instruction
/// that halts halts the machine, and a call links the address behind it.
pub proof fn law_branches_are_compared(
    a: TileCpuV2,
    g: Grid,
    b: TileCpuV2,
    h: Grid,
    l: PipelineLatch,
    sel: int,
)
    requires
        branch_checked(a, g, b, h, l),
        sel == l.ctrl_b % 8 + (if a.arch.flag_z {
            8int
        } else {
            0int
        }) + (if a.arch.flag_c {
            16int
        } else {
            0int
        }),
        a.checks.branch_dir.checks < u64::MAX,
        a.checks.branch_dir.mismatches < u64::MAX,
    ensures
        a.auth.branch && (l.ctrl_b % 8 != 0 || (l.ctrl_b / 32) % 2 == 1) ==> {
            let differs = (g.values[a.idx.branch_taken_core_idx as int] != 0)
                != a.tables.branch@[sel];
            &&& b.checks.branch_dir.checks == a.checks.branch_dir.checks + 1
            &&& differs ==> b.checks.branch_dir.mismatches == a.checks.branch_dir.mismatches + 1
            &&& !differs ==> b.checks.branch_dir.mismatches == a.checks.branch_dir.mismatches
        },
        !a.auth.branch || (l.ctrl_b % 8 == 0 && (l.ctrl_b / 32) % 2 == 0) ==> b.checks == a.checks,
        b.arch.halted <==> a.arch.halted || (l.ctrl_b / 32) % 2 == 1,
        (l.ctrl_b / 32) % 2 == 0 && l.ctrl_b % 8 == 6 ==> b.arch.lr == (l.pc
            & a.mode.pc_phys_mask).wrapping_add(1) & a.mode.pc_phys_mask,
        (l.ctrl_b / 32) % 2 == 1 || l.ctrl_b % 8 != 6 ==> b.arch.lr == a.arch.lr,
        b.arch.regs == a.arch.regs && b.arch.pc == a.arch.pc,
{
}

/// A branch block decides where there is one, else the table.
pub proof fn law_who_decides_a_branch(kind: int, z: bool, c: bool, v: u64, table: Seq<bool>)
    requires
        0 <= kind < 8,
    ensures
        v == 0 ==> !synth_taken(kind, z, c, Some(v), table),
        v != 0 ==> synth_taken(kind, z, c, Some(v), table),
        synth_taken(kind, z, c, None, table) == table[kind + (if z {
            8int
        } else {
            0int
        }) + (if c {
            16int
        } else {
            0int
        })],
{
}

/// The control block is asked for where its gate is in force, the tiles are not trusted to decode
/// and no combined block decodes. An operand gate counts what it compares.
pub proof fn law_what_the_fetch_gates_count(c: TileCpuV2, g: SynthGate, compared: bool, differs: bool)
    requires
        g.checks < u64::MAX,
        g.mismatches < u64::MAX,
    ensures
        asks_control_block(c) <==> c.gates.ctrl_b.enabled && !c.auth.decode && c.tables.combined
            is None,
        compared ==> operand_gate(g, compared, differs).checks == g.checks + 1,
        compared && differs ==> operand_gate(g, compared, differs).mismatches == g.mismatches + 1,
        compared && !differs ==> operand_gate(g, compared, differs).mismatches == g.mismatches,
        !compared ==> operand_gate(g, compared, differs) == g,
{
}

/// After the fetch the high trees are fed nothing: their leaves and top selectors are zero, and
/// their selectors too unless the tiles drive them.
pub proof fn law_the_high_trees_are_cleared(idx: V2CpuIndices, auth: Authority, g: Grid, t: int)
    requires
        0 <= t < g.values.len(),
        idx.top_mux_a_sel_const_idx < g.values.len(),
        idx.top_mux_b_sel_const_idx < g.values.len(),
    ensures
        lists(idx.high_tree_a_data_const_indices@, t) || lists(
            idx.high_tree_b_data_const_indices@,
            t,
        ) || t == idx.top_mux_a_sel_const_idx || t == idx.top_mux_b_sel_const_idx
            ==> with_trees_cleared(idx, auth, g).values[t] == 0,
        !auth.via_decode && (lists(idx.high_tree_a_sel_const_indices@, t) || lists(
            idx.high_tree_b_sel_const_indices@,
            t,
        )) ==> with_trees_cleared(idx, auth, g).values[t] == 0,
        with_trees_cleared(idx, auth, g).values[t] == 0 || with_trees_cleared(
            idx,
            auth,
            g,
        ).values[t] == g.values[t],
        with_trees_cleared(idx, auth, g).dirty == g.dirty,
{
}

/// The second tree's raw selectors are the three bits of the second register.
pub proof fn law_raw_selectors(w: FetchWord, i: int)
    requires
        0 <= i < 7,
    ensures
        raw_selectors_b(w).len() == 7,
        i < 4 ==> (raw_selectors_b(w)[i] != 0 <==> w.rs_lo % 2 == 1),
        4 <= i < 6 ==> (raw_selectors_b(w)[i] != 0 <==> (w.rs_lo / 2) % 2 == 1),
        i == 6 ==> (raw_selectors_b(w)[i] != 0 <==> (w.rs_lo / 4) % 2 == 1),
{
}

/// The third byte that the tiles select is compared, where they are trusted with it, by the two bits
/// that name the banks of the registers.
pub proof fn law_the_third_byte_is_compared(
    a: TileCpuV2,
    g: Grid,
    b: TileCpuV2,
    h: Grid,
    w: FetchWord,
    byte: u64,
)
    requires
        fetch_selected(a, g, b, h, w),
        byte == crate::decode::with_lanes(a.idx, w, 4, g).values[a.idx.rom_selected_indices@[2] as int],
        a.checks.byte2_selector.checks < u64::MAX,
        a.checks.byte2_selector.mismatches < u64::MAX,
    ensures
        !a.auth.byte2_selector ==> b.checks.byte2_selector == a.checks.byte2_selector,
        a.auth.byte2_selector ==> b.checks.byte2_selector.checks == a.checks.byte2_selector.checks
            + 1,
        a.auth.byte2_selector && byte % 2 == (w.ir_ext % 2) as int && (byte / 2) % 2 == ((w.ir_ext
            / 2) % 2) as int ==> b.checks.byte2_selector.mismatches
            == a.checks.byte2_selector.mismatches,
        a.auth.byte2_selector && (byte % 2 != (w.ir_ext % 2) as int || (byte / 2) % 2 != ((w.ir_ext
            / 2) % 2) as int) ==> b.checks.byte2_selector.mismatches
            == a.checks.byte2_selector.mismatches + 1,
        b.arch == a.arch,
{
}

/// An operation touches the tiles it is wired to, and an irregular one its neighbours too.
pub proof fn law_touched_tiles(
    op: CompactOp,
    ops: Seq<CompactOp>,
    nb: Seq<[u32; 4]>,
    t: u32,
    i: int,
)
    requires
        0 <= i < ops.len(),
    ensures
        t != 0xFFFF_FFFF && (op.in0 == t || op.in1 == t || op.in2 == t) ==> touches(op, nb, t),
        t == 0xFFFF_FFFF ==> !touches(op, nb, t),
        t != 0xFFFF_FFFF && (op.op == crate::cop::COP_WIRE || op.op == crate::cop::COP_GENERIC)
            && nb[op.idx as int]@.contains(t) ==> touches(op, nb, t),
        op.op != crate::cop::COP_WIRE && op.op != crate::cop::COP_GENERIC && op.in0 != t && op.in1
            != t && op.in2 != t ==> !touches(op, nb, t),
        touches(ops[i], nb, t) ==> list_touches(ops, nb, t),
        ops[i].idx == t && ops[i].op == crate::cop::COP_CONST ==> const_on(ops, t),
        const_on(ops, t) ==> exists|k: int|
            0 <= k < ops.len() && (#[trigger] ops[k]).idx == t && ops[k].op
                == crate::cop::COP_CONST,
{
}

/// The write-back path is compared for a move or a constant in the lower bank that the tile ALU did
/// not decide.
pub proof fn law_when_the_write_back_path_is_compared(
    l: PipelineLatch,
    auth: Authority,
    phys: Option<u64>,
    o: AluOutcome,
)
    ensures
        wb_path_checked(l, auth, phys, o) ==> auth.wb_data && o.writes_reg && phys is Some && (
        l.opcode == 0x02 || l.opcode == 0x03) && l.ir_ext % 4 == 0,
        auth.wb_data && o.writes_reg && phys is Some && (l.opcode == 0x02 || l.opcode == 0x03)
            && l.ir_ext % 4 == 0 && !auth.covers(l.opcode) ==> wb_path_checked(l, auth, phys, o),
{
    assert(l.ir_ext % 4 == 0 <==> l.ir_ext % 2 == 0 && (l.ir_ext / 2) % 2 == 0);
}

/// The decode memo can be asked where it is enabled and has inputs, decode leaves something to
/// execute, and nothing holds compact evaluation off.
pub proof fn law_when_the_decode_memo_is_ready(
    m: SettleMemo,
    s: EvalScopes,
    inhibited: bool,
    stale: bool,
)
    ensures
        decode_memo_ready(m, s, inhibited, stale) <==> m.enabled && m.input_indices@.len() > 0
            && s.execute.ops@.len() > 0 && !inhibited && !stale,
{
}

/// A halted machine that is asked to tick retires nothing and counts nothing.
pub proof fn law_halted_ticks(p: PipelineState)
    ensures
        !asked_to_tick(true, p).last_stage_x_valid,
        asked_to_tick(true, p).cycle_count == p.cycle_count,
        asked_to_tick(true, p).retired_count == p.retired_count,
        asked_to_tick(true, p).latch == p.latch,
        p.cycle_count < u64::MAX ==> asked_to_tick(false, p).cycle_count == p.cycle_count + 1,
        p.latch.valid && p.retired_count < u64::MAX ==> asked_to_tick(false, p).retired_count
            == p.retired_count + 1,
        !p.latch.valid ==> asked_to_tick(false, p).retired_count == p.retired_count,
        asked_to_tick(false, p).last_stage_x_valid == p.latch.valid,
{
}

/// At the clock edge the upper register's data and enable are cleared, and so is the tile that fed
/// a held store.
pub proof fn law_the_clock_clears_what_was_held(
    idx: V2CpuIndices,
    h: CommitHolds,
    st: StoreState,
    inj: Injected,
    slot: int,
    g: Grid,
)
    requires
        0 <= slot < 8,
        idx.high_reg_wb_data_const_indices@[slot] < g.values.len(),
        idx.high_reg_we_const_indices@[slot] < g.values.len(),
        st.inject_up_idx < g.values.len(),
    ensures
        clock_freed(idx, h, st, inj, Some(slot), g).values[idx.high_reg_wb_data_const_indices@[slot] as int]
            == 0,
        clock_freed(idx, h, st, inj, Some(slot), g).values[idx.high_reg_we_const_indices@[slot] as int]
            == 0,
        st.inject_up_idx != 0 ==> clock_freed(
            idx,
            h,
            st,
            inj,
            None,
            g,
        ).values[st.inject_up_idx as int] == 0,
        st.inject_up_idx == 0 ==> clock_freed(idx, h, st, inj, None, g).values == g.values,
{
}

} // verus!
