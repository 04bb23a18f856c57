//! What the mathematical models of the machines show of the machines, and where a whole state goes
//! when it moves into the tiles.
use vstd::prelude::*;

use crate::bit_scan::{bit_scan_steps, BitScan};
use crate::bitop::views;
use crate::cpu::TileCpuV2;
use crate::fabric::{CpuSnapshot, V2FastFabric};
use crate::fast::{with_ram, with_state, FastModel, V2FastCpu};
use crate::isa::reserved_bits;
use crate::iss::{
    quiet_ports, reset_model, same_state, IssModel, MmioPorts, PortModel, V2Iss, V2IssState,
};
use crate::latch::PipelineLatch;
use crate::layout::V2CpuIndices;
use crate::memory::DataMemory;
use crate::simulation::{Grid, Simulation};
use crate::state::ArchState;
use crate::trace_laws::{law_registers_move_into_their_tiles, law_words_move_into_their_tiles};
use crate::writeback::with_regs;

verus! {

/// A machine's model shows its program counter, link register, flags, halt, registers and memory,
/// and the mailboxes where it has them.
pub proof fn law_models_show_the_machine(m: V2Iss, p: MmioPorts)
    ensures
        m@.pc == m.state.pc && m@.lr == m.state.lr,
        m@.flag_z == m.state.flag_z && m@.flag_c == m.state.flag_c && m@.halted == m.state.halted,
        m@.regs == m.state.regs@ && m@.ram == m.state.mem.ram@ && m@.main_mem
            == m.state.mem.main_mem@ && m@.mem_addr_mask == m.state.mem.mem_addr_mask,
        m.ports is None ==> m@.ports is None,
        m.ports == Some(p) ==> m@.ports is Some,
        m.ports == Some(p) ==> m@.ports->0.in_send == p.in_send && m@.ports->0.in_recv == p.in_recv,
        m.ports == Some(p) ==> m@.ports->0.out_send == p.out_send && m@.ports->0.out_recv
            == p.out_recv,
        m.ports == Some(p) ==> m@.ports->0.input == p.input@ && m@.ports->0.output == p.output@,
{
}

/// A fast CPU's model shows its machine, its program and its counts; a fabric's the model of each
/// CPU in its place; a snapshot the CPU that it was taken of.
pub proof fn law_models_show_the_cpus(
    c: V2FastCpu,
    f: V2FastFabric,
    s: CpuSnapshot,
    m: FastModel,
    i: int,
)
    requires
        0 <= i < f.cpus@.len(),
        s.shows(m),
    ensures
        c@.iss == c.iss@ && c@.program == c.iss.program@ && c@.mask == c.iss.pc_mask,
        c@.cycles == c.cycle_count && c@.retired == c.retired_count,
        c@.valid == c.last_stage_x_valid && c@.filled == c.pipeline_filled && c@.halted == c.halted,
        f@.len() == f.cpus@.len(),
        f@[i] == f.cpus@[i]@,
        s.pc == m.iss.pc && s.lr == m.iss.lr,
        s.flag_z == m.iss.flag_z && s.flag_c == m.iss.flag_c && s.halted == m.halted,
        s.cycle_count == m.cycles && s.retired_count == m.retired,
        s.regs@ == m.iss.regs && s.ram@ == m.iss.ram,
{
}

/// A grid's model shows its tiles' values, kinds and marks.
pub proof fn law_models_show_the_tiles(s: Simulation)
    ensures
        s@.values == s.values@,
        s@.kinds == s.kinds@,
        s@.dirty == s.dirty@,
        s@.width == s.width && s@.height == s.height,
{
}

/// A machine starts at address zero, running, with clear flags, registers, scratchpad and link
/// register, no main memory, and quiet mailboxes where it has them. Its latch is empty.
pub proof fn law_machines_start_from_nothing(
    p: Option<PortModel>,
    l: PipelineLatch,
    s: V2IssState,
    r: int,
    a: int,
    i: int,
)
    requires
        0 <= r < 16,
        0 <= a < 128,
        0 <= i < 23,
        l.is_empty_latch(),
        s.math_is_clear(),
    ensures
        ({
            let m = reset_model(p);
            &&& m.pc == 0 && m.lr == 0 && !m.flag_z && !m.flag_c && !m.halted
            &&& m.regs.len() == 16 && m.regs[r] == 0
            &&& m.ram.len() == 128 && m.ram[a] == 0
            &&& m.main_mem.len() == 0 && m.mem_addr_mask == 127
            &&& m.ports == p
        }),
        ({
            let q = quiet_ports();
            &&& q.in_send == 0 && q.in_recv == 0 && q.out_send == 0 && q.out_recv == 0
            &&& q.input.len() == 23 && q.input[i] == 0
            &&& q.output.len() == 23 && q.output[i] == 0
        }),
        !l.valid && l.pc == 0 && l.opcode == 0 && l.rd == 0 && l.ctrl_b == 0,
        l.ir_low == 0 && l.ir_ext == 0 && l.a == 0 && l.b == 0 && l.phys_top_a == 0 && l.phys_top_b
            == 0,
        s.iss_math_a == 0 && s.iss_math_b == 0 && s.iss_math_status == 0 && s.iss_math_result == 0,
{
}

/// A tile CPU is in the state of a machine where both have the same program counter, link register,
/// flags, halt, registers and memory.
pub proof fn law_when_states_are_the_same(m: IssModel, arch: ArchState, mem: DataMemory)
    ensures
        same_state(m, arch, mem) <==> m.pc == arch.pc && m.lr == arch.lr && m.flag_z == arch.flag_z
            && m.flag_c == arch.flag_c && m.halted == arch.halted && m.regs == arch.regs@ && m.ram
            == mem.ram@ && m.main_mem == mem.main_mem@ && m.mem_addr_mask == mem.mem_addr_mask,
{
}

/// The reserved bits of the upper half-word: its second four, and its upper byte too where that is
/// neither part of a constant nor an offset.
pub proof fn law_reserved_bits(ext: u16)
    ensures
        (ext / 4) % 2 == 1 || (ext / 8) % 2 == 1 ==> reserved_bits(ext) == 16 * ((ext as int / 16)
            % 16),
        (ext / 4) % 2 == 0 && (ext / 8) % 2 == 0 ==> reserved_bits(ext) + ext as int % 16 == ext,
        reserved_bits(ext) % 16 == 0,
        0 <= reserved_bits(ext) <= ext,
{
}

/// The tiles that a state moves into: the registers', the scratchpad's, those of the program counter
/// and of the flags. They all lie in the grid, and no two are the same.
pub open spec fn homes_apart(idx: V2CpuIndices, g: Grid) -> bool {
    &&& forall|i: int| 0 <= i < 16 ==> #[trigger] idx.reg_indices@[i] < g.values.len()
    &&& forall|i: int| 0 <= i < 128 ==> #[trigger] idx.ram_indices@[i] < g.values.len()
    &&& idx.pc_idx < g.values.len()
    &&& idx.pc_next_mux_idx < g.values.len()
    &&& idx.pc_ingress_idx < g.values.len()
    &&& idx.flag_z_idx < g.values.len()
    &&& idx.flag_c_idx < g.values.len()
    &&& idx.flag_z_idx != idx.flag_c_idx
    &&& forall|i: int, j: int|
        0 <= i < j < 16 ==> #[trigger] idx.reg_indices@[i] != #[trigger] idx.reg_indices@[j]
    &&& forall|i: int, j: int|
        0 <= i < j < 128 ==> #[trigger] idx.ram_indices@[i] != #[trigger] idx.ram_indices@[j]
    &&& forall|i: int, j: int|
        0 <= i < 16 && 0 <= j < 128 ==> #[trigger] idx.reg_indices@[i]
            != #[trigger] idx.ram_indices@[j]
    &&& forall|i: int| 0 <= i < 16 ==> !is_single_home(idx, #[trigger] idx.reg_indices@[i])
    &&& forall|i: int| 0 <= i < 128 ==> !is_single_home(idx, #[trigger] idx.ram_indices@[i])
    &&& idx.pc_idx != idx.flag_z_idx
    &&& idx.pc_idx != idx.flag_c_idx
}

/// The tile is one of the program counter's or a flag's.
pub open spec fn is_single_home(idx: V2CpuIndices, t: usize) -> bool {
    t == idx.pc_idx || t == idx.pc_next_mux_idx || t == idx.pc_ingress_idx || t == idx.flag_z_idx
        || t == idx.flag_c_idx
}

proof fn lemma_ram_leaves_others(idx: V2CpuIndices, ram: Seq<u64>, n: nat, g: Grid, t: int)
    requires
        n <= 128,
        0 <= t < g.values.len(),
        forall|i: int| 0 <= i < 128 ==> #[trigger] idx.ram_indices@[i] < g.values.len(),
        forall|i: int| 0 <= i < 128 ==> #[trigger] idx.ram_indices@[i] != t,
    ensures
        with_ram(idx, ram, n, g).values.len() == g.values.len(),
        with_ram(idx, ram, n, g).values[t] == g.values[t],
    decreases n,
{
    if n > 0 {
        lemma_ram_leaves_others(idx, ram, (n - 1) as nat, g, t);
        assert(idx.ram_indices@[n - 1] != t);
    }
}

/// A state that moves into the tiles is found there: each register and word of the scratchpad in its
/// tile, the program counter within the tiles' address space, and the flags as one or zero.
pub proof fn law_a_whole_state_moves_into_the_tiles(
    cpu: TileCpuV2,
    s: V2IssState,
    g: Grid,
    r: int,
    a: int,
)
    requires
        homes_apart(cpu.idx, g),
        0 <= r < 16,
        0 <= a < 128,
    ensures
        ({
            let h = with_state(cpu, s, g);
            &&& h.values[cpu.idx.reg_indices@[r] as int] == s.regs@[r]
            &&& h.values[cpu.idx.ram_indices@[a] as int] == s.mem.ram@[a]
            &&& h.values[cpu.idx.pc_idx as int] == s.pc & cpu.mode.pc_phys_mask
            &&& s.flag_z ==> h.values[cpu.idx.flag_z_idx as int] == 1
            &&& !s.flag_z ==> h.values[cpu.idx.flag_z_idx as int] == 0
            &&& s.flag_c ==> h.values[cpu.idx.flag_c_idx as int] == 1
            &&& !s.flag_c ==> h.values[cpu.idx.flag_c_idx as int] == 0
        }),
{
    let idx = cpu.idx;
    let k = with_regs(idx, s.regs@, 16, g);
    law_registers_move_into_their_tiles(idx, s.regs@, 16, g, r);
    law_words_move_into_their_tiles(idx, s.mem.ram@, 128, k, a);
    let t = idx.reg_indices@[r] as int;
    assert forall|i: int| 0 <= i < 128 implies #[trigger] idx.ram_indices@[i] != t by {
        assert(idx.reg_indices@[r] != idx.ram_indices@[i]);
    }
    lemma_ram_leaves_others(idx, s.mem.ram@, 128, k, t);
    assert(!is_single_home(idx, idx.reg_indices@[r]));
    assert(!is_single_home(idx, idx.ram_indices@[a]));
}

/// A hierarchy of bit blocks is driven block by block: fifteen to count the set bits, eleven to count
/// zeros. What each gave is kept in order, and the last one's seven levels are the count.
pub proof fn law_bit_blocks_are_driven_in_order(at: BitScan, out: Seq<u64>, to: BitScan)
    requires
        bit_scan_steps(at, out, to),
    ensures
        at is Done ==> to == at,
        at matches BitScan::Drive(w) ==> w.kind is Ones && w.outs@.len() + 1 < 15 ==> to is Drive,
        at matches BitScan::Drive(w) ==> !(w.kind is Ones) && w.outs@.len() + 1 < 11 ==> to is Drive,
        at matches BitScan::Drive(w) ==> w.kind is Ones && w.outs@.len() + 1 >= 15 ==> to is Done,
        at matches BitScan::Drive(w) ==> !(w.kind is Ones) && w.outs@.len() + 1 >= 11 ==> to is Done,
        at matches BitScan::Drive(w) ==> to matches BitScan::Drive(x) ==> x.kind == w.kind && x.a
            == w.a && x.outs@.len() == w.outs@.len() + 1,
{
    if let BitScan::Drive(w) = at {
        if let BitScan::Drive(x) = to {
            assert(views(x.outs@).len() == x.outs@.len());
            assert(views(w.outs@).push(out).len() == w.outs@.len() + 1);
        }
    }
}

} // verus!
