//! The program counter: its sequencing at the end of stage X, and the program words that the
//! tiles have no memory for.
use vstd::prelude::*;

use crate::branch::{branch_kind, branch_pc, compute_branch_pc};
use crate::branch_stage::{decide_taken, synth_taken};
use crate::gates::SynthGate;
use crate::isa::ext_flag;
use crate::latch::PipelineLatch;
use crate::layout::V2CpuIndices;
use crate::simulation::{Grid, Simulation};
use crate::state::{ArchState, Authority, Checks, PcMode};

verus! {

/// Program words that the tiles hold.
pub const TILE_ROM_WORDS: usize = 128;

/// The low 32 bits of a tile's value.
pub open spec fn low_word(v: u64) -> u32 {
    (v % 0x1_0000_0000) as u32
}

/// The low 32 bits of a tile's value.
pub fn get_low_word(v: u64) -> (r: u32)
    ensures
        r == low_word(v),
{
    (v % 0x1_0000_0000) as u32
}

/// The program counter that the tiles hold.
pub open spec fn tile_pc(idx: V2CpuIndices, mode: PcMode, g: Grid) -> u32 {
    low_word(g.values[idx.pc_idx as int]) & mode.pc_phys_mask
}

/// The program counter that the tiles hold.
pub fn read_tile_pc(idx: &V2CpuIndices, mode: &PcMode, sim: &Simulation) -> (r: u32)
    requires
        sim.wf(),
        idx.pc_idx < sim.len(),
    ensures
        r == tile_pc(*idx, *mode, sim@),
{
    get_low_word(sim.get_logic_value_by_idx(idx.pc_idx)) & mode.pc_phys_mask
}

/// The grid with the program counter, its input and the tile between them holding `v`.
pub open spec fn with_pc(idx: V2CpuIndices, v: u32, g: Grid) -> Grid {
    g.put(idx.pc_idx as int, v as u64).put(idx.pc_next_mux_idx as int, v as u64).put(
        idx.pc_ingress_idx as int,
        v as u64,
    )
}

/// Set the program counter, in software and in the tiles.
pub fn set_pc(
    idx: &V2CpuIndices,
    mode: &PcMode,
    sim: &mut Simulation,
    arch: &mut ArchState,
    value: u32,
)
    requires
        old(sim).wf(),
        idx.fits(old(sim).len()),
    ensures
        *final(arch) == (ArchState { pc: value & mode.pc_phys_mask, ..*old(arch) }),
        final(sim)@ == with_pc(*idx, value & mode.pc_phys_mask, old(sim)@),
        final(sim).wf(),
        final(sim).len() == old(sim).len(),
{
    let v: u32 = value & mode.pc_phys_mask;
    arch.pc = v;
    sim.set_logic_value_by_idx(idx.pc_idx, v as u64);
    sim.set_logic_value_by_idx(idx.pc_next_mux_idx, v as u64);
    sim.set_logic_value_by_idx(idx.pc_ingress_idx, v as u64);
}

/// The jump or call goes to the address in its destination register.
pub open spec fn through_register(l: PipelineLatch) -> bool {
    ext_flag(l.ir_ext, 4)
}

/// The next program counter in the extended address space: full-width targets, through a
/// register, the link register or the immediate.
pub open spec fn extended_next(
    l: PipelineLatch,
    arch: ArchState,
    mask: u32,
    z: bool,
    c: bool,
) -> u32 {
    let kind = branch_kind(l.ctrl_b);
    let fall_through = (l.pc & mask).wrapping_add(1) & mask;
    if through_register(l) && (kind == 1 || kind == 6) {
        low_word(arch.regs@[l.rd_eff()]) & mask
    } else if kind == 7 {
        arch.lr & mask
    } else {
        branch_pc(kind, z, c, low_word(l.imm()) & mask, fall_through, arch.lr)
    }
}

/// The next program counter in the 128-word address space.
pub open spec fn narrow_next(
    l: PipelineLatch,
    arch: ArchState,
    mask: u32,
    z: bool,
    c: bool,
) -> u32 {
    branch_pc(
        branch_kind(l.ctrl_b),
        z,
        c,
        (l.ir_low % 128) as u32,
        narrow_fall_through(l, mask),
        arch.lr,
    )
}

/// The address after the instruction's own, in the 128-word address space.
pub open spec fn narrow_fall_through(l: PipelineLatch, mask: u32) -> u32 {
    (l.pc & mask).wrapping_add(1) % 128
}

/// The next program counter in the extended address space.
pub fn extended_next_pc(
    l: &PipelineLatch,
    arch: &ArchState,
    mask: u32,
    z: bool,
    c: bool,
) -> (r: u32)
    ensures
        r == extended_next(*l, *arch, mask, z, c),
{
    let kind: u8 = l.ctrl_b % 8;
    let fall_through: u32 = (l.pc & mask).wrapping_add(1) & mask;
    if (l.ir_ext / 16) % 2 == 1 && (kind == 1 || kind == 6) {
        get_low_word(arch.regs[l.get_rd_eff()]) & mask
    } else if kind == 7 {
        arch.lr & mask
    } else {
        compute_branch_pc(kind, z, c, get_low_word(l.get_imm()) & mask, fall_through, arch.lr)
    }
}

/// The next program counter in the 128-word address space.
pub fn narrow_next_pc(
    l: &PipelineLatch,
    arch: &ArchState,
    mask: u32,
    z: bool,
    c: bool,
) -> (r: u32)
    ensures
        r == narrow_next(*l, *arch, mask, z, c),
{
    compute_branch_pc(
        l.ctrl_b % 8,
        z,
        c,
        (l.ir_low % 128) as u32,
        (l.pc & mask).wrapping_add(1) % 128,
        arch.lr,
    )
}

/// How the program counter is settled at the end of an instruction.
pub enum PcRule {
    /// Software writes this value.
    Write(u32),
    /// The tiles are trusted; a difference from this value is counted and corrected.
    Check(u32),
    /// The tiles decide.
    Keep,
}

/// How the program counter is settled. `z` and `c` are the flags before the instruction.
pub open spec fn pc_rule(
    l: PipelineLatch,
    arch: ArchState,
    mode: PcMode,
    auth: Authority,
    z: bool,
    c: bool,
) -> PcRule {
    let mask = mode.pc_phys_mask;
    if mode.extended_pc {
        let next = extended_next(l, arch, mask, z, c);
        if mode.wide_pc && branch_kind(l.ctrl_b) == 0 && !through_register(l) {
            PcRule::Check(next)
        } else {
            PcRule::Write(next)
        }
    } else if (l.pc / 64) % 2 == 1 {
        let next = narrow_next(l, arch, mask, z, c);
        if auth.decode {
            PcRule::Check(next)
        } else {
            PcRule::Write(next)
        }
    } else {
        PcRule::Keep
    }
}

/// How the program counter is settled.
pub fn choose_pc_rule(
    l: &PipelineLatch,
    arch: &ArchState,
    mode: &PcMode,
    auth: &Authority,
    z: bool,
    c: bool,
) -> (r: PcRule)
    ensures
        r == pc_rule(*l, *arch, *mode, *auth, z, c),
{
    let mask: u32 = mode.pc_phys_mask;
    if mode.extended_pc {
        let next: u32 = extended_next_pc(l, arch, mask, z, c);
        if mode.wide_pc && l.ctrl_b % 8 == 0 && !((l.ir_ext / 16) % 2 == 1) {
            PcRule::Check(next)
        } else {
            PcRule::Write(next)
        }
    } else if (l.pc / 64) % 2 == 1 {
        let next: u32 = narrow_next_pc(l, arch, mask, z, c);
        if auth.decode {
            PcRule::Check(next)
        } else {
            PcRule::Write(next)
        }
    } else {
        PcRule::Keep
    }
}

/// The value that is written to the program counter, if any, when the tiles hold `pc`.
pub open spec fn pc_written(rule: PcRule, pc: u32) -> Option<u32> {
    match rule {
        PcRule::Write(v) => Some(v),
        PcRule::Check(v) if pc != v => Some(v),
        _ => None,
    }
}

/// The program counter is the tiles' or the one that the rule gives, in the state and in the
/// tiles.
pub open spec fn pc_resolved(
    idx: V2CpuIndices,
    mode: PcMode,
    l: PipelineLatch,
    auth: Authority,
    z: bool,
    c: bool,
    arch: ArchState,
    g: Grid,
    checks: Checks,
    arch1: ArchState,
    h: Grid,
    checks1: Checks,
) -> bool {
    let pc = tile_pc(idx, mode, g);
    let rule = pc_rule(l, arch, mode, auth, z, c);
    let mask = mode.pc_phys_mask;
    let kind = branch_kind(l.ctrl_b);
    &&& arch1 == (ArchState {
        pc: match pc_written(rule, pc) {
            Some(v) => v & mask,
            None => pc,
        },
        ..arch
    })
    &&& h == match pc_written(rule, pc) {
        Some(v) => with_pc(idx, v & mask, g),
        None => g,
    }
    &&& checks1.pc_override == match rule {
        PcRule::Check(v) => checks.pc_override.after(pc != v),
        _ => checks.pc_override,
    }
    &&& checks1.pc_mismatch_per_kind@ == match rule {
        PcRule::Check(v) if pc != v && !mode.extended_pc => checks.pc_mismatch_per_kind@.update(
            kind,
            (checks.pc_mismatch_per_kind@[kind] + 1) as u64,
        ),
        _ => checks.pc_mismatch_per_kind@,
    }
    &&& checks1 == (Checks {
        pc_override: checks1.pc_override,
        pc_mismatch_per_kind: checks1.pc_mismatch_per_kind,
        ..checks
    })
}

/// Settle the program counter after the clock edge.
pub fn resolve_pc(
    idx: &V2CpuIndices,
    mode: &PcMode,
    sim: &mut Simulation,
    arch: &mut ArchState,
    l: &PipelineLatch,
    auth: &Authority,
    z: bool,
    c: bool,
    checks: &mut Checks,
)
    requires
        old(sim).wf(),
        idx.fits(old(sim).len()),
        old(checks).room(1),
    ensures
        pc_resolved(
            *idx,
            *mode,
            *l,
            *auth,
            z,
            c,
            *old(arch),
            old(sim)@,
            *old(checks),
            *final(arch),
            final(sim)@,
            *final(checks),
        ),
        final(sim).wf(),
        final(sim).len() == old(sim).len(),
{
    let pc: u32 = read_tile_pc(idx, mode, sim);
    let rule: PcRule = choose_pc_rule(l, arch, mode, auth, z, c);
    arch.pc = pc;
    match rule {
        PcRule::Write(v) => {
            set_pc(idx, mode, sim, arch, v);
        },
        PcRule::Check(v) => {
            checks.pc_override.record(pc != v);
            if pc != v {
                if !mode.extended_pc {
                    let kind: usize = (l.ctrl_b % 8) as usize;
                    checks.pc_mismatch_per_kind[kind] = checks.pc_mismatch_per_kind[kind] + 1;
                }
                set_pc(idx, mode, sim, arch, v);
            }
        },
        PcRule::Keep => {},
    }
}

/// In the upper half of the 128-word program the next program counter is the architectural
/// one, whatever the tiles hold.
pub proof fn law_upper_pc_is_architectural(
    mode: PcMode,
    l: PipelineLatch,
    arch: ArchState,
    auth: Authority,
    z: bool,
    c: bool,
    pc: u32,
)
    requires
        !mode.extended_pc,
        mode.pc_phys_mask == 0x7F,
        (l.pc / 64) % 2 == 1,
    ensures
        ({
            let next = narrow_next(l, arch, mode.pc_phys_mask, z, c);
            &&& next < 128
            &&& (match pc_written(pc_rule(l, arch, mode, auth, z, c), pc) {
                Some(v) => v & mode.pc_phys_mask,
                None => pc,
            }) == next
        }),
{
    let next = narrow_next(l, arch, mode.pc_phys_mask, z, c);
    assert(next < 128);
    assert(next & 0x7F == next) by (bit_vector)
        requires
            next < 128,
    ;
}

/// Compare the program counter with the synthesized branch decision, in the lower half of the
/// program and where the branch gate is in force.
pub fn check_synth_branch(
    l: &PipelineLatch,
    arch: &ArchState,
    mode: &PcMode,
    table: &[bool; 32],
    block: Option<u64>,
    z: bool,
    c: bool,
    gate: &mut SynthGate,
)
    requires
        old(gate).room(),
    ensures
        ({
            let mask = mode.pc_phys_mask;
            let taken = synth_taken(branch_kind(l.ctrl_b), z, c, block, table@);
            let expected = if taken {
                narrow_next(*l, *arch, mask, z, c)
            } else {
                narrow_fall_through(*l, mask)
            };
            *final(gate) == if old(gate).enabled && (l.pc / 64) % 2 == 0 {
                SynthGate {
                    checks: (old(gate).checks + 1) as u64,
                    mismatches: if arch.pc != expected {
                        (old(gate).mismatches + 1) as u64
                    } else {
                        old(gate).mismatches
                    },
                    ..*old(gate)
                }
            } else {
                *old(gate)
            }
        }),
{
    if gate.enabled && (l.pc / 64) % 2 == 0 {
        let taken: bool = decide_taken(table, l.ctrl_b % 8, z, c, block);
        let expected: u32 = if taken {
            narrow_next_pc(l, arch, mode.pc_phys_mask, z, c)
        } else {
            (l.pc & mode.pc_phys_mask).wrapping_add(1) % 128
        };
        gate.record_check();
        if arch.pc != expected {
            gate.record_mismatch();
        }
    }
}

/// The program word at `addr`, with a halt turned into a jump to itself.
pub open spec fn patched_word(w: u32, addr: u32, mask: u32) -> u32 {
    if (w / 2048) % 32 == 1 {
        ((w / 256) * 256) as u32 | (addr & mask)
    } else {
        w
    }
}

/// The program words that the tiles have no memory for, as they are fetched.
pub open spec fn program_ext(program: Seq<u32>, mask: u32) -> Seq<u32> {
    if program.len() > 128 {
        Seq::new(
            (program.len() - 128) as nat,
            |i: int| patched_word(program[128 + i], (128 + i) as u32, mask),
        )
    } else {
        Seq::empty()
    }
}

/// The program words that the tiles have no memory for, as they are fetched.
pub fn build_program_ext(program: &Vec<u32>, mask: u32) -> (r: Vec<u32>)
    requires
        program@.len() <= u32::MAX,
    ensures
        r@ == program_ext(program@, mask),
{
    let mut r: Vec<u32> = Vec::new();
    let mut i: usize = 128;
    if program.len() <= 128 {
        assert(r@ =~= program_ext(program@, mask));
        return r;
    }
    while i < program.len()
        invariant
            128 <= i <= program@.len(),
            program@.len() <= u32::MAX,
            r@ == Seq::new(
                (i - 128) as nat,
                |k: int| patched_word(program@[128 + k], (128 + k) as u32, mask),
            ),
        decreases program@.len() - i,
    {
        let w: u32 = program[i];
        let word: u32 = if (w / 2048) % 32 == 1 {
            (w / 256) * 256 | (i as u32 & mask)
        } else {
            w
        };
        r.push(word);
        i = i + 1;
        assert(r@ =~= Seq::new(
            (i - 128) as nat,
            |k: int| patched_word(program@[128 + k], (128 + k) as u32, mask),
        ));
    }
    assert(r@ =~= program_ext(program@, mask));
    r
}

impl PcMode {
    /// The 128-word address space.
    pub fn narrow() -> (m: Self)
        ensures
            m == (PcMode {
                extended_pc: false,
                wide_pc: false,
                pc_addr_bits: 7,
                pc_phys_mask: 0x7F,
            }),
    {
        PcMode { extended_pc: false, wide_pc: false, pc_addr_bits: 7, pc_phys_mask: 0x7F }
    }

    /// Switch to the 256-word address space.
    pub fn extend(&mut self)
        ensures
            *final(self) == (PcMode {
                extended_pc: true,
                wide_pc: old(self).wide_pc,
                pc_addr_bits: 8,
                pc_phys_mask: 0xFF,
            }),
    {
        self.extended_pc = true;
        self.pc_addr_bits = 8;
        self.pc_phys_mask = 0xFF;
    }

    /// Switch to the 65536-word address space.
    pub fn widen(&mut self)
        ensures
            *final(self) == (PcMode {
                extended_pc: true,
                wide_pc: true,
                pc_addr_bits: 16,
                pc_phys_mask: 0xFFFF,
            }),
    {
        self.extended_pc = true;
        self.wide_pc = true;
        self.pc_addr_bits = 16;
        self.pc_phys_mask = 0xFFFF;
    }
}

} // verus!
