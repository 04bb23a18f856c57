//! Before the commit settle: the write enables of registers, memory and flags.
use vstd::prelude::*;

use crate::alu::is_store;
use crate::execute::access_addr;
use crate::isa::{is_mmio, is_v2_mmio_addr};
use crate::latch::PipelineLatch;
use crate::layout::V2CpuIndices;
use crate::levels::{pack_levels, packed};
use crate::memory::{compute_mem_addr, compute_store_onehot, store_onehot, DataMemory};
use crate::simulation::{Grid, Simulation};
use crate::state::{ArchState, Authority, Checks, SynthGates};
use crate::gates::SynthGate;

verus! {

/// The decode tables.
pub struct DecodeTables {
    /// Control byte A of each opcode: the ALU's selector, then register write, zero-flag write
    /// and carry-flag write enables.
    pub ctrl_a: [u8; 32],
    /// Control byte A in the low byte and control byte B in the high byte, where one table
    /// gives both.
    pub combined: Option<[u16; 32]>,
    /// Whether a branch is taken, by its kind and the flags.
    pub branch: [bool; 32],
}

impl DecodeTables {
    /// Control byte A of an opcode.
    pub open spec fn ctrl_a_of(self, opcode: u8) -> u8 {
        match self.combined {
            Some(t) => (t@[opcode as int] % 256) as u8,
            None => self.ctrl_a@[opcode as int],
        }
    }

    /// Control byte A of an opcode.
    pub fn get_ctrl_a(&self, opcode: u8) -> (r: u8)
        requires
            opcode < 32,
        ensures
            r == self.ctrl_a_of(opcode),
    {
        match self.combined {
            Some(t) => (t[opcode as usize] % 256) as u8,
            None => self.ctrl_a[opcode as usize],
        }
    }
}

/// What blocks of tiles gave, one level per output tile, where there is such a block.
pub struct BlockLevels {
    pub rd_decode: Option<Vec<u64>>,
    pub ram_decode: Option<Vec<u64>>,
    pub ctrl_a: Option<Vec<u64>>,
}

impl BlockLevels {
    /// No block has more outputs than its value has bits.
    pub open spec fn wf(self) -> bool {
        &&& self.rd_decode matches Some(v) ==> v@.len() <= 64
        &&& self.ram_decode matches Some(v) ==> v@.len() <= 64
        &&& self.ctrl_a matches Some(v) ==> v@.len() <= 8
    }
}

/// The instruction is in the lower half of the program.
pub open spec fn in_lower_half(l: PipelineLatch) -> bool {
    (l.pc / 64) % 2 == 0
}

/// The one-hot code of the destination register's low three bits.
pub open spec fn rd_onehot(l: PipelineLatch) -> u64 {
    1u64 << ((l.rd % 8) as u64)
}

/// The tiles' own register decoder sees the instruction.
pub open spec fn tiles_see_ir(l: PipelineLatch, auth: Authority) -> bool {
    in_lower_half(l) || auth.ir_spine
}

/// The grid with a register select on the decoder's output and its chain.
pub open spec fn with_rd_select(idx: V2CpuIndices, g: Grid, onehot: u64) -> Grid {
    g.put(idx.rd_onehot_decode_idx as int, onehot).put_all(idx.rd_decode_l0_chain@, onehot)
}

/// The register select that is injected: where the tiles' decoder is trusted and sees the
/// instruction, only a correction of it.
pub open spec fn rd_select(
    idx: V2CpuIndices,
    l: PipelineLatch,
    auth: Authority,
    block: Option<Seq<u64>>,
    g: Grid,
) -> Grid {
    let selected = if auth.rd_decode {
        if tiles_see_ir(l, auth) && g.values[idx.rd_onehot_decode_idx as int] == rd_onehot(l) {
            g
        } else {
            with_rd_select(idx, g, rd_onehot(l))
        }
    } else {
        with_rd_select(
            idx,
            g,
            match block {
                Some(v) => packed(v, 0, v.len()),
                None => rd_onehot(l),
            },
        )
    };
    selected.mark(idx.we_mask_const_idx as int)
}

/// A gate after one check.
pub open spec fn checked(g: SynthGate) -> SynthGate {
    SynthGate { checks: (g.checks + 1) as u64, ..g }
}

fn set_rd_select(idx: &V2CpuIndices, sim: &mut Simulation, onehot: u64)
    requires
        old(sim).wf(),
        idx.fits_commit(old(sim).len()),
    ensures
        final(sim)@ == with_rd_select(*idx, old(sim)@, onehot),
        final(sim).wf(),
        final(sim).len() == old(sim).len(),
{
    sim.set_logic_value_by_idx(idx.rd_onehot_decode_idx, onehot);
    sim.set_all(&idx.rd_decode_l0_chain, onehot);
}

/// A sequence view of an optional vector.
pub open spec fn seq_of(v: Option<Vec<u64>>) -> Option<Seq<u64>> {
    match v {
        Some(x) => Some(x@),
        None => None,
    }
}

/// Inject the register select, where its gate is in force.
pub fn inject_rd_select(
    idx: &V2CpuIndices,
    sim: &mut Simulation,
    gates: &mut SynthGates,
    auth: &Authority,
    checks: &mut Checks,
    l: &PipelineLatch,
    block: &Option<Vec<u64>>,
)
    requires
        old(sim).wf(),
        idx.fits_commit(old(sim).len()),
        old(gates).rd_decode.room(),
        old(checks).rd_decode.room(1),
        block matches Some(v) ==> v@.len() <= 64,
    ensures
        final(sim)@ == if old(gates).rd_decode.enabled {
            rd_select(*idx, *l, *auth, seq_of(*block), old(sim)@)
        } else {
            old(sim)@
        },
        *final(gates) == if old(gates).rd_decode.enabled {
            SynthGates { rd_decode: checked(old(gates).rd_decode), ..*old(gates) }
        } else {
            *old(gates)
        },
        *final(checks) == if old(gates).rd_decode.enabled && auth.rd_decode && tiles_see_ir(
            *l,
            *auth,
        ) {
            Checks {
                rd_decode: old(checks).rd_decode.after(
                    old(sim)@.values[idx.rd_onehot_decode_idx as int] != rd_onehot(*l),
                ),
                ..*old(checks)
            }
        } else {
            *old(checks)
        },
        final(sim).wf(),
        final(sim).len() == old(sim).len(),
{
    if gates.rd_decode.enabled {
        let expected: u64 = 1u64 << ((l.rd % 8) as u64);
        let sees: bool = (l.pc / 64) % 2 == 0 || auth.ir_spine;
        if auth.rd_decode {
            if sees {
                let phys: u64 = sim.get_logic_value_by_idx(idx.rd_onehot_decode_idx);
                checks.rd_decode.record(phys != expected);
                if phys != expected {
                    set_rd_select(idx, sim, expected);
                }
            } else {
                set_rd_select(idx, sim, expected);
            }
        } else {
            let onehot: u64 = match block {
                Some(v) => pack_levels(v, 0),
                None => expected,
            };
            set_rd_select(idx, sim, onehot);
        }
        sim.mark_dirty(idx.we_mask_const_idx);
        gates.rd_decode.record_check();
    }
}

/// The row select of a store: the decoded address of a scratchpad word, else nothing.
pub open spec fn ram_select(
    l: PipelineLatch,
    arch: ArchState,
    mem: DataMemory,
    block: Option<Seq<u64>>,
) -> u64 {
    let addr = access_addr(l, arch, mem);
    if is_store(l.opcode) && addr < 128 && !is_mmio(addr) {
        match block {
            Some(v) => packed(v, 0, v.len()),
            None => store_onehot(addr),
        }
    } else {
        0
    }
}

/// Inject the row select of a store, where its gate is in force.
pub fn inject_ram_select(
    idx: &V2CpuIndices,
    sim: &mut Simulation,
    gates: &mut SynthGates,
    l: &PipelineLatch,
    arch: &ArchState,
    mem: &DataMemory,
    block: &Option<Vec<u64>>,
)
    requires
        old(sim).wf(),
        idx.fits_commit(old(sim).len()),
        old(gates).ram_decode.room(),
        block matches Some(v) ==> v@.len() <= 64,
    ensures
        final(sim)@ == if old(gates).ram_decode.enabled {
            old(sim)@.put(
                idx.ram_write_decode_idx as int,
                ram_select(*l, *arch, *mem, seq_of(*block)),
            ).mark(idx.ram_write_gate_idx as int)
        } else {
            old(sim)@
        },
        *final(gates) == if old(gates).ram_decode.enabled {
            SynthGates { ram_decode: checked(old(gates).ram_decode), ..*old(gates) }
        } else {
            *old(gates)
        },
        final(sim).wf(),
        final(sim).len() == old(sim).len(),
{
    if gates.ram_decode.enabled {
        let mut onehot: u64 = 0;
        if l.opcode == 0x17 || l.opcode == 0x19 {
            let addr: usize = compute_mem_addr(
                l.opcode,
                l.ir_low,
                l.ir_ext,
                l.b,
                &arch.regs,
                mem.mem_addr_mask,
            );
            if addr < 128 && !is_v2_mmio_addr(addr) {
                onehot =
                match block {
                    Some(v) => pack_levels(v, 0),
                    None => compute_store_onehot(addr),
                };
            }
        }
        sim.set_logic_value_by_idx(idx.ram_write_decode_idx, onehot);
        sim.mark_dirty(idx.ram_write_gate_idx);
        gates.ram_decode.record_check();
    }
}

/// Control byte A as it is acted on: a block's, where neither the tiles' decode is trusted nor
/// a combined table is there, and else the table's.
pub open spec fn acting_ctrl_a(
    tables: DecodeTables,
    auth: Authority,
    block: Option<Seq<u64>>,
    opcode: u8,
) -> u8 {
    match block {
        Some(v) if !auth.decode && tables.combined is None => packed(v, 0, v.len()) as u8,
        _ => tables.ctrl_a_of(opcode),
    }
}

/// The register write enables: the destination's, if control byte A writes a register and the
/// destination is in the lower bank.
pub open spec fn we_mask(l: PipelineLatch, ctrl_a: u8) -> u64 {
    if (ctrl_a / 8) % 2 == 1 && !l.rd_hi() {
        rd_onehot(l)
    } else {
        0
    }
}

/// The flag write enables: bit 0 for zero, bit 1 for carry.
pub open spec fn flag_we(ctrl_a: u8) -> u64 {
    ((ctrl_a / 16) % 4) as u64
}

/// The instruction is a multiplication.
pub open spec fn is_mul(l: PipelineLatch) -> bool {
    l.opcode == 0x04 && l.ir_low % 32 == 1
}

/// The flag write enables as they are injected: a multiplication whose flags are trusted to
/// the tiles does not write the carry.
pub open spec fn flag_we_injected(l: PipelineLatch, auth: Authority, ctrl_a: u8) -> u64 {
    if is_mul(l) && auth.sub_fn_flag {
        flag_we(ctrl_a) % 2
    } else {
        flag_we(ctrl_a)
    }
}

/// The grid with a value put and marked, unless the tile is trusted and already holds it.
pub open spec fn with_correction(g: Grid, i: int, v: u64, trusted: bool) -> Grid {
    if trusted && g.values[i] == v {
        g
    } else {
        g.put(i, v).mark(i)
    }
}

/// The tiles' register write enables are trusted.
pub open spec fn we_trusted(l: PipelineLatch, auth: Authority) -> bool {
    auth.we_mask && tiles_see_ir(l, auth) && !l.rd_hi()
}

/// The tiles' flag write enables are trusted.
pub open spec fn flag_we_trusted(l: PipelineLatch, auth: Authority) -> bool {
    auth.flag_we_mask && tiles_see_ir(l, auth)
}

/// The grid after the write enables of registers and flags are injected.
pub open spec fn with_enables(
    idx: V2CpuIndices,
    l: PipelineLatch,
    auth: Authority,
    ctrl_a: u8,
    g: Grid,
) -> Grid {
    let w = with_correction(
        g,
        idx.we_mask_const_idx as int,
        we_mask(l, ctrl_a),
        we_trusted(l, auth),
    );
    with_correction(
        w,
        idx.flag_we_mask_const_idx as int,
        flag_we_injected(l, auth, ctrl_a),
        flag_we_trusted(l, auth),
    )
}

/// The counters after the write enables are injected into grid `g`.
pub open spec fn enable_checks(
    idx: V2CpuIndices,
    l: PipelineLatch,
    auth: Authority,
    tables: DecodeTables,
    ctrl_a: u8,
    g: Grid,
    c: Checks,
) -> Checks {
    let w = with_correction(
        g,
        idx.we_mask_const_idx as int,
        we_mask(l, ctrl_a),
        we_trusted(l, auth),
    );
    Checks {
        decode_ctrl_a: if auth.decode {
            c.decode_ctrl_a.after(
                g.values[idx.ctrl_a_mux_idx as int] % 256 != tables.ctrl_a_of(l.opcode),
            )
        } else {
            c.decode_ctrl_a
        },
        we_mask: if we_trusted(l, auth) {
            c.we_mask.after(g.values[idx.we_mask_const_idx as int] != we_mask(l, ctrl_a))
        } else {
            c.we_mask
        },
        flag_we_mask: if flag_we_trusted(l, auth) {
            c.flag_we_mask.after(w.values[idx.flag_we_mask_const_idx as int] != flag_we(ctrl_a))
        } else {
            c.flag_we_mask
        },
        ..c
    }
}

fn correct(sim: &mut Simulation, i: usize, v: u64, trusted: bool)
    requires
        old(sim).wf(),
        i < old(sim).len(),
    ensures
        final(sim)@ == with_correction(old(sim)@, i as int, v, trusted),
        final(sim).wf(),
        final(sim).len() == old(sim).len(),
{
    if !(trusted && sim.get_logic_value_by_idx(i) == v) {
        sim.set_logic_value_by_idx(i, v);
        sim.mark_dirty(i);
    }
}

/// Inject the write enables of registers and flags, where this gate is in force. In the lower
/// half of the program the control byte is compared with the tiles', unless their decode is
/// trusted.
pub fn inject_enables(
    idx: &V2CpuIndices,
    sim: &mut Simulation,
    gates: &mut SynthGates,
    auth: &Authority,
    checks: &mut Checks,
    tables: &DecodeTables,
    l: &PipelineLatch,
    block: &Option<Vec<u64>>,
)
    requires
        old(sim).wf(),
        idx.fits(old(sim).len()),
        old(gates).ctrl_a.room(),
        old(checks).decode_ctrl_a.room(1),
        old(checks).we_mask.room(1),
        old(checks).flag_we_mask.room(1),
        l.opcode < 32,
        block matches Some(v) ==> v@.len() <= 8,
    ensures
        ({
            let ca = acting_ctrl_a(*tables, *auth, seq_of(*block), l.opcode);
            if old(gates).ctrl_a.enabled {
                &&& final(sim)@ == with_enables(*idx, *l, *auth, ca, old(sim)@)
                &&& *final(checks) == enable_checks(
                    *idx,
                    *l,
                    *auth,
                    *tables,
                    ca,
                    old(sim)@,
                    *old(checks),
                )
                &&& *final(gates) == (SynthGates {
                    ctrl_a: SynthGate {
                        checks: (old(gates).ctrl_a.checks + 1) as u64,
                        mismatches: if in_lower_half(*l) && !auth.decode
                            && final(sim)@.values[idx.ctrl_a_mux_idx as int] % 256 != ca {
                            (old(gates).ctrl_a.mismatches + 1) as u64
                        } else {
                            old(gates).ctrl_a.mismatches
                        },
                        ..old(gates).ctrl_a
                    },
                    ..*old(gates)
                })
            } else {
                &&& final(sim)@ == old(sim)@
                &&& *final(checks) == *old(checks)
                &&& *final(gates) == *old(gates)
            }
        }),
        final(sim).wf(),
        final(sim).len() == old(sim).len(),
{
    if !gates.ctrl_a.enabled {
        return;
    }
    let table_ca: u8 = tables.get_ctrl_a(l.opcode);
    let mut ctrl_a: u8 = table_ca;
    if auth.decode {
        let phys: u64 = sim.get_logic_value_by_idx(idx.ctrl_a_mux_idx);
        checks.decode_ctrl_a.record(phys % 256 != table_ca as u64);
    } else if tables.combined.is_none() {
        match block {
            Some(v) => {
                ctrl_a = pack_levels(v, 0) as u8;
            },
            None => {},
        }
    }
    let lower: bool = (l.pc / 64) % 2 == 0;
    let sees: bool = lower || auth.ir_spine;
    let rd_hi: bool = l.get_rd_hi();
    let we: u64 = if (ctrl_a / 8) % 2 == 1 && !rd_hi {
        1u64 << ((l.rd % 8) as u64)
    } else {
        0
    };
    let we_ok: bool = auth.we_mask && sees && !rd_hi;
    if we_ok {
        let phys: u64 = sim.get_logic_value_by_idx(idx.we_mask_const_idx);
        checks.we_mask.record(phys != we);
    }
    correct(sim, idx.we_mask_const_idx, we, we_ok);
    let raw: u64 = ((ctrl_a / 16) % 4) as u64;
    let flags: u64 = if l.opcode == 0x04 && l.ir_low % 32 == 1 && auth.sub_fn_flag {
        raw % 2
    } else {
        raw
    };
    let flags_ok: bool = auth.flag_we_mask && sees;
    if flags_ok {
        let phys: u64 = sim.get_logic_value_by_idx(idx.flag_we_mask_const_idx);
        checks.flag_we_mask.record(phys != raw);
    }
    correct(sim, idx.flag_we_mask_const_idx, flags, flags_ok);
    gates.ctrl_a.record_check();
    if lower && !auth.decode {
        if ctrl_a as u64 != sim.get_logic_value_by_idx(idx.ctrl_a_mux_idx) % 256 {
            gates.ctrl_a.record_mismatch();
        }
    }
}

/// Once the write enables are injected their tiles hold what control byte A asks for, whatever
/// they held before.
pub proof fn law_enables_are_in_force(
    idx: V2CpuIndices,
    l: PipelineLatch,
    auth: Authority,
    ctrl_a: u8,
    g: Grid,
)
    requires
        idx.fits_commit(g.values.len()),
        idx.we_mask_const_idx != idx.flag_we_mask_const_idx,
    ensures
        with_enables(idx, l, auth, ctrl_a, g).values[idx.we_mask_const_idx as int] == we_mask(
            l,
            ctrl_a,
        ),
        with_enables(idx, l, auth, ctrl_a, g).values[idx.flag_we_mask_const_idx as int]
            == flag_we_injected(l, auth, ctrl_a),
{
}

/// The selects and enables are injected where their gates are in force, from grid `g` to `h`.
/// `rd`, `ram` and `block` are what blocks for them gave.
pub open spec fn pre_commit_done(
    idx: V2CpuIndices,
    auth: Authority,
    tables: DecodeTables,
    l: PipelineLatch,
    arch: ArchState,
    mem: DataMemory,
    rd: Option<Seq<u64>>,
    ram: Option<Seq<u64>>,
    block: Option<Seq<u64>>,
    g: Grid,
    gates: SynthGates,
    checks: Checks,
    h: Grid,
    gates1: SynthGates,
    checks1: Checks,
) -> bool {
    let g1 = if gates.rd_decode.enabled {
        rd_select(idx, l, auth, rd, g)
    } else {
        g
    };
    let g2 = if gates.ram_decode.enabled {
        g1.put(
            idx.ram_write_decode_idx as int,
            ram_select(l, arch, mem, ram),
        ).mark(idx.ram_write_gate_idx as int)
    } else {
        g1
    };
    let ca = acting_ctrl_a(tables, auth, block, l.opcode);
    let g3 = if gates.ctrl_a.enabled {
        with_enables(idx, l, auth, ca, g2)
    } else {
        g2
    };
    let c1 = if gates.rd_decode.enabled && auth.rd_decode && tiles_see_ir(l, auth) {
        Checks {
            rd_decode: checks.rd_decode.after(
                g.values[idx.rd_onehot_decode_idx as int] != rd_onehot(l),
            ),
            ..checks
        }
    } else {
        checks
    };
    &&& h == g3
    &&& checks1 == if gates.ctrl_a.enabled {
        enable_checks(idx, l, auth, tables, ca, g2, c1)
    } else {
        c1
    }
    &&& gates1 == (SynthGates {
        rd_decode: if gates.rd_decode.enabled {
            checked(gates.rd_decode)
        } else {
            gates.rd_decode
        },
        ram_decode: if gates.ram_decode.enabled {
            checked(gates.ram_decode)
        } else {
            gates.ram_decode
        },
        ctrl_a: if gates.ctrl_a.enabled {
            SynthGate {
                checks: (gates.ctrl_a.checks + 1) as u64,
                mismatches: if in_lower_half(l) && !auth.decode
                    && g3.values[idx.ctrl_a_mux_idx as int] % 256 != ca {
                    (gates.ctrl_a.mismatches + 1) as u64
                } else {
                    gates.ctrl_a.mismatches
                },
                ..gates.ctrl_a
            }
        } else {
            gates.ctrl_a
        },
        ..gates
    })
}

/// Inject the register select, the row select of a store, and the write enables.
pub fn inject_synth_pre_commit(
    idx: &V2CpuIndices,
    sim: &mut Simulation,
    gates: &mut SynthGates,
    auth: &Authority,
    checks: &mut Checks,
    tables: &DecodeTables,
    l: &PipelineLatch,
    arch: &ArchState,
    mem: &DataMemory,
    blocks: &BlockLevels,
)
    requires
        old(sim).wf(),
        idx.fits(old(sim).len()),
        old(gates).room(),
        old(checks).room(1),
        l.opcode < 32,
        blocks.wf(),
    ensures
        pre_commit_done(
            *idx,
            *auth,
            *tables,
            *l,
            *arch,
            *mem,
            seq_of(blocks.rd_decode),
            seq_of(blocks.ram_decode),
            seq_of(blocks.ctrl_a),
            old(sim)@,
            *old(gates),
            *old(checks),
            final(sim)@,
            *final(gates),
            *final(checks),
        ),
        final(sim).wf(),
        final(sim).len() == old(sim).len(),
{
    inject_rd_select(idx, sim, gates, auth, checks, l, &blocks.rd_decode);
    inject_ram_select(idx, sim, gates, l, arch, mem, &blocks.ram_decode);
    inject_enables(idx, sim, gates, auth, checks, tables, l, &blocks.ctrl_a);
}

/// The gates after the selects that the tiles hold are compared with the right ones.
pub open spec fn post_commit_gates(
    idx: V2CpuIndices,
    l: PipelineLatch,
    arch: ArchState,
    mem: DataMemory,
    g: Grid,
    gates: SynthGates,
) -> SynthGates {
    SynthGates {
        rd_decode: if gates.rd_decode.enabled
            && g.values[idx.rd_onehot_decode_idx as int] != rd_onehot(l) {
            SynthGate {
                mismatches: (gates.rd_decode.mismatches + 1) as u64,
                ..gates.rd_decode
            }
        } else {
            gates.rd_decode
        },
        ram_decode: if gates.ram_decode.enabled
            && g.values[idx.ram_write_decode_idx as int] != if is_store(l.opcode) {
            store_onehot(access_addr(l, arch, mem))
        } else {
            0
        } {
            SynthGate {
                mismatches: (gates.ram_decode.mismatches + 1) as u64,
                ..gates.ram_decode
            }
        } else {
            gates.ram_decode
        },
        ..gates
    }
}

/// After the commit settle: count a mismatch where the register or row select did not survive.
pub fn verify_synth_post_commit(
    idx: &V2CpuIndices,
    sim: &Simulation,
    gates: &mut SynthGates,
    l: &PipelineLatch,
    arch: &ArchState,
    mem: &DataMemory,
)
    requires
        sim.wf(),
        idx.fits_commit(sim.len()),
        old(gates).rd_decode.room(),
        old(gates).ram_decode.room(),
    ensures
        *final(gates) == post_commit_gates(*idx, *l, *arch, *mem, sim@, *old(gates)),
{
    if gates.rd_decode.enabled {
        let expected: u64 = 1u64 << ((l.rd % 8) as u64);
        if sim.get_logic_value_by_idx(idx.rd_onehot_decode_idx) != expected {
            gates.rd_decode.record_mismatch();
        }
    }
    if gates.ram_decode.enabled {
        let expected: u64 = if l.opcode == 0x17 || l.opcode == 0x19 {
            compute_store_onehot(
                compute_mem_addr(
                    l.opcode,
                    l.ir_low,
                    l.ir_ext,
                    l.b,
                    &arch.regs,
                    mem.mem_addr_mask,
                ),
            )
        } else {
            0
        };
        if sim.get_logic_value_by_idx(idx.ram_write_decode_idx) != expected {
            gates.ram_decode.record_mismatch();
        }
    }
}

} // verus!
