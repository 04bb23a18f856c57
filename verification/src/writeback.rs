//! After the clock edge: comparing the tiles with software, and writing back registers, memory
//! diagnostics and flags.
use vstd::prelude::*;

use crate::alu::{is_store, is_sub_function, opcode_writes_flags, sub_function, writes_flags,
    AluOutcome};
use crate::cop::{drive_level, level};
use crate::execute::Granted;
use crate::gates::{CheckCounter, SynthGate};
use crate::latch::PipelineLatch;
use crate::layout::V2CpuIndices;
use crate::simulation::{Grid, Simulation};
use crate::state::{ArchState, Authority, Checks};

verus! {

/// The tile ALU's result is compared with the result of the instruction.
pub open spec fn alu_compared(l: PipelineLatch, phys: Option<u64>, o: AluOutcome) -> bool {
    &&& phys is Some
    &&& o.writes_reg
    &&& 0x04 <= l.opcode <= 0x14
    &&& !is_sub_function(l.opcode, l.ir_low)
}

/// The tile ALU's result is compared with the outcome, where it computes that.
pub open spec fn alu_checked(
    idx: V2CpuIndices,
    ctrl_a: Seq<u8>,
    l: PipelineLatch,
    phys: Option<u64>,
    o: AluOutcome,
    g: Grid,
    gate: SynthGate,
    checks: Checks,
    gate1: SynthGate,
    checks1: Checks,
) -> bool {
    let compared = alu_compared(l, phys, o);
    let differs = compared && phys->0 != o.result;
    let op = l.opcode as int;
    &&& gate1 == (SynthGate {
        checks: if compared {
            (gate.checks + 1) as u64
        } else {
            gate.checks
        },
        mismatches: if differs {
            (gate.mismatches + 1) as u64
        } else {
            gate.mismatches
        },
        ..gate
    })
    &&& checks1.alu_opcode_mismatches@ == if differs {
        checks.alu_opcode_mismatches@.update(
            op,
            (checks.alu_opcode_mismatches@[op] + 1) as u64,
        )
    } else {
        checks.alu_opcode_mismatches@
    }
    &&& checks1.alu_mux_select_mismatches == if differs
        && g.values[idx.ctrl_a_mux_idx as int] % 8 != ctrl_a[op] % 8 {
        checks.alu_mux_select_mismatches + 1
    } else {
        checks.alu_mux_select_mismatches as int
    }
    &&& checks1 == (Checks {
        alu_opcode_mismatches: checks1.alu_opcode_mismatches,
        alu_mux_select_mismatches: checks1.alu_mux_select_mismatches,
        ..checks
    })
}

/// Compare the tile ALU's result with the result of the instruction. A difference is also
/// charged to the opcode, and to the ALU's selector where that is wrong too.
pub fn compare_alu(
    idx: &V2CpuIndices,
    sim: &Simulation,
    ctrl_a: &[u8; 32],
    l: &PipelineLatch,
    phys: Option<u64>,
    o: &AluOutcome,
    gate: &mut SynthGate,
    checks: &mut Checks,
)
    requires
        sim.wf(),
        idx.fits_fetch(sim.len()),
        l.opcode < 32,
        old(gate).room(),
        old(checks).alu_mux_select_mismatches < u64::MAX,
        old(checks).alu_opcode_mismatches@[l.opcode as int] < u64::MAX,
    ensures
        alu_checked(
            *idx,
            ctrl_a@,
            *l,
            phys,
            *o,
            sim@,
            *old(gate),
            *old(checks),
            *final(gate),
            *final(checks),
        ),
{
    match phys {
        Some(v) => {
            if o.writes_reg && 0x04 <= l.opcode && l.opcode <= 0x14 && !sub_function(
                l.opcode,
                l.ir_low,
            ) {
                gate.record_check();
                if v != o.result {
                    gate.record_mismatch();
                    let op: usize = l.opcode as usize;
                    checks.alu_opcode_mismatches[op] = checks.alu_opcode_mismatches[op] + 1;
                    let selector: u64 = sim.get_logic_value_by_idx(idx.ctrl_a_mux_idx) % 8;
                    if selector != (ctrl_a[op] % 8) as u64 {
                        checks.alu_mux_select_mismatches = checks.alu_mux_select_mismatches + 1;
                    }
                }
            }
        },
        None => {},
    }
}

/// The registers after an instruction.
pub open spec fn regs_after(regs: Seq<u64>, l: PipelineLatch, o: AluOutcome) -> Seq<u64> {
    if o.writes_reg {
        regs.update(l.rd_eff(), o.result)
    } else {
        regs
    }
}

/// The grid with the first `n` register tiles holding the given registers.
pub open spec fn with_regs(idx: V2CpuIndices, regs: Seq<u64>, n: nat, g: Grid) -> Grid
    decreases n,
{
    if n == 0 {
        g
    } else {
        with_regs(idx, regs, (n - 1) as nat, g).put(
            idx.reg_indices@[n - 1] as int,
            regs[n - 1],
        )
    }
}

/// Register tile `i` differs from register `i`, with the tiles before it already written.
pub open spec fn tile_differs(idx: V2CpuIndices, regs: Seq<u64>, i: int, g: Grid) -> bool {
    with_regs(idx, regs, i as nat, g).values[idx.reg_indices@[i] as int] != regs[i]
}

/// The mask whose bit `i` is set when flag `i` is, for the first `n`.
pub open spec fn mask_of(flags: Seq<bool>, n: nat) -> u16
    decreases n,
{
    if n == 0 {
        0
    } else if flags[n - 1] {
        mask_of(flags, (n - 1) as nat) | (1u16 << ((n - 1) as u16))
    } else {
        mask_of(flags, (n - 1) as nat)
    }
}

/// A mask's bits are the flags it was made of.
pub proof fn law_mask_bits(flags: Seq<bool>, n: nat, k: u16)
    requires
        n <= 16,
        n <= flags.len(),
        k < 16,
    ensures
        ((mask_of(flags, n) >> k) & 1 == 1) == (k < n && flags[k as int]),
    decreases n,
{
    if n == 0 {
        assert((0u16 >> k) & 1 == 0) by (bit_vector);
    } else {
        law_mask_bits(flags, (n - 1) as nat, k);
        let w = mask_of(flags, (n - 1) as nat);
        let p = (n - 1) as u16;
        assert((((w | (1u16 << p)) >> k) & 1 == 1) == (k == p || (w >> k) & 1 == 1)) by (bit_vector)
            requires
                k < 16,
                p < 16,
        ;
    }
}

/// The tiles are trusted to have captured the destination in the lower bank.
pub open spec fn low_capture_trusted(l: PipelineLatch, auth: Authority, t: Granted) -> bool {
    auth.reg_writeback && (t.alu || t.wb_path || (t.sub_fn && !l.rd_hi()) || (t.load
        && !l.rd_hi()))
}

/// The tiles are trusted to have captured the destination in the upper bank.
pub open spec fn high_capture_trusted(l: PipelineLatch, t: Granted, injected: bool) -> bool {
    (t.high_reg_wb || injected) && l.rd_hi()
}

/// Which registers changed, in software or because their tile differed.
pub open spec fn changed_flags(
    idx: V2CpuIndices,
    before: Seq<u64>,
    after: Seq<u64>,
    l: PipelineLatch,
    high: bool,
    g: Grid,
) -> Seq<bool> {
    Seq::new(
        16,
        |i: int|
            if i < 8 {
                after[i] != before[i] || tile_differs(idx, after, i, g)
            } else {
                after[i] != before[i] || (high && i == l.rd_eff() && with_regs(
                    idx,
                    after,
                    8,
                    g,
                ).values[idx.reg_indices@[i] as int] != after[i])
            },
    )
}

/// The counter after checking the first `n` register tiles.
pub open spec fn captured(
    idx: V2CpuIndices,
    regs: Seq<u64>,
    n: nat,
    g: Grid,
    c: CheckCounter,
) -> CheckCounter
    decreases n,
{
    if n == 0 {
        c
    } else {
        captured(idx, regs, (n - 1) as nat, g, c).after(tile_differs(idx, regs, n - 1, g))
    }
}

/// A counter after one check, if there was one.
pub open spec fn after_if(c: CheckCounter, checked: bool, differs: bool) -> CheckCounter {
    if checked {
        c.after(differs)
    } else {
        c
    }
}

fn record_if(c: &mut CheckCounter, checked: bool, differs: bool)
    requires
        checked ==> old(c).room(1),
    ensures
        *final(c) == after_if(*old(c), checked, differs),
{
    if checked {
        c.record(differs);
    }
}

/// The counters after the lower registers are written back.
pub open spec fn low_checks(
    idx: V2CpuIndices,
    after: Seq<u64>,
    l: PipelineLatch,
    auth: Authority,
    t: Granted,
    alu_gate: bool,
    g: Grid,
    c: Checks,
) -> Checks {
    let trusted = low_capture_trusted(l, auth, t);
    let differs = tile_differs(idx, after, (l.rd % 8) as int, g);
    Checks {
        reg_capture: if alu_gate {
            captured(idx, after, 8, g, c.reg_capture)
        } else {
            c.reg_capture
        },
        reg_wb: after_if(c.reg_wb, trusted, differs),
        sub_fn_delivery: after_if(
            c.sub_fn_delivery,
            trusted && t.sub_fn && !l.rd_hi(),
            differs,
        ),
        load_delivery: after_if(c.load_delivery, trusted && t.load && !l.rd_hi(), differs),
        ..c
    }
}

/// Write back the lower registers. Returns the mask of those that changed.
fn write_back_low(
    idx: &V2CpuIndices,
    sim: &mut Simulation,
    before: &[u64; 16],
    after: &[u64; 16],
    l: &PipelineLatch,
    auth: &Authority,
    t: &Granted,
    alu_gate: bool,
    checks: &mut Checks,
    Ghost(high): Ghost<bool>,
) -> (mask: u16)
    requires
        old(sim).wf(),
        idx.fits_commit(old(sim).len()),
        old(checks).reg_capture.room(8),
        old(checks).reg_wb.room(1),
        old(checks).sub_fn_delivery.room(1),
        old(checks).load_delivery.room(1),
    ensures
        final(sim)@ == with_regs(*idx, after@, 8, old(sim)@),
        mask == mask_of(changed_flags(*idx, before@, after@, *l, high, old(sim)@), 8),
        *final(checks) == low_checks(
            *idx,
            after@,
            *l,
            *auth,
            *t,
            alu_gate,
            old(sim)@,
            *old(checks),
        ),
        final(sim).wf(),
        final(sim).len() == old(sim).len(),
{
    let ghost g = sim@;
    let ghost n = sim.len();
    let ghost c0 = *checks;
    let rd_hi: bool = l.get_rd_hi();
    let target: usize = (l.rd % 8) as usize;
    let trusted: bool = auth.reg_writeback && (t.alu || t.wb_path || (t.sub_fn && !rd_hi) || (t.load
        && !rd_hi));
    let ghost flags = changed_flags(*idx, before@, after@, *l, high, g);
    let mut mask: u16 = 0;
    let mut i: usize = 0;
    while i < 8
        invariant
            i <= 8,
            sim.wf(),
            sim.len() == n,
            idx.fits_commit(n),
            g == old(sim)@,
            target == l.rd % 8,
            rd_hi == l.rd_hi(),
            trusted == low_capture_trusted(*l, *auth, *t),
            sim@ == with_regs(*idx, after@, i as nat, g),
            flags == changed_flags(*idx, before@, after@, *l, high, g),
            mask == mask_of(flags, i as nat),
            c0.reg_capture.room(8),
            c0.reg_wb.room(1),
            c0.sub_fn_delivery.room(1),
            c0.load_delivery.room(1),
            checks.reg_capture.room(8 - i),
            checks.reg_capture == if alu_gate {
                captured(*idx, after@, i as nat, g, c0.reg_capture)
            } else {
                c0.reg_capture
            },
            checks.reg_wb == after_if(
                c0.reg_wb,
                trusted && target < i,
                tile_differs(*idx, after@, target as int, g),
            ),
            checks.sub_fn_delivery == after_if(
                c0.sub_fn_delivery,
                trusted && t.sub_fn && !l.rd_hi() && target < i,
                tile_differs(*idx, after@, target as int, g),
            ),
            checks.load_delivery == after_if(
                c0.load_delivery,
                trusted && t.load && !l.rd_hi() && target < i,
                tile_differs(*idx, after@, target as int, g),
            ),
            *checks == (Checks {
                reg_capture: checks.reg_capture,
                reg_wb: checks.reg_wb,
                sub_fn_delivery: checks.sub_fn_delivery,
                load_delivery: checks.load_delivery,
                ..c0
            }),
        decreases 8 - i,
    {
        let at: usize = idx.reg_indices[i];
        let phys: u64 = sim.get_logic_value_by_idx(at);
        let differs: bool = phys != after[i];
        let changed: bool = after[i] != before[i];
        if alu_gate {
            checks.reg_capture.record(differs);
        }
        let here: bool = trusted && i == target;
        record_if(&mut checks.reg_wb, here, differs);
        record_if(&mut checks.sub_fn_delivery, here && t.sub_fn && !rd_hi, differs);
        record_if(&mut checks.load_delivery, here && t.load && !rd_hi, differs);
        if differs || changed {
            mask = mask | (1u16 << (i as u16));
        }
        let ghost s0 = sim@;
        if differs || (changed && !here) {
            sim.set_logic_value_by_idx(at, after[i]);
        } else {
            assert(s0.values.update(at as int, after@[i as int]) =~= s0.values);
        }
        i = i + 1;
    }
    mask
}

/// The grid after the registers are written back: every lower register tile holds its
/// register, and so does the destination's tile in the upper bank.
pub open spec fn with_write_back(
    idx: V2CpuIndices,
    before: Seq<u64>,
    after: Seq<u64>,
    l: PipelineLatch,
    high: bool,
    g: Grid,
) -> Grid {
    let low = with_regs(idx, after, 8, g);
    let rd = l.rd_eff();
    if rd >= 8 && (high || after[rd] != before[rd]) {
        low.put(idx.reg_indices@[rd] as int, after[rd])
    } else {
        low
    }
}

/// The counters after the upper registers are written back; `differs` says whether the
/// destination's tile differed.
pub open spec fn high_checks(
    l: PipelineLatch,
    t: Granted,
    high: bool,
    differs: bool,
    c: Checks,
) -> Checks {
    Checks {
        high_reg_wb: after_if(c.high_reg_wb, high, differs),
        sub_fn_delivery: after_if(c.sub_fn_delivery, high && t.sub_fn && l.rd_hi(), differs),
        load_delivery: after_if(c.load_delivery, high && t.load && l.rd_hi(), differs),
        ..c
    }
}

/// The outcome is written to its register, and the tiles that do not hold it are corrected.
pub open spec fn registers_written(
    idx: V2CpuIndices,
    l: PipelineLatch,
    auth: Authority,
    t: Granted,
    o: AluOutcome,
    injected: bool,
    alu_gate: bool,
    arch: ArchState,
    g: Grid,
    checks: Checks,
    arch1: ArchState,
    h: Grid,
    checks1: Checks,
    mask: u16,
) -> bool {
    &&& arch1.regs@ == regs_after(arch.regs@, l, o)
    &&& arch1 == (ArchState { regs: arch1.regs, ..arch })
    &&& h == with_write_back(
        idx,
        arch.regs@,
        arch1.regs@,
        l,
        high_capture_trusted(l, t, injected),
        g,
    )
    &&& mask == mask_of(
        changed_flags(
            idx,
            arch.regs@,
            arch1.regs@,
            l,
            high_capture_trusted(l, t, injected),
            g,
        ),
        16,
    )
    &&& checks1 == high_checks(
        l,
        t,
        high_capture_trusted(l, t, injected),
        with_regs(
            idx,
            arch1.regs@,
            8,
            g,
        ).values[idx.reg_indices@[l.rd_eff()] as int] != arch1.regs@[l.rd_eff()],
        low_checks(
            idx,
            arch1.regs@,
            l,
            auth,
            t,
            alu_gate,
            g,
            checks,
        ),
    )
}

/// Write the registers back after the clock edge. Returns the mask of those that changed.
///
/// Whatever the tiles captured, software and tiles hold the instruction's registers
/// afterwards: a trusted capture is only compared and corrected.
pub fn write_back_registers(
    idx: &V2CpuIndices,
    sim: &mut Simulation,
    arch: &mut ArchState,
    l: &PipelineLatch,
    auth: &Authority,
    t: &Granted,
    o: &AluOutcome,
    injected: bool,
    alu_gate: bool,
    checks: &mut Checks,
) -> (mask: u16)
    requires
        old(sim).wf(),
        idx.fits_commit(old(sim).len()),
        old(checks).reg_capture.room(8),
        old(checks).reg_wb.room(1),
        old(checks).sub_fn_delivery.room(2),
        old(checks).load_delivery.room(2),
        old(checks).high_reg_wb.room(1),
    ensures
        registers_written(
            *idx,
            *l,
            *auth,
            *t,
            *o,
            injected,
            alu_gate,
            *old(arch),
            old(sim)@,
            *old(checks),
            *final(arch),
            final(sim)@,
            *final(checks),
            mask,
        ),
        final(sim).wf(),
        final(sim).len() == old(sim).len(),
{
    let rd: usize = l.get_rd_eff();
    let before: [u64; 16] = arch.regs;
    if o.writes_reg {
        arch.regs[rd] = o.result;
    }
    let after: [u64; 16] = arch.regs;
    let high: bool = (t.high_reg_wb || injected) && l.get_rd_hi();
    let ghost g = sim@;
    let ghost flags = changed_flags(*idx, before@, after@, *l, high, g);
    let low: u16 = write_back_low(
        idx,
        sim,
        &before,
        &after,
        l,
        auth,
        t,
        alu_gate,
        checks,
        Ghost(high),
    );
    let mut mask: u16 = low;
    let at: usize = idx.reg_indices[rd];
    let differs: bool = sim.get_logic_value_by_idx(at) != after[rd];
    let changed: bool = after[rd] != before[rd];
    record_if(&mut checks.high_reg_wb, high, differs);
    record_if(&mut checks.sub_fn_delivery, high && t.sub_fn, differs);
    record_if(&mut checks.load_delivery, high && t.load, differs);
    if rd >= 8 {
        let ghost s0 = sim@;
        if changed || (high && differs) {
            mask = mask | (1u16 << (rd as u16));
        }
        if (changed && !high) || (high && differs) {
            sim.set_logic_value_by_idx(at, after[rd]);
        } else if high {
            assert(s0.values.update(at as int, after@[rd as int]) =~= s0.values);
        }
    }
    proof {
        lemma_high_mask(flags, low, rd as int);
    }
    mask
}

/// With only register `rd` possibly changed in the upper bank, the mask gains at most its bit.
proof fn lemma_high_mask(flags: Seq<bool>, low: u16, rd: int)
    requires
        flags.len() == 16,
        0 <= rd < 16,
        low == mask_of(flags, 8),
        forall|i: int| 8 <= i < 16 && i != rd ==> !#[trigger] flags[i],
    ensures
        mask_of(flags, 16) == if rd >= 8 && flags[rd] {
            low | (1u16 << (rd as u16))
        } else {
            low
        },
{
    lemma_quiet_mask(flags, 8, if rd >= 8 {
        rd
    } else {
        16
    });
    if rd >= 8 {
        lemma_quiet_mask(flags, rd + 1, 16);
    }
}

proof fn lemma_quiet_mask(flags: Seq<bool>, a: int, b: int)
    requires
        0 <= a <= b <= flags.len(),
        forall|i: int| a <= i < b ==> !#[trigger] flags[i],
    ensures
        mask_of(flags, b as nat) == mask_of(flags, a as nat),
    decreases b,
{
    if a < b {
        lemma_quiet_mask(flags, a, b - 1);
        assert(!flags[b - 1]);
    }
}

/// How many of the first `n` memory tiles differ from the scratchpad.
pub open spec fn ram_differences(idx: V2CpuIndices, ram: Seq<u64>, n: nat, g: Grid) -> nat
    decreases n,
{
    if n == 0 {
        0
    } else {
        ram_differences(idx, ram, (n - 1) as nat, g) + if g.values[idx.ram_indices@[n - 1] as int]
            != ram[n - 1] {
            1nat
        } else {
            0nat
        }
    }
}

/// The counters after the memory tiles are compared with the scratchpad, where that is done.
pub open spec fn ram_checks(
    idx: V2CpuIndices,
    ram: Seq<u64>,
    auth: Authority,
    opcode: u8,
    g: Grid,
    checks: Checks,
) -> Checks {
    let d = ram_differences(idx, ram, 128, g);
    if auth.ram_writeback {
        Checks {
            ram_wb: CheckCounter {
                checks: (checks.ram_wb.checks + 128) as u64,
                mismatches: (checks.ram_wb.mismatches + d) as u64,
            },
            ram_wb_store_mismatches: if is_store(opcode) {
                (checks.ram_wb_store_mismatches + d) as u64
            } else {
                checks.ram_wb_store_mismatches
            },
            ram_wb_nonstore_mismatches: if is_store(opcode) {
                checks.ram_wb_nonstore_mismatches
            } else {
                (checks.ram_wb_nonstore_mismatches + d) as u64
            },
            ..checks
        }
    } else {
        checks
    }
}

/// Compare the memory tiles with the scratchpad, where the tiles are trusted to store.
pub fn compare_ram(
    idx: &V2CpuIndices,
    sim: &Simulation,
    ram: &[u64; 128],
    auth: &Authority,
    opcode: u8,
    checks: &mut Checks,
)
    requires
        sim.wf(),
        idx.fits_commit(sim.len()),
        old(checks).ram_wb.room(128),
        old(checks).ram_wb_store_mismatches + 128 <= u64::MAX,
        old(checks).ram_wb_nonstore_mismatches + 128 <= u64::MAX,
    ensures
        *final(checks) == ram_checks(*idx, ram@, *auth, opcode, sim@, *old(checks)),
{
    if !auth.ram_writeback {
        return;
    }
    let mut d: u64 = 0;
    let mut i: usize = 0;
    while i < 128
        invariant
            i <= 128,
            sim.wf(),
            idx.fits_commit(sim.len()),
            d == ram_differences(*idx, ram@, i as nat, sim@),
            d <= i,
        decreases 128 - i,
    {
        if sim.get_logic_value_by_idx(idx.ram_indices[i]) != ram[i] {
            d = d + 1;
        }
        i = i + 1;
    }
    checks.ram_wb.checks = checks.ram_wb.checks + 128;
    checks.ram_wb.mismatches = checks.ram_wb.mismatches + d;
    if opcode == 0x17 || opcode == 0x19 {
        checks.ram_wb_store_mismatches = checks.ram_wb_store_mismatches + d;
    } else {
        checks.ram_wb_nonstore_mismatches = checks.ram_wb_nonstore_mismatches + d;
    }
}

/// The first eight memory tiles.
pub fn snapshot_bank0(idx: &V2CpuIndices, sim: &Simulation) -> (r: [u64; 8])
    requires
        sim.wf(),
        idx.fits_commit(sim.len()),
    ensures
        forall|i: int|
            0 <= i < 8 ==> #[trigger] r@[i] == sim@.values[idx.ram_indices@[i] as int],
{
    let mut r: [u64; 8] = [0u64; 8];
    let mut i: usize = 0;
    while i < 8
        invariant
            i <= 8,
            sim.wf(),
            idx.fits_commit(sim.len()),
            forall|k: int|
                0 <= k < i ==> #[trigger] r@[k] == sim@.values[idx.ram_indices@[k] as int],
        decreases 8 - i,
    {
        r[i] = sim.get_logic_value_by_idx(idx.ram_indices[i]);
        i = i + 1;
    }
    r
}

/// The tiles are trusted to have captured the flags.
pub open spec fn flag_capture_trusted(auth: Authority, t: Granted) -> bool {
    auth.flag_writeback && (t.alu || t.wb_path || t.high_reg_wb || t.compare_flag || t.sub_fn_flag
        || t.load)
}

/// The grid with the two flag tiles set.
pub open spec fn with_flags(idx: V2CpuIndices, z: bool, c: bool, g: Grid) -> Grid {
    g.put(idx.flag_z_idx as int, level(z)).put(idx.flag_c_idx as int, level(c))
}

/// The flag tiles hold the outcome's flags where the instruction writes flags; a trusted capture
/// is checked and corrected.
pub open spec fn flags_written(
    idx: V2CpuIndices,
    opcode: u8,
    auth: Authority,
    t: Granted,
    o: AluOutcome,
    g: Grid,
    checks: Checks,
    h: Grid,
    checks1: Checks,
) -> bool {
    let trusted = writes_flags(opcode) && flag_capture_trusted(auth, t);
    let z_bad = (g.values[idx.flag_z_idx as int] != 0) != o.flag_z;
    let c_bad = (g.values[idx.flag_c_idx as int] != 0) != o.flag_c;
    &&& h == if writes_flags(opcode) && !(trusted && !z_bad && !c_bad) {
        with_flags(idx, o.flag_z, o.flag_c, g)
    } else {
        g
    }
    &&& checks1 == (Checks {
        flag_wb: after_if(checks.flag_wb, trusted, z_bad || c_bad),
        flag_z_mismatches: if trusted && z_bad {
            (checks.flag_z_mismatches + 1) as u64
        } else {
            checks.flag_z_mismatches
        },
        flag_c_mismatches: if trusted && c_bad {
            (checks.flag_c_mismatches + 1) as u64
        } else {
            checks.flag_c_mismatches
        },
        ..checks
    })
}

/// Write the flags back after the clock edge. A trusted capture is compared, and overwritten
/// only where it differs.
pub fn write_back_flags(
    idx: &V2CpuIndices,
    sim: &mut Simulation,
    arch: &mut ArchState,
    opcode: u8,
    auth: &Authority,
    t: &Granted,
    o: &AluOutcome,
    checks: &mut Checks,
)
    requires
        old(sim).wf(),
        idx.fits_commit(old(sim).len()),
        old(checks).flag_wb.room(1),
        old(checks).flag_z_mismatches < u64::MAX,
        old(checks).flag_c_mismatches < u64::MAX,
    ensures
        *final(arch) == (ArchState { flag_z: o.flag_z, flag_c: o.flag_c, ..*old(arch) }),
        flags_written(
            *idx,
            opcode,
            *auth,
            *t,
            *o,
            old(sim)@,
            *old(checks),
            final(sim)@,
            *final(checks),
        ),
        final(sim).wf(),
        final(sim).len() == old(sim).len(),
{
    arch.flag_z = o.flag_z;
    arch.flag_c = o.flag_c;
    if opcode_writes_flags(opcode) {
        let trusted: bool = auth.flag_writeback && (t.alu || t.wb_path || t.high_reg_wb
            || t.compare_flag || t.sub_fn_flag || t.load);
        let mut overwrite: bool = true;
        if trusted {
            let z_bad: bool = (sim.get_logic_value_by_idx(idx.flag_z_idx) != 0) != o.flag_z;
            let c_bad: bool = (sim.get_logic_value_by_idx(idx.flag_c_idx) != 0) != o.flag_c;
            checks.flag_wb.record(z_bad || c_bad);
            if z_bad {
                checks.flag_z_mismatches = checks.flag_z_mismatches + 1;
            }
            if c_bad {
                checks.flag_c_mismatches = checks.flag_c_mismatches + 1;
            }
            overwrite = z_bad || c_bad;
        }
        if overwrite {
            sim.set_logic_value_by_idx(idx.flag_z_idx, drive_level(o.flag_z));
            sim.set_logic_value_by_idx(idx.flag_c_idx, drive_level(o.flag_c));
        }
    }
}

/// After a flag-writing instruction the flag tiles agree with the software flags, whatever they
/// captured.
pub proof fn law_flag_tiles_agree(
    idx: V2CpuIndices,
    g: Grid,
    o: AluOutcome,
    trusted: bool,
)
    requires
        idx.fits_commit(g.values.len()),
        idx.flag_z_idx != idx.flag_c_idx,
    ensures
        ({
            let z_bad = (g.values[idx.flag_z_idx as int] != 0) != o.flag_z;
            let c_bad = (g.values[idx.flag_c_idx as int] != 0) != o.flag_c;
            let after = if !(trusted && !z_bad && !c_bad) {
                with_flags(idx, o.flag_z, o.flag_c, g)
            } else {
                g
            };
            &&& (after.values[idx.flag_z_idx as int] != 0) == o.flag_z
            &&& (after.values[idx.flag_c_idx as int] != 0) == o.flag_c
        }),
{
}

/// After the write-back every lower register tile holds its register, and so does the
/// destination's tile, when register tiles are pairwise different.
pub proof fn law_register_tiles_agree(
    idx: V2CpuIndices,
    before: Seq<u64>,
    after: Seq<u64>,
    l: PipelineLatch,
    high: bool,
    g: Grid,
    i: int,
)
    requires
        idx.fits_commit(g.values.len()),
        forall|a: int, b: int|
            0 <= a < b < 16 ==> #[trigger] idx.reg_indices@[a] != #[trigger] idx.reg_indices@[b],
        0 <= i < 16,
        i < 8 || (i == l.rd_eff() && (high || after[i] != before[i])),
    ensures
        with_write_back(idx, before, after, l, high, g).values[idx.reg_indices@[i] as int]
            == after[i],
{
    lemma_regs_written(idx, after, 8, g);
    if i < 8 {
        assert(with_regs(idx, after, 8, g).values[idx.reg_indices@[i] as int] == after[i]);
    }
}

proof fn lemma_regs_written(idx: V2CpuIndices, regs: Seq<u64>, n: nat, g: Grid)
    requires
        n <= 8,
        idx.fits_commit(g.values.len()),
        forall|a: int, b: int|
            0 <= a < b < 16 ==> #[trigger] idx.reg_indices@[a] != #[trigger] idx.reg_indices@[b],
    ensures
        with_regs(idx, regs, n, g).values.len() == g.values.len(),
        forall|i: int|
            0 <= i < n ==> with_regs(idx, regs, n, g).values[#[trigger] idx.reg_indices@[i] as int]
                == regs[i],
    decreases n,
{
    if n > 0 {
        lemma_regs_written(idx, regs, (n - 1) as nat, g);
    }
}

} // verus!
