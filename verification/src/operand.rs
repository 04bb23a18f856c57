//! Operand injection: feeding the tile ALU what its own routes do not carry, and reading its
//! result.
use vstd::prelude::*;

use crate::alu::{is_sub_function, opcode_uses_rs, sra, sub_function, uses_rs};
use crate::gates::CheckCounter;
use crate::latch::PipelineLatch;
use crate::layout::V2CpuIndices;
use crate::cop::{drive_level, level};
use crate::levels::{bit_level, level_of, pack_levels, packed};
use crate::simulation::{Grid, Simulation, TileType};
use crate::state::Authority;

verus! {

/// What has to be injected before the tile ALU holds the result of an instruction.
#[derive(Clone, Copy, Debug, PartialEq, Eq, Structural)]
pub enum Injection {
    Nothing,
    /// A 16-bit immediate, at the output of operand selector `n`.
    WideImm(usize),
    /// The shift amount of an arithmetic shift, at the output of the last operand selector.
    Sra,
    /// Upper-bank operands, at the ends of the operand trunks.
    Trunk,
}

/// An injection, with what is needed to undo it.
#[derive(Clone, Copy, Debug)]
pub struct Injected {
    pub kind: Injection,
    /// What the two trunk ends held, where they may have been overwritten.
    pub trunk: Option<(u64, u64)>,
    /// What the tile that now holds a shift amount was.
    pub selector_was: TileType,
}

/// The instruction uses a register of the upper bank.
pub open spec fn uses_upper(l: PipelineLatch) -> bool {
    l.rd_hi() || l.rs_hi()
}

/// The instruction is an immediate ALU operation with a wide immediate.
pub open spec fn is_wide_alu(l: PipelineLatch) -> bool {
    l.wide() && 0x10 <= l.opcode <= 0x14
}

/// The instruction is an arithmetic shift.
pub open spec fn is_sra(opcode: u8, imm8: u8) -> bool {
    opcode == 0x0E && (imm8 / 8) % 2 == 1
}

/// The instruction is an arithmetic shift.
pub fn arithmetic_shift(opcode: u8, imm8: u8) -> (r: bool)
    ensures
        r == is_sra(opcode, imm8),
{
    opcode == 0x0E && (imm8 / 8) % 2 == 1
}

/// What an instruction needs injected.
pub open spec fn injection_of(alu_gate: bool, auth: Authority, l: PipelineLatch) -> Injection {
    let base = auth.covers(l.opcode) && !is_sub_function(l.opcode, l.ir_low);
    if !alu_gate {
        Injection::Nothing
    } else if is_wide_alu(l) && base {
        Injection::WideImm((l.opcode - 0x10) as usize)
    } else if is_sra(l.opcode, l.ir_low) && auth.sra && auth.covers(0x0E) {
        Injection::Sra
    } else if uses_upper(l) && base && !is_wide_alu(l) {
        Injection::Trunk
    } else {
        Injection::Nothing
    }
}

/// The grid with the destination operand on its trunk, if it is in the upper bank.
pub open spec fn with_trunk_a(idx: V2CpuIndices, l: PipelineLatch, g: Grid) -> Grid {
    if l.rd_hi() {
        g.put(idx.alu_a_trunk_terminal_idx as int, l.phys_top_a).mark_all(
            idx.alu_a_downstream_dirty@,
        )
    } else {
        g
    }
}

/// The grid with the source operand on its trunk, if it is used and in the upper bank.
pub open spec fn with_trunk_b(idx: V2CpuIndices, l: PipelineLatch, g: Grid) -> Grid {
    if l.rs_hi() && uses_rs(l.opcode) {
        g.put(idx.alu_b_trunk_terminal_idx as int, l.phys_top_b).mark_all(
            idx.alu_b_downstream_dirty@,
        )
    } else {
        g
    }
}

/// The grid with the injection's value at the operand selector.
pub open spec fn with_selector(
    idx: V2CpuIndices,
    l: PipelineLatch,
    k: Injection,
    g: Grid,
) -> Grid {
    match k {
        Injection::WideImm(col) => g.put(
            idx.alu_r_mux_output_indices@[col as int] as int,
            l.imm(),
        ).mark(idx.alu_r_mux_output_indices@[col as int] - 1),
        Injection::Sra => g.retype(
            idx.alu_r_mux_output_indices@[7] as int,
            TileType::Const,
        ).put(idx.alu_r_mux_output_indices@[7] as int, (l.ir_low % 8) as u64).mark(
            idx.alu_r_mux_output_indices@[7] - 1,
        ),
        _ => g,
    }
}

/// The grid after an injection.
pub open spec fn with_injection(
    idx: V2CpuIndices,
    l: PipelineLatch,
    k: Injection,
    g: Grid,
) -> Grid {
    let s = with_selector(idx, l, k, g);
    match k {
        Injection::Nothing => g,
        Injection::Trunk => with_trunk_b(idx, l, with_trunk_a(idx, l, s)),
        _ => with_trunk_a(idx, l, s),
    }
}

/// What the trunk ends held before the injection, where it may overwrite them.
pub open spec fn saved_trunk(
    idx: V2CpuIndices,
    l: PipelineLatch,
    k: Injection,
    g: Grid,
) -> Option<(u64, u64)> {
    let s = with_selector(idx, l, k, g);
    if k == Injection::Nothing || !uses_upper(l) {
        None
    } else {
        Some(
            (
                s.values[idx.alu_a_trunk_terminal_idx as int],
                s.values[idx.alu_b_trunk_terminal_idx as int],
            ),
        )
    }
}

fn inject_trunk_a(idx: &V2CpuIndices, sim: &mut Simulation, l: &PipelineLatch)
    requires
        old(sim).wf(),
        idx.fits_execute(old(sim).len()),
    ensures
        final(sim)@ == with_trunk_a(*idx, *l, old(sim)@),
        final(sim).wf(),
        final(sim).len() == old(sim).len(),
{
    if l.get_rd_hi() {
        sim.set_logic_value_by_idx(idx.alu_a_trunk_terminal_idx, l.phys_top_a);
        sim.mark_all(&idx.alu_a_downstream_dirty);
    }
}

fn inject_trunk_b(idx: &V2CpuIndices, sim: &mut Simulation, l: &PipelineLatch)
    requires
        old(sim).wf(),
        idx.fits_execute(old(sim).len()),
    ensures
        final(sim)@ == with_trunk_b(*idx, *l, old(sim)@),
        final(sim).wf(),
        final(sim).len() == old(sim).len(),
{
    if l.get_rs_hi() && opcode_uses_rs(l.opcode) {
        sim.set_logic_value_by_idx(idx.alu_b_trunk_terminal_idx, l.phys_top_b);
        sim.mark_all(&idx.alu_b_downstream_dirty);
    }
}

/// What an instruction needs injected.
pub fn choose_injection(alu_gate: bool, auth: &Authority, l: &PipelineLatch) -> (k: Injection)
    requires
        l.opcode < 32,
    ensures
        k == injection_of(alu_gate, *auth, *l),
{
    let base: bool = auth.get_covers(l.opcode) && !sub_function(l.opcode, l.ir_low);
    let wide_alu: bool = l.get_wide() && 0x10 <= l.opcode && l.opcode <= 0x14;
    if !alu_gate {
        Injection::Nothing
    } else if wide_alu && base {
        Injection::WideImm((l.opcode - 0x10) as usize)
    } else if arithmetic_shift(l.opcode, l.ir_low) && auth.sra && auth.get_covers(0x0E) {
        Injection::Sra
    } else if (l.get_rd_hi() || l.get_rs_hi()) && base && !wide_alu {
        Injection::Trunk
    } else {
        Injection::Nothing
    }
}

/// Inject what an instruction needs, and count the settle it causes.
///
/// The caller settles the pipeline afterwards, unless nothing was injected.
pub fn inject_operands(
    idx: &V2CpuIndices,
    sim: &mut Simulation,
    alu_gate: bool,
    auth: &Authority,
    l: &PipelineLatch,
    reasons: &mut [u64; 7],
) -> (r: Injected)
    requires
        old(sim).wf(),
        idx.fits_execute(old(sim).len()),
        l.opcode < 32,
        forall|i: int| 4 <= i < 7 ==> #[trigger] old(reasons)@[i] < u64::MAX,
    ensures
        r.kind == injection_of(alu_gate, *auth, *l),
        final(sim)@ == with_injection(*idx, *l, r.kind, old(sim)@),
        r.trunk == saved_trunk(*idx, *l, r.kind, old(sim)@),
        r.kind == Injection::Sra ==> r.selector_was
            == old(sim)@.kinds[idx.alu_r_mux_output_indices@[7] as int],
        final(reasons)@ == match r.kind {
            Injection::Nothing => old(reasons)@,
            Injection::WideImm(_) => old(reasons)@.update(4, (old(reasons)@[4] + 1) as u64),
            Injection::Sra => old(reasons)@.update(5, (old(reasons)@[5] + 1) as u64),
            Injection::Trunk => old(reasons)@.update(6, (old(reasons)@[6] + 1) as u64),
        },
        final(sim).wf(),
        final(sim).len() == old(sim).len(),
{
    let kind: Injection = choose_injection(alu_gate, auth, l);
    let mut selector_was: TileType = TileType::Wire;
    match kind {
        Injection::Nothing => {
            return Injected { kind, trunk: None, selector_was };
        },
        Injection::WideImm(col) => {
            let at: usize = idx.alu_r_mux_output_indices[col];
            sim.set_logic_value_by_idx(at, l.get_imm());
            sim.mark_dirty(at - 1);
            reasons[4] = reasons[4] + 1;
        },
        Injection::Sra => {
            let at: usize = idx.alu_r_mux_output_indices[7];
            selector_was = sim.tile_type(at);
            sim.set_tile(at, TileType::Const);
            sim.set_logic_value_by_idx(at, (l.ir_low % 8) as u64);
            sim.mark_dirty(at - 1);
            reasons[5] = reasons[5] + 1;
        },
        Injection::Trunk => {
            reasons[6] = reasons[6] + 1;
        },
    }
    let mut trunk: Option<(u64, u64)> = None;
    if l.get_rd_hi() || l.get_rs_hi() {
        trunk =
        Some(
            (
                sim.get_logic_value_by_idx(idx.alu_a_trunk_terminal_idx),
                sim.get_logic_value_by_idx(idx.alu_b_trunk_terminal_idx),
            ),
        );
        inject_trunk_a(idx, sim, l);
        match kind {
            Injection::Trunk => inject_trunk_b(idx, sim, l),
            _ => {},
        }
    }
    Injected { kind, trunk, selector_was }
}

/// The grid with the trunk ends holding what was saved.
pub open spec fn with_trunk_restored(
    idx: V2CpuIndices,
    trunk: Option<(u64, u64)>,
    g: Grid,
) -> Grid {
    match trunk {
        Some(t) => g.put(idx.alu_a_trunk_terminal_idx as int, t.0).put(
            idx.alu_b_trunk_terminal_idx as int,
            t.1,
        ),
        None => g,
    }
}

/// Put back what the trunk ends held before an injection.
pub fn restore_trunk(idx: &V2CpuIndices, sim: &mut Simulation, inj: &Injected)
    requires
        old(sim).wf(),
        idx.fits_execute(old(sim).len()),
    ensures
        final(sim)@ == with_trunk_restored(*idx, inj.trunk, old(sim)@),
        final(sim).wf(),
        final(sim).len() == old(sim).len(),
{
    match inj.trunk {
        Some(t) => {
            sim.set_logic_value_by_idx(idx.alu_a_trunk_terminal_idx, t.0);
            sim.set_logic_value_by_idx(idx.alu_b_trunk_terminal_idx, t.1);
        },
        None => {},
    }
}

/// After an injection and its undoing, every tile but the operand selector holds what it held
/// before.
pub proof fn law_trunk_is_restored(idx: V2CpuIndices, l: PipelineLatch, k: Injection, g: Grid)
    requires
        idx.fits_execute(g.values.len()),
        k matches Injection::WideImm(col) ==> col < 8,
    ensures
        with_trunk_restored(
            idx,
            saved_trunk(idx, l, k, g),
            with_injection(idx, l, k, g),
        ).values == with_selector(idx, l, k, g).values,
{
    let s = with_selector(idx, l, k, g);
    let done = with_trunk_restored(
        idx,
        saved_trunk(idx, l, k, g),
        with_injection(idx, l, k, g),
    );
    match k {
        Injection::WideImm(col) => {
            assert(idx.alu_r_mux_output_indices@[col as int] < g.values.len());
        },
        Injection::Sra => {
            assert(idx.alu_r_mux_output_indices@[7] < g.values.len());
        },
        _ => {},
    }
    assert(done.values =~= s.values);
}

/// The levels a sign-extension block takes: the sign of the operand and the three bits of the
/// shift amount.
pub open spec fn sra_block_levels(a: u64, imm8: u8) -> Seq<u64> {
    seq![
        level_of(a, 63),
        level(imm8 % 2 == 1),
        level((imm8 / 2) % 2 == 1),
        level((imm8 / 4) % 2 == 1),
    ]
}

/// The levels a sign-extension block takes.
pub fn sra_block_inputs(a: u64, imm8: u8) -> (r: [u64; 4])
    ensures
        r@ == sra_block_levels(a, imm8),
{
    let r: [u64; 4] = [
        bit_level(a, 63),
        drive_level(imm8 % 2 == 1),
        drive_level((imm8 / 2) % 2 == 1),
        drive_level((imm8 / 4) % 2 == 1),
    ];
    assert(r@ =~= sra_block_levels(a, imm8));
    r
}

/// The tile ALU's result: what its output tile holds, with the sign bits that a
/// sign-extension block computed laid over it for an arithmetic shift.
pub open spec fn alu_readback(
    root: u64,
    auth: Authority,
    l: PipelineLatch,
    sign_block: Option<Seq<u64>>,
) -> u64 {
    match sign_block {
        Some(levels) if is_sra(l.opcode, l.ir_low) && auth.sra => root | packed(
            levels,
            57,
            levels.len(),
        ),
        _ => root,
    }
}

/// Read the tile ALU's result.
///
/// `sign_block` is what a sign-extension block gave, where there is one. An overlaid result is
/// checked against the arithmetic shift of the operand.
pub fn read_alu(
    idx: &V2CpuIndices,
    sim: &Simulation,
    alu_gate: bool,
    auth: &Authority,
    l: &PipelineLatch,
    sign_block: Option<&Vec<u64>>,
    counter: &mut CheckCounter,
) -> (r: Option<u64>)
    requires
        sim.wf(),
        idx.fits_execute(sim.len()),
        sign_block matches Some(v) ==> v@.len() <= 7,
        old(counter).room(1),
    ensures
        r == if alu_gate {
            Some(
                alu_readback(
                    sim@.values[idx.wb_alu_root_idx as int],
                    *auth,
                    *l,
                    match sign_block {
                        Some(v) => Some(v@),
                        None => None,
                    },
                ),
            )
        } else {
            None
        },
        *final(counter) == if alu_gate && sign_block is Some && auth.sra && is_sra(
            l.opcode,
            l.ir_low,
        ) {
            old(counter).after(r->0 != sra(l.a, (l.ir_low % 8) as int))
        } else {
            *old(counter)
        },
{
    if !alu_gate {
        return None;
    }
    let root: u64 = sim.get_logic_value_by_idx(idx.wb_alu_root_idx);
    match sign_block {
        Some(levels) => {
            if arithmetic_shift(l.opcode, l.ir_low) && auth.sra {
                let val: u64 = root | pack_levels(levels, 57);
                let expected: u64 = crate::alu::shift_arithmetic(l.a, (l.ir_low % 8) as u64);
                counter.record(val != expected);
                Some(val)
            } else {
                Some(root)
            }
        },
        None => Some(root),
    }
}

/// A logical shift with the sign bits laid over it is the arithmetic shift, when the
/// sign-extension block sets exactly the top `s` bits of a negative operand.
pub proof fn law_overlay_makes_arithmetic_shift(a: u64, s: u64, levels: Seq<u64>)
    requires
        s < 8,
        levels.len() == 7,
        forall|i: int|
            0 <= i < 7 ==> ((#[trigger] levels[i] != 0) <==> (i + s >= 7 && (a >> 63) & 1 == 1)),
    ensures
        (a >> s) | packed(levels, 57, 7) == sra(a, s as int),
{
    reveal_with_fuel(packed, 8);
    let m = packed(levels, 57, 7);
    assert(levels[0] != 0 <==> (s >= 7 && (a >> 63) & 1 == 1));
    assert(levels[1] != 0 <==> (s >= 6 && (a >> 63) & 1 == 1));
    assert(levels[2] != 0 <==> (s >= 5 && (a >> 63) & 1 == 1));
    assert(levels[3] != 0 <==> (s >= 4 && (a >> 63) & 1 == 1));
    assert(levels[4] != 0 <==> (s >= 3 && (a >> 63) & 1 == 1));
    assert(levels[5] != 0 <==> (s >= 2 && (a >> 63) & 1 == 1));
    assert(levels[6] != 0 <==> (s >= 1 && (a >> 63) & 1 == 1));
    lemma_sign_mask(a, s);
    if (a >> 63) & 1 == 1 {
        assert(m == sign_mask(s));
    } else {
        assert(m == 0);
    }
}

/// The top `s` bits, for `s` below eight, bit by bit.
spec fn sign_mask(s: u64) -> u64 {
    let m0: u64 = if s >= 7 {
        0 | (1u64 << 57u64)
    } else {
        0
    };
    let m1: u64 = if s >= 6 {
        m0 | (1u64 << 58u64)
    } else {
        m0
    };
    let m2: u64 = if s >= 5 {
        m1 | (1u64 << 59u64)
    } else {
        m1
    };
    let m3: u64 = if s >= 4 {
        m2 | (1u64 << 60u64)
    } else {
        m2
    };
    let m4: u64 = if s >= 3 {
        m3 | (1u64 << 61u64)
    } else {
        m3
    };
    let m5: u64 = if s >= 2 {
        m4 | (1u64 << 62u64)
    } else {
        m4
    };
    if s >= 1 {
        m5 | (1u64 << 63u64)
    } else {
        m5
    }
}

proof fn lemma_sign_mask(a: u64, s: u64)
    requires
        s < 8,
    ensures
        (a >> 63) & 1 == 1 ==> (a >> s) | sign_mask(s) == sra(a, s as int),
        (a >> 63) & 1 != 1 ==> (a >> s) | 0 == sra(a, s as int),
{
    assert((a >> 63) & 1 == 1 ==> (a >> s) | sign_mask(s) == ((a as i64) >> s) as u64) by (bit_vector)
        requires
            s < 8,
    ;
    assert((a >> 63) & 1 != 1 ==> (a >> s) | 0 == ((a as i64) >> s) as u64) by (bit_vector)
        requires
            s < 8,
    ;
}

} // verus!
