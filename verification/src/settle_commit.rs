//! The commit settle: what is marked and held constant for it, how it runs, and how everything
//! held is put back.
use vstd::prelude::*;

use crate::alu::{is_load, is_store, is_sub_function, opcode_writes_flags, sub_function, writes_flags,
    AluOutcome};
use crate::execute::StoreState;
use crate::latch::PipelineLatch;
use crate::layout::V2CpuIndices;
use crate::levels::{bit_levels, levels_of, pack_levels, packed};
use crate::operand::{Injected, Injection};
use crate::simulation::{Grid, Simulation, TileType};
use crate::state::Authority;

verus! {

/// The grid with everything marked that the commit settle starts from.
pub open spec fn with_commit_marks(
    idx: V2CpuIndices,
    opcode: u8,
    reg_wb: bool,
    g: Grid,
) -> Grid {
    let a = g.mark_all(idx.commit_dirty_indices@);
    let b = if reg_wb {
        a.mark_all(idx.reg_wb_dirty_indices@)
    } else {
        a
    };
    if writes_flags(opcode) {
        b.mark_all(idx.flag_commit_dirty_indices@)
    } else {
        b
    }
}

/// Mark what the commit settle starts from. The write-back path stays marked for the tick that
/// writes a register and the tick after it.
pub fn mark_commit(
    idx: &V2CpuIndices,
    sim: &mut Simulation,
    opcode: u8,
    writes_reg: bool,
    countdown: &mut u8,
)
    requires
        old(sim).wf(),
        idx.fits_commit(old(sim).len()),
    ensures
        ({
            let c: u8 = if writes_reg {
                2
            } else {
                *old(countdown)
            };
            &&& final(sim)@ == with_commit_marks(*idx, opcode, c > 0, old(sim)@)
            &&& *final(countdown) == if c > 0 {
                (c - 1) as u8
            } else {
                0
            }
        }),
        final(sim).wf(),
        final(sim).len() == old(sim).len(),
{
    sim.mark_all(&idx.commit_dirty_indices);
    if writes_reg {
        *countdown = 2;
    }
    if *countdown > 0 {
        sim.mark_all(&idx.reg_wb_dirty_indices);
        *countdown = *countdown - 1;
    }
    if opcode_writes_flags(opcode) {
        sim.mark_all(&idx.flag_commit_dirty_indices);
    }
}

/// The result goes to an upper register through its merge selector.
pub open spec fn high_reg_injected(l: PipelineLatch, auth: Authority, o: AluOutcome) -> bool {
    auth.high_reg_writeback && l.rd_hi() && o.writes_reg
}

/// The grid with an upper register's data and write enable set.
pub open spec fn with_high_reg(
    idx: V2CpuIndices,
    slot: int,
    value: u64,
    enable: u64,
    g: Grid,
) -> Grid {
    g.put(idx.high_reg_wb_data_const_indices@[slot] as int, value).put(
        idx.high_reg_we_const_indices@[slot] as int,
        enable,
    )
}

/// Send the result to an upper register through its merge selector, where that is trusted.
pub fn inject_high_reg(
    idx: &V2CpuIndices,
    sim: &mut Simulation,
    l: &PipelineLatch,
    auth: &Authority,
    o: &AluOutcome,
) -> (r: bool)
    requires
        old(sim).wf(),
        idx.fits_commit(old(sim).len()),
    ensures
        r == high_reg_injected(*l, *auth, *o),
        final(sim)@ == if r {
            with_high_reg(*idx, (l.rd % 8) as int, o.result, u64::MAX, old(sim)@).mark(
                idx.high_reg_merge_mux_indices@[(l.rd % 8) as int] as int,
            )
        } else {
            old(sim)@
        },
        final(sim).wf(),
        final(sim).len() == old(sim).len(),
{
    if auth.high_reg_writeback && l.get_rd_hi() && o.writes_reg {
        let slot: usize = (l.rd % 8) as usize;
        sim.set_logic_value_by_idx(idx.high_reg_wb_data_const_indices[slot], o.result);
        sim.set_logic_value_by_idx(idx.high_reg_we_const_indices[slot], u64::MAX);
        sim.mark_dirty(idx.high_reg_merge_mux_indices[slot]);
        true
    } else {
        false
    }
}

/// What the tiles that are held constant for the commit were.
#[derive(Clone, Copy, Debug, PartialEq, Eq, Structural)]
pub struct CommitHolds {
    pub mul: Option<TileType>,
    pub wb_data: Option<TileType>,
    pub we_mask: Option<TileType>,
    pub ram_gate: Option<TileType>,
    pub flag_we: Option<TileType>,
}

impl CommitHolds {
    /// Some tile is held.
    pub open spec fn any(self) -> bool {
        ||| self.mul is Some
        ||| self.wb_data is Some
        ||| self.we_mask is Some
        ||| self.ram_gate is Some
        ||| self.flag_we is Some
    }

    /// Some tile is held.
    pub fn get_any(&self) -> (r: bool)
        ensures
            r == self.any(),
    {
        self.mul.is_some() || self.wb_data.is_some() || self.we_mask.is_some()
            || self.ram_gate.is_some() || self.flag_we.is_some()
    }
}

/// The word has the opcode of additions, and of the low five bits of its extension half only the
/// first is set: the one that puts the destination in the upper bank. A multiplier block delivers
/// the product of such a word, where its low byte makes it a multiplication.
pub open spec fn mul_selected(l: PipelineLatch) -> bool {
    l.opcode == 0x04 && l.ir_ext % 32 == 1
}

/// A multiplier block delivers the product.
pub open spec fn mul_delivered(l: PipelineLatch, auth: Authority, block: bool) -> bool {
    block && auth.mul && is_sub_function(l.opcode, l.ir_low) && mul_selected(l)
}

/// The value that is held on the write-back bus, if any: a wide load-immediate's constant, or
/// a result that the tile ALU does not compute and that is delivered through the bus.
pub open spec fn wb_hold(l: PipelineLatch, auth: Authority, o: AluOutcome, block: bool) -> Option<
    u64,
> {
    let sub = is_sub_function(l.opcode, l.ir_low);
    let ldi_wide = l.opcode == 0x03 && l.wide() && auth.wb_data;
    let sub_fn = sub && !mul_delivered(l, auth, block) && auth.sub_fn_delivery && !l.rd_hi();
    let load = is_load(l.opcode) && auth.load_delivery && !l.rd_hi();
    let flag_only = l.rd_hi() && ((sub && auth.sub_fn_flag) || (is_load(l.opcode)
        && auth.load_delivery));
    let mflr = l.opcode == 0x02 && l.ir_low % 32 == 5 && !l.rd_hi();
    if !o.writes_reg {
        None
    } else if ldi_wide {
        Some(l.imm())
    } else if sub_fn || load || flag_only || mflr {
        Some(o.result)
    } else {
        None
    }
}

/// The register write enables are held at zero: the destination is an upper register, whose
/// low bits the tiles' decoder would take for a lower one.
pub open spec fn we_held(l: PipelineLatch, auth: Authority, o: AluOutcome) -> bool {
    l.rd_hi() && o.writes_reg && auth.we_mask
}

/// The memory write gate is held at the row select.
pub open spec fn ram_gate_held(l: PipelineLatch, auth: Authority, ram_gate: bool) -> bool {
    auth.ram_writeback && ram_gate && is_store(l.opcode)
}

/// The flag write enables are held at zero-flag only, for a multiplication.
pub open spec fn flag_we_held(l: PipelineLatch, auth: Authority) -> bool {
    l.opcode == 0x04 && is_sub_function(l.opcode, l.ir_low) && auth.sub_fn_flag
        && auth.flag_we_mask
}

/// The grid with the write-back bus held, if it is to be.
pub open spec fn held_wb(idx: V2CpuIndices, value: Option<u64>, g: Grid) -> Grid {
    match value {
        Some(v) => g.hold(idx.wb_data_mux_idx as int, v),
        None => g,
    }
}

/// The grid with a tile held, if it is to be.
pub open spec fn held_if(c: bool, i: int, v: u64, g: Grid) -> Grid {
    if c {
        g.hold(i, v)
    } else {
        g
    }
}

/// What a tile is, if it is to be held.
pub open spec fn kind_if(c: bool, i: int, g: Grid) -> Option<TileType> {
    if c {
        Some(g.kinds[i])
    } else {
        None
    }
}

/// The decisions that the holds rest on.
pub struct HoldPlan {
    pub mul: bool,
    pub wb: Option<u64>,
    pub we: bool,
    pub ram: bool,
    pub flag: bool,
}

/// What is held for an instruction.
pub open spec fn hold_plan(
    l: PipelineLatch,
    auth: Authority,
    o: AluOutcome,
    ram_gate: bool,
    block: bool,
) -> HoldPlan {
    HoldPlan {
        mul: mul_delivered(l, auth, block),
        wb: wb_hold(l, auth, o, block),
        we: we_held(l, auth, o),
        ram: ram_gate_held(l, auth, ram_gate),
        flag: flag_we_held(l, auth),
    }
}

/// What is held for an instruction.
pub fn plan_holds(
    l: &PipelineLatch,
    auth: &Authority,
    o: &AluOutcome,
    ram_gate: bool,
    block: bool,
) -> (p: HoldPlan)
    ensures
        p == hold_plan(*l, *auth, *o, ram_gate, block),
{
    let sub: bool = sub_function(l.opcode, l.ir_low);
    let rd_hi: bool = l.get_rd_hi();
    let load_op: bool = l.opcode == 0x16 || l.opcode == 0x18;
    let mul: bool = block && auth.mul && sub && l.opcode == 0x04 && l.ir_ext % 32 == 1;
    let ldi_wide: bool = l.opcode == 0x03 && l.get_wide() && auth.wb_data;
    let sub_fn: bool = sub && !mul && auth.sub_fn_delivery && !rd_hi;
    let load: bool = load_op && auth.load_delivery && !rd_hi;
    let flag_only: bool = rd_hi && ((sub && auth.sub_fn_flag) || (load_op && auth.load_delivery));
    let mflr: bool = l.opcode == 0x02 && l.ir_low % 32 == 5 && !rd_hi;
    let wb: Option<u64> = if !o.writes_reg {
        None
    } else if ldi_wide {
        Some(l.get_imm())
    } else if sub_fn || load || flag_only || mflr {
        Some(o.result)
    } else {
        None
    };
    HoldPlan {
        mul,
        wb,
        we: rd_hi && o.writes_reg && auth.we_mask,
        ram: auth.ram_writeback && ram_gate && (l.opcode == 0x17 || l.opcode == 0x19),
        flag: l.opcode == 0x04 && sub && auth.sub_fn_flag && auth.flag_we_mask,
    }
}

/// The grid with the product held, then the write-back bus.
pub open spec fn held_bus(idx: V2CpuIndices, p: HoldPlan, product: u64, g: Grid) -> Grid {
    let a = if p.mul {
        g.hold(idx.wb_data_mux_idx as int, product).mark(idx.alu_a_trunk_terminal_idx as int).mark(
            idx.alu_b_trunk_terminal_idx as int,
        )
    } else {
        g
    };
    held_wb(idx, p.wb, a)
}

/// The grid with everything held.
pub open spec fn held_all(idx: V2CpuIndices, p: HoldPlan, product: u64, g: Grid) -> Grid {
    let b = held_bus(idx, p, product, g);
    let c = held_if(p.we, idx.we_mask_const_idx as int, 0, b);
    let d = held_if(
        p.ram,
        idx.ram_write_gate_idx as int,
        c.values[idx.ram_write_decode_idx as int],
        c,
    );
    held_if(p.flag, idx.flag_we_mask_const_idx as int, 1, d)
}

/// What the held tiles were, each at the moment it was held.
pub open spec fn holds_of(idx: V2CpuIndices, p: HoldPlan, product: u64, g: Grid) -> CommitHolds {
    let a = if p.mul {
        g.hold(idx.wb_data_mux_idx as int, product).mark(idx.alu_a_trunk_terminal_idx as int).mark(
            idx.alu_b_trunk_terminal_idx as int,
        )
    } else {
        g
    };
    let b = held_wb(idx, p.wb, a);
    let c = held_if(p.we, idx.we_mask_const_idx as int, 0, b);
    let d = held_if(
        p.ram,
        idx.ram_write_gate_idx as int,
        c.values[idx.ram_write_decode_idx as int],
        c,
    );
    CommitHolds {
        mul: kind_if(p.mul, idx.wb_data_mux_idx as int, g),
        wb_data: kind_if(p.wb is Some, idx.wb_data_mux_idx as int, a),
        we_mask: kind_if(p.we, idx.we_mask_const_idx as int, b),
        ram_gate: kind_if(p.ram, idx.ram_write_gate_idx as int, c),
        flag_we: kind_if(p.flag, idx.flag_we_mask_const_idx as int, d),
    }
}

/// The levels a multiplier block takes: the low bytes of the two operands on their trunks.
pub fn mul_block_inputs(idx: &V2CpuIndices, sim: &Simulation) -> (r: Vec<u64>)
    requires
        sim.wf(),
        idx.fits_execute(sim.len()),
    ensures
        r@ == levels_of(sim@.values[idx.alu_a_trunk_terminal_idx as int], 8) + levels_of(
            sim@.values[idx.alu_b_trunk_terminal_idx as int],
            8,
        ),
{
    let mut r: Vec<u64> = bit_levels(sim.get_logic_value_by_idx(idx.alu_a_trunk_terminal_idx), 8);
    let b: Vec<u64> = bit_levels(sim.get_logic_value_by_idx(idx.alu_b_trunk_terminal_idx), 8);
    r.extend_from_slice(b.as_slice());
    assert(r@ =~= levels_of(sim@.values[idx.alu_a_trunk_terminal_idx as int], 8) + levels_of(
        sim@.values[idx.alu_b_trunk_terminal_idx as int],
        8,
    ));
    r
}

/// Hold what the commit settle must not recompute. `product` is what a multiplier block gave,
/// where there is one.
pub fn hold_for_commit(
    idx: &V2CpuIndices,
    sim: &mut Simulation,
    l: &PipelineLatch,
    auth: &Authority,
    o: &AluOutcome,
    ram_gate: bool,
    product: Option<&Vec<u64>>,
) -> (h: CommitHolds)
    requires
        old(sim).wf(),
        idx.fits(old(sim).len()),
        product matches Some(v) ==> v@.len() <= 64,
    ensures
        ({
            let p = hold_plan(*l, *auth, *o, ram_gate, product is Some);
            let w = match product {
                Some(v) => packed(v@, 0, v@.len()),
                None => 0,
            };
            &&& final(sim)@ == held_all(*idx, p, w, old(sim)@)
            &&& h == holds_of(*idx, p, w, old(sim)@)
        }),
        final(sim).wf(),
        final(sim).len() == old(sim).len(),
{
    let p: HoldPlan = plan_holds(l, auth, o, ram_gate, product.is_some());
    let word: u64 = match product {
        Some(v) => pack_levels(v, 0),
        None => 0,
    };
    let mut h: CommitHolds = CommitHolds {
        mul: None,
        wb_data: None,
        we_mask: None,
        ram_gate: None,
        flag_we: None,
    };
    if p.mul {
        h.mul = Some(sim.hold_const(idx.wb_data_mux_idx, word));
        sim.mark_dirty(idx.alu_a_trunk_terminal_idx);
        sim.mark_dirty(idx.alu_b_trunk_terminal_idx);
    }
    match p.wb {
        Some(v) => {
            h.wb_data = Some(sim.hold_const(idx.wb_data_mux_idx, v));
        },
        None => {},
    }
    if p.we {
        h.we_mask = Some(sim.hold_const(idx.we_mask_const_idx, 0));
    }
    if p.ram {
        let onehot: u64 = sim.get_logic_value_by_idx(idx.ram_write_decode_idx);
        h.ram_gate = Some(sim.hold_const(idx.ram_write_gate_idx, onehot));
    }
    if p.flag {
        h.flag_we = Some(sim.hold_const(idx.flag_we_mask_const_idx, 1));
    }
    h
}

/// The grid with a tile turned back into what it was, if it was held.
pub open spec fn freed(was: Option<TileType>, i: int, g: Grid) -> Grid {
    match was {
        Some(t) => g.retype(i, t),
        None => g,
    }
}

fn free(sim: &mut Simulation, i: usize, was: Option<TileType>)
    requires
        old(sim).wf(),
        i < old(sim).len(),
    ensures
        final(sim)@ == freed(was, i as int, old(sim)@),
        final(sim).wf(),
        final(sim).len() == old(sim).len(),
{
    match was {
        Some(t) => {
            sim.set_tile(i, t);
        },
        None => {},
    }
}

/// The grid with the write enables freed.
pub open spec fn enables_freed(idx: V2CpuIndices, h: CommitHolds, g: Grid) -> Grid {
    freed(
        h.flag_we,
        idx.flag_we_mask_const_idx as int,
        freed(h.we_mask, idx.we_mask_const_idx as int, g),
    )
}

/// Free the write enables, right after the commit settle.
pub fn free_enables(idx: &V2CpuIndices, sim: &mut Simulation, h: &CommitHolds)
    requires
        old(sim).wf(),
        idx.fits_commit(old(sim).len()),
    ensures
        final(sim)@ == enables_freed(*idx, *h, old(sim)@),
        final(sim).wf(),
        final(sim).len() == old(sim).len(),
{
    free(sim, idx.we_mask_const_idx, h.we_mask);
    free(sim, idx.flag_we_mask_const_idx, h.flag_we);
}

/// The grid with the write-back bus freed.
pub open spec fn bus_freed(idx: V2CpuIndices, h: CommitHolds, g: Grid) -> Grid {
    freed(
        h.mul,
        idx.wb_data_mux_idx as int,
        freed(h.wb_data, idx.wb_data_mux_idx as int, g),
    )
}

/// Free the write-back bus, once no settle follows before the clock edge.
pub fn free_bus(idx: &V2CpuIndices, sim: &mut Simulation, h: &CommitHolds)
    requires
        old(sim).wf(),
        idx.fits_commit(old(sim).len()),
    ensures
        final(sim)@ == bus_freed(*idx, *h, old(sim)@),
        final(sim).wf(),
        final(sim).len() == old(sim).len(),
{
    free(sim, idx.wb_data_mux_idx, h.wb_data);
    free(sim, idx.wb_data_mux_idx, h.mul);
}

/// The tile that a store held, and what it was.
pub open spec fn via_freed(st: StoreState, g: Grid) -> Grid {
    match st.saved_via {
        Some(v) => g.retype(v.0 as int, v.1),
        None => g,
    }
}

/// The grid with the operand selector freed after an arithmetic shift.
pub open spec fn selector_freed(idx: V2CpuIndices, inj: Injected, g: Grid) -> Grid {
    match inj.kind {
        Injection::Sra => g.retype(idx.alu_r_mux_output_indices@[7] as int, inj.selector_was),
        _ => g,
    }
}

/// The grid once everything that waited for the clock edge is put back.
pub open spec fn clock_freed(
    idx: V2CpuIndices,
    h: CommitHolds,
    st: StoreState,
    inj: Injected,
    high: Option<int>,
    g: Grid,
) -> Grid {
    let a = match high {
        Some(slot) => with_high_reg(idx, slot, 0, 0, g),
        None => g,
    };
    let b = freed(h.ram_gate, idx.ram_write_gate_idx as int, a);
    let c = via_freed(st, b);
    let d = selector_freed(idx, inj, c);
    if st.inject_up_idx != 0 {
        d.put(st.inject_up_idx as int, 0)
    } else {
        d
    }
}

/// Put back everything that had to last through the clock edge.
pub fn free_after_clock(
    idx: &V2CpuIndices,
    sim: &mut Simulation,
    l: &PipelineLatch,
    h: &CommitHolds,
    st: &mut StoreState,
    inj: &Injected,
    high_reg: bool,
)
    requires
        old(sim).wf(),
        idx.fits(old(sim).len()),
        old(st).saved_via matches Some(v) ==> v.0 < old(sim).len(),
        old(st).inject_up_idx < old(sim).len(),
    ensures
        final(sim)@ == clock_freed(
            *idx,
            *h,
            *old(st),
            *inj,
            if high_reg {
                Some((l.rd % 8) as int)
            } else {
                None
            },
            old(sim)@,
        ),
        *final(st) == (StoreState { saved_via: None, inject_up_idx: 0, ..*old(st) }),
        final(sim).wf(),
        final(sim).len() == old(sim).len(),
{
    if high_reg {
        let slot: usize = (l.rd % 8) as usize;
        sim.set_logic_value_by_idx(idx.high_reg_wb_data_const_indices[slot], 0);
        sim.set_logic_value_by_idx(idx.high_reg_we_const_indices[slot], 0);
    }
    free(sim, idx.ram_write_gate_idx, h.ram_gate);
    match st.saved_via {
        Some(v) => {
            sim.set_tile(v.0, v.1);
            st.saved_via = None;
        },
        None => {},
    }
    match inj.kind {
        Injection::Sra => {
            sim.set_tile(idx.alu_r_mux_output_indices[7], inj.selector_was);
        },
        _ => {},
    }
    if st.inject_up_idx != 0 {
        sim.set_logic_value_by_idx(st.inject_up_idx, 0);
        st.inject_up_idx = 0;
    }
}

/// The tiles that are held for a commit are four different tiles.
pub open spec fn held_tiles_differ(idx: V2CpuIndices) -> bool {
    &&& idx.wb_data_mux_idx != idx.we_mask_const_idx
    &&& idx.wb_data_mux_idx != idx.ram_write_gate_idx
    &&& idx.wb_data_mux_idx != idx.flag_we_mask_const_idx
    &&& idx.we_mask_const_idx != idx.ram_write_gate_idx
    &&& idx.we_mask_const_idx != idx.flag_we_mask_const_idx
    &&& idx.ram_write_gate_idx != idx.flag_we_mask_const_idx
}

/// Whatever is held for a commit, freeing the enables, then the bus, then the memory gate
/// turns every tile back into what it was.
pub proof fn law_held_tiles_are_freed(idx: V2CpuIndices, p: HoldPlan, product: u64, g: Grid)
    requires
        idx.fits_commit(g.kinds.len()),
        held_tiles_differ(idx),
    ensures
        freed(
            holds_of(idx, p, product, g).ram_gate,
            idx.ram_write_gate_idx as int,
            bus_freed(
                idx,
                holds_of(idx, p, product, g),
                enables_freed(idx, holds_of(idx, p, product, g), held_all(idx, p, product, g)),
            ),
        ).kinds == g.kinds,
{
    let h = holds_of(idx, p, product, g);
    let done = freed(
        h.ram_gate,
        idx.ram_write_gate_idx as int,
        bus_freed(idx, h, enables_freed(idx, h, held_all(idx, p, product, g))),
    );
    assert(done.kinds =~= g.kinds);
}

/// How the commit settle runs.
#[derive(Clone, Copy, Debug, PartialEq, Eq, Structural)]
pub enum CommitPath {
    /// By the schedule: only marked slots are visited.
    Scheduled,
    /// By the compact operations.
    Compact,
    /// By the levelized order of tiles.
    Levelized,
}

/// How the commit settle runs: schedules and compact operations were built for the tiles as
/// they were, so they are out while a tile is held or once they are stale.
pub open spec fn commit_path(schedule: bool, ops: nat, held: bool, stale: bool) -> CommitPath {
    if held || stale {
        CommitPath::Levelized
    } else if schedule {
        CommitPath::Scheduled
    } else if ops > 0 {
        CommitPath::Compact
    } else {
        CommitPath::Levelized
    }
}

/// How the commit settle runs.
pub fn choose_commit_path(schedule: bool, ops: usize, h: &CommitHolds, stale: bool) -> (p:
    CommitPath)
    ensures
        p == commit_path(schedule, ops as nat, h.any(), stale),
{
    if h.get_any() || stale {
        CommitPath::Levelized
    } else if schedule {
        CommitPath::Scheduled
    } else if ops > 0 {
        CommitPath::Compact
    } else {
        CommitPath::Levelized
    }
}

/// How many operations a commit settle that evaluated `evals` tiles went through.
pub fn commit_scan(path: CommitPath, evals: u32, ops: usize, order: usize) -> (n: u64)
    ensures
        n == match path {
            CommitPath::Scheduled => evals as int,
            _ => if ops >= order {
                ops as int
            } else {
                order as int
            },
        },
{
    match path {
        CommitPath::Scheduled => evals as u64,
        _ => if ops >= order {
            ops as u64
        } else {
            order as u64
        },
    }
}

} // verus!
