//! The branch step of stage X, and the delivery of branch targets in the upper half of the
//! program.
use vstd::prelude::*;

use crate::branch::{branch_kind, branch_selector, halts};
use crate::cop::{drive_level, level};
use crate::gates::CheckCounter;
use crate::latch::PipelineLatch;
use crate::layout::V2CpuIndices;
use crate::settle_commit::CommitHolds;
use crate::simulation::{tile_at, Grid, Simulation};
use crate::state::{ArchState, Authority};

verus! {

/// Whether a branch is taken, by a block of tiles where there is one and else by the table.
pub open spec fn synth_taken(
    kind: int,
    z: bool,
    c: bool,
    block: Option<u64>,
    table: Seq<bool>,
) -> bool {
    match block {
        Some(v) => v != 0,
        None => table[branch_selector(kind, z, c)],
    }
}

/// Whether a branch is taken, by the table.
pub fn table_taken(table: &[bool; 32], kind: u8, z: bool, c: bool) -> (r: bool)
    requires
        kind < 8,
    ensures
        r == table@[branch_selector(kind as int, z, c)],
{
    let mut sel: usize = kind as usize;
    if z {
        sel = sel + 8;
    }
    if c {
        sel = sel + 16;
    }
    table[sel]
}

/// Whether a branch is taken, by a block of tiles where there is one and else by the table.
pub fn decide_taken(
    table: &[bool; 32],
    kind: u8,
    z: bool,
    c: bool,
    block: Option<u64>,
) -> (r: bool)
    requires
        kind < 8,
    ensures
        r == synth_taken(kind as int, z, c, block, table@),
{
    match block {
        Some(v) => v != 0,
        None => table_taken(table, kind, z, c),
    }
}

/// The instruction branches or halts.
pub open spec fn transfers(ctrl_b: u8) -> bool {
    branch_kind(ctrl_b) != 0 || halts(ctrl_b)
}

/// The grid as the branch settle starts from it: with the synthesized decision in place and
/// its whole path marked, or with the flag routes marked.
pub open spec fn with_branch(
    idx: V2CpuIndices,
    gate: bool,
    ctrl_b: u8,
    taken: bool,
    g: Grid,
) -> Grid {
    if gate {
        g.put(idx.branch_taken_core_idx as int, level(taken)).mark_all(idx.branch_dirty_indices@)
    } else if transfers(ctrl_b) {
        g.mark_all(idx.branch_flag_dirty_indices@)
    } else {
        g
    }
}

/// Prepare the branch settle. Returns whether one is needed.
pub fn prepare_branch(
    idx: &V2CpuIndices,
    sim: &mut Simulation,
    gate: bool,
    ctrl_b: u8,
    taken: bool,
) -> (settle: bool)
    requires
        old(sim).wf(),
        idx.fits_execute(old(sim).len()),
    ensures
        final(sim)@ == with_branch(*idx, gate, ctrl_b, taken, old(sim)@),
        settle == (gate || transfers(ctrl_b)),
        final(sim).wf(),
        final(sim).len() == old(sim).len(),
{
    let moves: bool = ctrl_b % 8 != 0 || (ctrl_b / 32) % 2 == 1;
    if gate {
        sim.set_logic_value_by_idx(idx.branch_taken_core_idx, drive_level(taken));
        sim.mark_all(&idx.branch_dirty_indices);
    } else if moves {
        sim.mark_all(&idx.branch_flag_dirty_indices);
    }
    gate || moves
}

/// After the branch settle: compare the tiles' decision with the table, where the tiles are
/// trusted.
pub fn check_branch_direction(
    idx: &V2CpuIndices,
    sim: &Simulation,
    auth: &Authority,
    table: &[bool; 32],
    ctrl_b: u8,
    z: bool,
    c: bool,
    counter: &mut CheckCounter,
)
    requires
        sim.wf(),
        idx.fits_execute(sim.len()),
        old(counter).room(1),
    ensures
        *final(counter) == if auth.branch && transfers(ctrl_b) {
            old(counter).after(
                (sim@.values[idx.branch_taken_core_idx as int] != 0) != table@[branch_selector(
                    branch_kind(ctrl_b),
                    z,
                    c,
                )],
            )
        } else {
            *old(counter)
        },
{
    if auth.branch && (ctrl_b % 8 != 0 || (ctrl_b / 32) % 2 == 1) {
        let expected: bool = table_taken(table, ctrl_b % 8, z, c);
        let core: bool = sim.get_logic_value_by_idx(idx.branch_taken_core_idx) != 0;
        counter.record(core != expected);
    }
}

/// The link register after an instruction: a call saves the address after its own.
pub open spec fn link_after(l: PipelineLatch, lr: u32, mask: u32) -> u32 {
    if !halts(l.ctrl_b) && branch_kind(l.ctrl_b) == 6 {
        (l.pc & mask).wrapping_add(1) & mask
    } else {
        lr
    }
}

/// Halt and save the return address, as the control byte asks.
pub fn update_control(l: &PipelineLatch, arch: &mut ArchState, mask: u32)
    ensures
        *final(arch) == (ArchState {
            halted: old(arch).halted || halts(l.ctrl_b),
            lr: link_after(*l, old(arch).lr, mask),
            ..*old(arch)
        }),
{
    let halt: bool = (l.ctrl_b / 32) % 2 == 1;
    if halt {
        arch.halted = true;
    } else if l.ctrl_b % 8 == 6 {
        arch.lr = (l.pc & mask).wrapping_add(1) & mask;
    }
}

/// The tiles on the way from the low instruction byte to the branch target selector, in a grid
/// of `w` columns and `h` rows for a CPU at column `ox` and row `oy`.
pub open spec fn target_tiles(w: int, h: int, ox: int, oy: int) -> Seq<int> {
    seq![
        tile_at(w, h, ox + 2, oy + 4, 2),
        tile_at(w, h, ox + 3, oy + 4, 2),
        tile_at(w, h, ox + 4, oy + 4, 2),
        tile_at(w, h, ox + 5, oy + 4, 2),
        tile_at(w, h, ox + 6, oy + 4, 2),
        tile_at(w, h, ox + 7, oy + 4, 2),
        tile_at(w, h, ox + 7, oy + 4, 3),
        tile_at(w, h, ox + 7, oy + 1, 3),
        tile_at(w, h, ox + 7, oy + 2, 3),
        tile_at(w, h, ox + 7, oy + 3, 3),
        tile_at(w, h, ox + 7, oy + 1, 2),
    ]
}

/// The branch target selector.
pub open spec fn target_mux(w: int, h: int, ox: int, oy: int) -> int {
    tile_at(w, h, ox + 6, oy + 1, 2)
}

/// The CPU's corner fits on a grid with at least four layers.
pub open spec fn corner_fits(sim: Simulation, ox: int, oy: int) -> bool {
    &&& ox + 7 < sim.width
    &&& oy + 4 < sim.height
    &&& 4 * (sim.width * sim.height) <= sim.len()
}

/// The tile numbers of a list, as mathematical integers.
pub open spec fn as_ints(list: Seq<usize>) -> Seq<int> {
    Seq::new(list.len(), |i: int| list[i] as int)
}

/// The index of the tile at column `x`, row `y`, layer `z`, among the first four layers.
pub fn tile_index(sim: &Simulation, x: usize, y: usize, z: usize) -> (i: usize)
    requires
        sim.wf(),
        x < sim.width,
        y < sim.height,
        z < 4,
        4 * (sim.width * sim.height) <= sim.len(),
    ensures
        i == tile_at(sim.width as int, sim.height as int, x as int, y as int, z as int),
        i < sim.len(),
{
    let n: usize = sim.tile_count();
    let ghost area = sim.width * sim.height;
    assert(z * area + area <= 4 * area) by (nonlinear_arith)
        requires
            z < 4,
            area >= 0,
    ;
    assert(y * sim.width + x < area) by (nonlinear_arith)
        requires
            y < sim.height,
            x < sim.width,
            area == sim.width * sim.height,
    ;
    assert(0 <= z * area) by (nonlinear_arith)
        requires
            area >= 0,
    ;
    assert(0 <= y * sim.width) by (nonlinear_arith);
    z * (sim.width * sim.height) + y * sim.width + x
}

/// The tiles on the way to the branch target selector.
pub fn target_path(sim: &Simulation, ox: usize, oy: usize) -> (r: Vec<usize>)
    requires
        sim.wf(),
        corner_fits(*sim, ox as int, oy as int),
    ensures
        as_ints(r@) == target_tiles(sim.width as int, sim.height as int, ox as int, oy as int),
        crate::simulation::all_below(r@, sim.len()),
{
    let r: Vec<usize> = vec![
        tile_index(sim, ox + 2, oy + 4, 2),
        tile_index(sim, ox + 3, oy + 4, 2),
        tile_index(sim, ox + 4, oy + 4, 2),
        tile_index(sim, ox + 5, oy + 4, 2),
        tile_index(sim, ox + 6, oy + 4, 2),
        tile_index(sim, ox + 7, oy + 4, 2),
        tile_index(sim, ox + 7, oy + 4, 3),
        tile_index(sim, ox + 7, oy + 1, 3),
        tile_index(sim, ox + 7, oy + 2, 3),
        tile_index(sim, ox + 7, oy + 3, 3),
        tile_index(sim, ox + 7, oy + 1, 2),
    ];
    assert(as_ints(r@) =~= target_tiles(
        sim.width as int,
        sim.height as int,
        ox as int,
        oy as int,
    ));
    r
}

/// The instruction is in the upper half of the program and its decode is trusted to tiles.
pub open spec fn in_upper_half(l: PipelineLatch, auth: Authority) -> bool {
    (l.pc / 64) % 2 == 1 && auth.decode
}

/// The grid with the low instruction byte carried to the branch target selector.
pub open spec fn with_target(g: Grid, w: int, h: int, ox: int, oy: int, v: u64) -> Grid {
    let path = target_tiles(w, h, ox, oy);
    Grid {
        values: Seq::new(
            g.values.len(),
            |i: int|
                if path.contains(i) {
                    v
                } else {
                    g.values[i]
                },
        ),
        ..g
    }.mark(target_mux(w, h, ox, oy))
}

proof fn lemma_lists_ints(list: Seq<usize>, i: int)
    ensures
        crate::simulation::lists(list, i) == as_ints(list).contains(i),
{
    if crate::simulation::lists(list, i) {
        let m = choose|m: int| 0 <= m < list.len() && #[trigger] list[m] == i;
        assert(as_ints(list)[m] == i);
    }
    if as_ints(list).contains(i) {
        let m = choose|m: int| 0 <= m < as_ints(list).len() && as_ints(list)[m] == i;
        assert(list[m] == i);
    }
}

/// Deliver the branch target in the upper half of the program, after the commit settle.
///
/// Where the instruction spine carries the byte, its arrival is checked instead. Returns
/// whether the commit has to settle once more.
pub fn deliver_target(
    sim: &mut Simulation,
    ox: usize,
    oy: usize,
    l: &PipelineLatch,
    auth: &Authority,
    counter: &mut CheckCounter,
) -> (again: bool)
    requires
        old(sim).wf(),
        corner_fits(*old(sim), ox as int, oy as int),
        old(counter).room(1),
    ensures
        again == (in_upper_half(*l, *auth) && !auth.ir_spine),
        final(sim)@ == if again {
            with_target(
                old(sim)@,
                old(sim).width as int,
                old(sim).height as int,
                ox as int,
                oy as int,
                l.ir_low as u64,
            )
        } else {
            old(sim)@
        },
        *final(counter) == if in_upper_half(*l, *auth) && auth.ir_spine {
            old(counter).after(
                old(sim)@.values[tile_at(
                    old(sim).width as int,
                    old(sim).height as int,
                    ox + 7,
                    oy + 1,
                    2,
                )] != l.ir_low,
            )
        } else {
            *old(counter)
        },
        final(sim).wf(),
        final(sim).len() == old(sim).len(),
{
    if (l.pc / 64) % 2 == 1 && auth.decode {
        if auth.ir_spine {
            let at: usize = tile_index(sim, ox + 7, oy + 1, 2);
            let phys: u64 = sim.get_logic_value_by_idx(at);
            counter.record(phys != l.ir_low as u64);
            false
        } else {
            let path: Vec<usize> = target_path(sim, ox, oy);
            let mux: usize = tile_index(sim, ox + 6, oy + 1, 2);
            let ghost g = sim@;
            sim.set_all(&path, l.ir_low as u64);
            sim.mark_dirty(mux);
            proof {
                assert forall|i: int| 0 <= i < g.values.len() implies sim@.values[i]
                    == with_target(
                    g,
                    old(sim).width as int,
                    old(sim).height as int,
                    ox as int,
                    oy as int,
                    l.ir_low as u64,
                ).values[i] by {
                    lemma_lists_ints(path@, i);
                }
                assert(sim@ =~= with_target(
                    g,
                    old(sim).width as int,
                    old(sim).height as int,
                    ox as int,
                    oy as int,
                    l.ir_low as u64,
                ));
            }
            true
        }
    } else {
        false
    }
}

/// Whether the second commit settle may use the compact operations.
pub fn resettle_compact(h: &CommitHolds, compact_ops: usize, stale: bool) -> (r: bool)
    ensures
        r == (compact_ops > 0 && h.wb_data is None && h.ram_gate is None && !stale),
{
    compact_ops > 0 && h.wb_data.is_none() && h.ram_gate.is_none() && !stale
}

} // verus!
