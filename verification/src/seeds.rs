//! Seed tiles: where the settles of the pipeline start from.
use vstd::prelude::*;

use crate::decode_partition::{increasing, sorted_tiles};
use crate::layout::V2CpuIndices;
use crate::simulation::{all_below, lists};

verus! {

/// Append tiles to a list.
fn push_tiles(out: &mut Vec<u32>, tiles: &[usize])
    requires
        all_below(tiles@, 0x1_0000_0000),
    ensures
        forall|t: u32| #[trigger]
            final(out)@.contains(t) <==> (old(out)@.contains(t) || lists(tiles@, t as int)),
{
    let mut i: usize = 0;
    while i < tiles.len()
        invariant
            i <= tiles@.len(),
            all_below(tiles@, 0x1_0000_0000),
            forall|t: u32| #[trigger]
                out@.contains(t) <==> (old(out)@.contains(t) || lists(
                    tiles@.take(i as int),
                    t as int,
                )),
        decreases tiles@.len() - i,
    {
        let ghost before = out@;
        assert(tiles@[i as int] < 0x1_0000_0000);
        let tile: u32 = tiles[i] as u32;
        out.push(tile);
        proof {
            assert forall|t: u32| #[trigger] out@.contains(t) <==> (old(out)@.contains(t) || lists(
                tiles@.take(i + 1),
                t as int,
            )) by {
                crate::simulation::lemma_lists_next(tiles@, i as int, t as int);
                lemma_push_contains(before, tile, t);
                assert(before.contains(t) <==> (old(out)@.contains(t) || lists(
                    tiles@.take(i as int),
                    t as int,
                )));
            }
        }
        i = i + 1;
    }
    assert(tiles@.take(i as int) =~= tiles@);
}

proof fn lemma_push_contains(s: Seq<u32>, x: u32, t: u32)
    ensures
        s.push(x).contains(t) <==> (s.contains(t) || t == x),
{
    if s.contains(t) {
        let k = choose|k: int| 0 <= k < s.len() && s[k] == t;
        assert(s.push(x)[k] == t);
    }
    if t == x {
        assert(s.push(x)[s.len() as int] == t);
    }
    if s.push(x).contains(t) && t != x {
        let k = choose|k: int| 0 <= k < s.push(x).len() && s.push(x)[k] == t;
        assert(s[k] == t);
    }
}

/// Append one tile to a list.
fn push_tile(out: &mut Vec<u32>, tile: usize)
    requires
        tile < 0x1_0000_0000,
    ensures
        forall|t: u32| #[trigger]
            final(out)@.contains(t) <==> (old(out)@.contains(t) || t == tile),
{
    let ghost before = out@;
    out.push(tile as u32);
    proof {
        assert forall|t: u32| #[trigger] out@.contains(t) <==> (before.contains(t) || t == tile) by {
            lemma_push_contains(before, tile as u32, t);
        }
    }
}

/// The tiles of a list but tile zero, each once, in increasing order.
fn sorted_seeds(tiles: &Vec<u32>) -> (r: Vec<u32>)
    ensures
        increasing(r@),
        forall|t: u32| #[trigger] r@.contains(t) <==> (t != 0 && tiles@.contains(t)),
{
    let all: Vec<u32> = sorted_tiles(tiles);
    let mut r: Vec<u32> = Vec::new();
    let mut i: usize = 0;
    while i < all.len()
        invariant
            i <= all@.len(),
            increasing(all@),
            increasing(r@),
            forall|k: int| 0 <= k < r@.len() && i < all@.len() ==> #[trigger] r@[k] < all@[i as int],
            forall|t: u32| #[trigger]
                r@.contains(t) <==> (t != 0 && all@.take(i as int).contains(t)),
        decreases all@.len() - i,
    {
        let ghost before = r@;
        let t0: u32 = all[i];
        if t0 != 0 {
            r.push(t0);
        }
        proof {
            assert forall|t: u32| #[trigger] r@.contains(t) <==> (t != 0 && all@.take(
                i + 1,
            ).contains(t)) by {
                lemma_push_contains(before, t0, t);
                lemma_push_contains(all@.take(i as int), t0, t);
                assert(all@.take(i + 1) =~= all@.take(i as int).push(t0));
                assert(before.contains(t) <==> (t != 0 && all@.take(i as int).contains(t)));
            }
            if i + 1 < all@.len() {
                assert(all@[i as int] < all@[i + 1]);
            }
        }
        i = i + 1;
    }
    assert(all@.take(i as int) =~= all@);
    r
}

/// The tile belongs to the data of a register from `from` on.
pub open spec fn is_reg_data(idx: V2CpuIndices, from: int, t: int) -> bool {
    exists|r: int|
        from <= r < 16 && lists(#[trigger] idx.pipeline_reg_data_dirty_indices@[r]@, t)
}

/// The tile is one that the fetch marks or injects whatever registers changed.
pub open spec fn is_fetch_seed(idx: V2CpuIndices, t: int) -> bool {
    ||| lists(idx.pipeline_backbone_dirty_indices@, t)
    ||| lists(idx.rom_selected_indices@, t)
    ||| lists(idx.high_tree_a_dirty_indices@, t)
    ||| lists(idx.high_tree_b_dirty_indices@, t)
    ||| lists(idx.top_mux_a_dirty_indices@, t)
    ||| lists(idx.top_mux_b_dirty_indices@, t)
    ||| lists(idx.via_decode_inversion_dirty@, t)
    ||| lists(idx.high_tree_a_sel_const_indices@, t)
    ||| lists(idx.high_tree_b_sel_const_indices@, t)
    ||| lists(idx.upper_bank_dirty_indices@, t)
    ||| lists(idx.high_tree_a_data_const_indices@, t)
    ||| lists(idx.high_tree_b_data_const_indices@, t)
    ||| t == idx.top_mux_a_sel_const_idx
    ||| t == idx.top_mux_b_sel_const_idx
    ||| lists(idx.super_mux_inject_indices@, t)
    ||| lists(idx.super_mux_inject_right_indices@, t)
}

fn fetch_seeds(idx: &V2CpuIndices, from: usize, Ghost(n): Ghost<nat>) -> (r: Vec<u32>)
    requires
        idx.fits_fetch(n),
        n <= 0x1_0000_0000,
        from <= 16,
    ensures
        increasing(r@),
        forall|t: u32| #[trigger]
            r@.contains(t) <==> (t != 0 && (is_fetch_seed(*idx, t as int) || is_reg_data(
                *idx,
                from as int,
                t as int,
            ))),
{
    let mut all: Vec<u32> = Vec::new();
    push_tiles(&mut all, idx.pipeline_backbone_dirty_indices.as_slice());
    let ghost base = all@;
    let mut reg: usize = from;
    while reg < 16
        invariant
            from <= reg <= 16,
            idx.fits_fetch(n),
            n <= 0x1_0000_0000,
            forall|t: u32| #[trigger]
                all@.contains(t) <==> (base.contains(t) || exists|r: int|
                    from <= r < reg && lists(
                        #[trigger] idx.pipeline_reg_data_dirty_indices@[r]@,
                        t as int,
                    )),
        decreases 16 - reg,
    {
        let ghost before = all@;
        assert(all_below(idx.pipeline_reg_data_dirty_indices@[reg as int]@, n));
        push_tiles(&mut all, idx.pipeline_reg_data_dirty_indices[reg].as_slice());
        proof {
            assert forall|t: u32| #[trigger] all@.contains(t) <==> (base.contains(t) || exists|
                r: int,
            |
                from <= r < reg + 1 && lists(
                    #[trigger] idx.pipeline_reg_data_dirty_indices@[r]@,
                    t as int,
                )) by {
                assert(before.contains(t) <==> (base.contains(t) || exists|r: int|
                    from <= r < reg && lists(
                        #[trigger] idx.pipeline_reg_data_dirty_indices@[r]@,
                        t as int,
                    )));
            }
        }
        reg = reg + 1;
    }
    assert(all_below(idx.rom_selected_indices@, n));
    assert(all_below(idx.super_mux_inject_indices@, n));
    assert(all_below(idx.super_mux_inject_right_indices@, n));
    push_tiles(&mut all, idx.rom_selected_indices.as_slice());
    push_tiles(&mut all, idx.high_tree_a_dirty_indices.as_slice());
    push_tiles(&mut all, idx.high_tree_b_dirty_indices.as_slice());
    push_tiles(&mut all, idx.top_mux_a_dirty_indices.as_slice());
    push_tiles(&mut all, idx.top_mux_b_dirty_indices.as_slice());
    push_tiles(&mut all, idx.via_decode_inversion_dirty.as_slice());
    push_tiles(&mut all, idx.high_tree_a_sel_const_indices.as_slice());
    push_tiles(&mut all, idx.high_tree_b_sel_const_indices.as_slice());
    push_tiles(&mut all, idx.upper_bank_dirty_indices.as_slice());
    push_tiles(&mut all, idx.high_tree_a_data_const_indices.as_slice());
    push_tiles(&mut all, idx.high_tree_b_data_const_indices.as_slice());
    push_tile(&mut all, idx.top_mux_a_sel_const_idx);
    push_tile(&mut all, idx.top_mux_b_sel_const_idx);
    push_tiles(&mut all, idx.super_mux_inject_indices.as_slice());
    push_tiles(&mut all, idx.super_mux_inject_right_indices.as_slice());
    sorted_seeds(&all)
}

/// Every tile that a fetch may mark or inject: the tiles any settle of the fetch starts from.
pub fn all_settle_dirty_seeds(idx: &V2CpuIndices, tile_count: usize) -> (r: Vec<u32>)
    requires
        idx.fits_fetch(tile_count as nat),
        tile_count <= 0x1_0000_0000,
    ensures
        increasing(r@),
        forall|t: u32| #[trigger]
            r@.contains(t) <==> (t != 0 && (is_fetch_seed(*idx, t as int) || is_reg_data(
                *idx,
                0,
                t as int,
            ))),
{
    fetch_seeds(idx, 0, Ghost(tile_count as nat))
}

/// The seed tiles that do not depend on which lower registers changed.
pub fn backbone_settle_seeds(idx: &V2CpuIndices, tile_count: usize) -> (r: Vec<u32>)
    requires
        idx.fits_fetch(tile_count as nat),
        tile_count <= 0x1_0000_0000,
    ensures
        increasing(r@),
        forall|t: u32| #[trigger]
            r@.contains(t) <==> (t != 0 && (is_fetch_seed(*idx, t as int) || is_reg_data(
                *idx,
                8,
                t as int,
            ))),
{
    fetch_seeds(idx, 8, Ghost(tile_count as nat))
}

/// A seed of the backbone is a seed of the whole settle.
pub proof fn law_backbone_seeds_are_settle_seeds(idx: V2CpuIndices, t: int)
    ensures
        is_fetch_seed(idx, t) || is_reg_data(idx, 8, t) ==> is_fetch_seed(idx, t) || is_reg_data(
            idx,
            0,
            t,
        ),
{
}

/// The tiles of a list but tile zero, in order.
pub open spec fn nonzero_tiles(tiles: Seq<usize>) -> Seq<u32>
    decreases tiles.len(),
{
    if tiles.len() == 0 {
        Seq::empty()
    } else {
        let init = nonzero_tiles(tiles.drop_last());
        if tiles.last() != 0 {
            init.push(tiles.last() as u32)
        } else {
            init
        }
    }
}

fn push_nonzero(out: &mut Vec<u32>, tiles: &[usize])
    requires
        all_below(tiles@, 0x1_0000_0000),
    ensures
        final(out)@ == old(out)@ + nonzero_tiles(tiles@),
{
    let mut i: usize = 0;
    assert(out@ =~= old(out)@ + nonzero_tiles(tiles@.take(0)));
    while i < tiles.len()
        invariant
            i <= tiles@.len(),
            all_below(tiles@, 0x1_0000_0000),
            out@ == old(out)@ + nonzero_tiles(tiles@.take(i as int)),
        decreases tiles@.len() - i,
    {
        assert(tiles@[i as int] < 0x1_0000_0000);
        assert(tiles@.take(i + 1).drop_last() =~= tiles@.take(i as int));
        if tiles[i] != 0 {
            out.push(tiles[i] as u32);
        }
        i = i + 1;
        assert(out@ =~= old(out)@ + nonzero_tiles(tiles@.take(i as int)));
    }
    assert(tiles@.take(i as int) =~= tiles@);
}

/// The tiles that the fetch reads between its cone and its injections: the word selectors and
/// the bank selectors behind them.
pub fn collect_stage_f_output_seeds(idx: &V2CpuIndices, tile_count: usize) -> (r: Vec<u32>)
    requires
        idx.fits_fetch(tile_count as nat),
        tile_count <= 0x1_0000_0000,
    ensures
        r@ == nonzero_tiles(idx.rom_selected_indices@) + nonzero_tiles(idx.final_mux_indices@)
            + nonzero_tiles(idx.bank47_mux_indices@),
{
    let mut all: Vec<u32> = Vec::new();
    let ghost n = tile_count as nat;
    assert(all_below(idx.rom_selected_indices@, n));
    assert(all_below(idx.final_mux_indices@, n));
    assert(all_below(idx.bank47_mux_indices@, n));
    push_nonzero(&mut all, idx.rom_selected_indices.as_slice());
    push_nonzero(&mut all, idx.final_mux_indices.as_slice());
    push_nonzero(&mut all, idx.bank47_mux_indices.as_slice());
    assert(all@ =~= nonzero_tiles(idx.rom_selected_indices@) + nonzero_tiles(
        idx.final_mux_indices@,
    ) + nonzero_tiles(idx.bank47_mux_indices@));
    all
}

/// The tiles that an operand injection starts from: the trunk ends and what is marked behind
/// them.
pub fn trunk_inject_seeds(idx: &V2CpuIndices, tile_count: usize) -> (r: Vec<u32>)
    requires
        idx.fits_execute(tile_count as nat),
        tile_count <= 0x1_0000_0000,
    ensures
        increasing(r@),
        forall|t: u32| #[trigger]
            r@.contains(t) <==> (t == idx.alu_a_trunk_terminal_idx || t
                == idx.alu_b_trunk_terminal_idx || lists(idx.alu_a_downstream_dirty@, t as int)
                || lists(idx.alu_b_downstream_dirty@, t as int)),
{
    let mut all: Vec<u32> = Vec::new();
    push_tile(&mut all, idx.alu_a_trunk_terminal_idx);
    push_tile(&mut all, idx.alu_b_trunk_terminal_idx);
    push_tiles(&mut all, idx.alu_a_downstream_dirty.as_slice());
    push_tiles(&mut all, idx.alu_b_downstream_dirty.as_slice());
    sorted_tiles(&all)
}

/// The tiles that carry register state from one tick to the next: the register tiles, the
/// injection points of the upper registers, and the flags.
pub fn execute_externals(idx: &V2CpuIndices, tile_count: usize) -> (r: Vec<u32>)
    requires
        idx.fits(tile_count as nat),
        tile_count <= 0x1_0000_0000,
    ensures
        forall|t: u32| #[trigger]
            r@.contains(t) <==> (lists(idx.high_tree_a_data_const_indices@, t as int) || lists(
                idx.high_tree_b_data_const_indices@,
                t as int,
            ) || lists(idx.reg_indices@, t as int) || t == idx.flag_z_idx || t == idx.flag_c_idx),
{
    let mut all: Vec<u32> = Vec::new();
    let ghost n = tile_count as nat;
    assert(all_below(idx.reg_indices@, n));
    push_tiles(&mut all, idx.high_tree_a_data_const_indices.as_slice());
    push_tiles(&mut all, idx.high_tree_b_data_const_indices.as_slice());
    push_tiles(&mut all, idx.reg_indices.as_slice());
    push_tile(&mut all, idx.flag_z_idx);
    push_tile(&mut all, idx.flag_c_idx);
    all
}

} // verus!
