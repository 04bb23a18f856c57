//! Which tiles capture on a clock edge, and which tiles are worth marking.
use vstd::prelude::*;

use crate::bitset::{has_tile, insert_tile_within};
use crate::layout::V2CpuIndices;
use crate::simulation::lists;
use crate::slots::{filter_keep, select};

verus! {

/// Software writes the tile back after every clock edge: a register, a memory word or a flag.
pub open spec fn is_written_back(idx: V2CpuIndices, t: usize) -> bool {
    ||| lists(idx.reg_indices@, t as int)
    ||| lists(idx.ram_indices@, t as int)
    ||| t == idx.flag_z_idx
    ||| t == idx.flag_c_idx
}

/// Which tiles of a list software does not write back.
pub open spec fn captures(idx: V2CpuIndices, list: Seq<usize>) -> Seq<bool> {
    Seq::new(list.len(), |i: int| !is_written_back(idx, list[i]))
}

/// A list names a tile.
fn names(list: &[usize], t: usize) -> (r: bool)
    ensures
        r == lists(list@, t as int),
{
    let mut i: usize = 0;
    while i < list.len()
        invariant
            i <= list@.len(),
            forall|k: int| 0 <= k < i ==> list@[k] != t,
        decreases list@.len() - i,
    {
        if list[i] == t {
            assert(list@[i as int] == t);
            return true;
        }
        i = i + 1;
    }
    false
}

/// Leave out of the clock cache every tile that software writes back after the edge.
pub fn elide_software_writeback_from_clock_cache(idx: &V2CpuIndices, cache: &Vec<usize>) -> (r: Vec<
    usize,
>)
    ensures
        r@ == select(cache@, captures(*idx, cache@)),
{
    let mut keep: Vec<bool> = Vec::new();
    let mut i: usize = 0;
    while i < cache.len()
        invariant
            i <= cache@.len(),
            keep@ == captures(*idx, cache@.take(i as int)),
        decreases cache@.len() - i,
    {
        let t: usize = cache[i];
        let back: bool = names(idx.reg_indices.as_slice(), t) || names(
            idx.ram_indices.as_slice(),
            t,
        ) || t == idx.flag_z_idx || t == idx.flag_c_idx;
        keep.push(!back);
        i = i + 1;
        assert(keep@ =~= captures(*idx, cache@.take(i as int)));
    }
    assert(cache@.take(i as int) =~= cache@);
    filter_keep(cache, &keep)
}

/// The cache with those of the first `n` listed tiles appended that it does not name yet.
pub open spec fn with_missing(cache: Seq<usize>, tiles: Seq<usize>, n: nat) -> Seq<usize>
    decreases n,
{
    if n == 0 {
        cache
    } else {
        let before = with_missing(cache, tiles, (n - 1) as nat);
        if lists(before, tiles[n - 1] as int) {
            before
        } else {
            before.push(tiles[n - 1])
        }
    }
}

/// Append to the cache the listed tiles that it does not name yet.
pub fn add_missing(cache: &mut Vec<usize>, tiles: &[usize])
    ensures
        final(cache)@ == with_missing(old(cache)@, tiles@, tiles@.len()),
{
    let mut i: usize = 0;
    while i < tiles.len()
        invariant
            i <= tiles@.len(),
            cache@ == with_missing(old(cache)@, tiles@, i as nat),
        decreases tiles@.len() - i,
    {
        if !names(cache.as_slice(), tiles[i]) {
            cache.push(tiles[i]);
        }
        i = i + 1;
    }
}

/// A tile is in the cache afterwards exactly when it was before or is listed.
pub proof fn law_missing_tiles_are_added(cache: Seq<usize>, tiles: Seq<usize>, n: nat, t: int)
    requires
        n <= tiles.len(),
    ensures
        lists(with_missing(cache, tiles, n), t) == (lists(cache, t) || lists(
            tiles.take(n as int),
            t,
        )),
    decreases n,
{
    if n > 0 {
        law_missing_tiles_are_added(cache, tiles, (n - 1) as nat, t);
        law_missing_tiles_are_added(cache, tiles, (n - 1) as nat, tiles[n - 1] as int);
        crate::simulation::lemma_lists_next(tiles, n - 1, t);
        let before = with_missing(cache, tiles, (n - 1) as nat);
        let after = before.push(tiles[n - 1]);
        if lists(before, t) {
            let m = choose|m: int| 0 <= m < before.len() && #[trigger] before[m] == t;
            assert(after[m] == t);
        }
        if t == tiles[n - 1] {
            assert(after[before.len() as int] == t);
        }
        if lists(after, t) && t != tiles[n - 1] {
            let m = choose|m: int| 0 <= m < after.len() && #[trigger] after[m] == t;
            assert(before[m] == t);
        }
    }
}

/// A list names a tile at most once.
pub open spec fn single(list: Seq<usize>, t: int) -> bool {
    forall|j: int, k: int|
        0 <= j < list.len() && 0 <= k < list.len() && #[trigger] list[j] == t && #[trigger] list[k]
            == t ==> j == k
}

/// What the cache named stays where it is, and no tile is added that it names already.
pub proof fn law_missing_tiles_are_added_once(
    cache: Seq<usize>,
    tiles: Seq<usize>,
    n: nat,
    t: int,
)
    requires
        n <= tiles.len(),
    ensures
        cache.len() <= with_missing(cache, tiles, n).len(),
        with_missing(cache, tiles, n).take(cache.len() as int) == cache,
        single(cache, t) ==> single(with_missing(cache, tiles, n), t),
    decreases n,
{
    if n == 0 {
        assert(cache.take(cache.len() as int) =~= cache);
    } else {
        law_missing_tiles_are_added_once(cache, tiles, (n - 1) as nat, t);
        let before = with_missing(cache, tiles, (n - 1) as nat);
        let after = with_missing(cache, tiles, n);
        assert(after.take(cache.len() as int) =~= before.take(cache.len() as int));
        if single(cache, t) {
            assert forall|j: int, k: int|
                0 <= j < after.len() && 0 <= k < after.len() && #[trigger] after[j] == t
                    && #[trigger] after[k] == t implies j == k by {
                if after.len() > before.len() && j != k {
                    if j < before.len() {
                        assert(before[j] == t);
                    }
                    if k < before.len() {
                        assert(before[k] == t);
                    }
                    assert(lists(before, t));
                }
            }
        }
    }
}

proof fn lemma_selected_is_kept(v: Seq<usize>, keep: Seq<bool>, t: int)
    requires
        lists(select(v, keep), t),
    ensures
        exists|i: int| 0 <= i < v.len() && #[trigger] v[i] == t && keep[i],
    decreases v.len(),
{
    if v.len() > 0 {
        let s = select(v.drop_last(), keep);
        if lists(s, t) {
            lemma_selected_is_kept(v.drop_last(), keep, t);
            let i = choose|i: int|
                0 <= i < v.drop_last().len() && #[trigger] v.drop_last()[i] == t && keep[i];
            assert(v[i] == t);
        } else {
            let m = choose|m: int|
                0 <= m < select(v, keep).len() && #[trigger] select(v, keep)[m] == t;
            if m < s.len() {
                assert(s[m] == t);
            }
            assert(v[v.len() - 1] == t);
        }
    }
}

/// Once software write-back was elided and the memory tiles were let back, every memory tile is in
/// the clock cache, once.
pub proof fn law_memory_tiles_return_once(idx: V2CpuIndices, cache: Seq<usize>, a: int)
    requires
        0 <= a < 128,
    ensures
        ({
            let after = with_missing(select(cache, captures(idx, cache)), idx.ram_indices@, 128);
            lists(after, idx.ram_indices@[a] as int) && single(after, idx.ram_indices@[a] as int)
        }),
{
    let elided = select(cache, captures(idx, cache));
    let ram = idx.ram_indices@;
    let t = ram[a] as int;
    if lists(elided, t) {
        lemma_selected_is_kept(cache, captures(idx, cache), t);
        let i = choose|i: int|
            0 <= i < cache.len() && #[trigger] cache[i] == t && captures(idx, cache)[i];
        assert(lists(ram, t));
        assert(!is_written_back(idx, cache[i]));
    }
    assert(single(elided, t)) by {
        assert forall|j: int, k: int|
            0 <= j < elided.len() && 0 <= k < elided.len() && #[trigger] elided[j] == t
                && #[trigger] elided[k] == t implies j == k by {
            assert(lists(elided, t));
        }
    }
    law_missing_tiles_are_added_once(elided, ram, 128, t);
    law_missing_tiles_are_added(elided, ram, 128, t);
    assert(ram.take(128)[a] == t);
}

/// Which tiles of a list are no flags.
pub open spec fn no_flag(idx: V2CpuIndices, list: Seq<usize>) -> Seq<bool> {
    Seq::new(list.len(), |i: int| list[i] != idx.flag_z_idx && list[i] != idx.flag_c_idx)
}

/// The clock cache without the flags, for instructions that do not write them.
pub fn rebuild_no_flags_clock_cache(idx: &V2CpuIndices, cache: &Vec<usize>) -> (r: Vec<usize>)
    ensures
        r@ == select(cache@, no_flag(*idx, cache@)),
{
    let mut keep: Vec<bool> = Vec::new();
    let mut i: usize = 0;
    while i < cache.len()
        invariant
            i <= cache@.len(),
            keep@ == no_flag(*idx, cache@.take(i as int)),
        decreases cache@.len() - i,
    {
        keep.push(cache[i] != idx.flag_z_idx && cache[i] != idx.flag_c_idx);
        i = i + 1;
        assert(keep@ =~= no_flag(*idx, cache@.take(i as int)));
    }
    assert(cache@.take(i as int) =~= cache@);
    filter_keep(cache, &keep)
}

/// The first eight memory tiles.
pub open spec fn bank0(idx: V2CpuIndices) -> Seq<usize> {
    idx.ram_indices@.take(8)
}

/// Let the memory tiles capture on the clock edge: all of them join the clock cache. Of the clock
/// scope only the first eight become part, as far as its mask reaches: above each of the others
/// there is a memory tile and no write enable.
pub fn restore_ram_tiles(idx: &V2CpuIndices, cache: &mut Vec<usize>, mask: &mut Vec<u64>)
    ensures
        final(cache)@ == with_missing(old(cache)@, idx.ram_indices@, 128),
        final(mask)@.len() == old(mask)@.len(),
        forall|t: int| #[trigger]
            has_tile(final(mask)@, t) <==> (has_tile(old(mask)@, t) || (lists(bank0(*idx), t) && t
                / 64 < old(mask)@.len())),
{
    let mut i: usize = 0;
    while i < 8
        invariant
            i <= 8,
            *cache == *old(cache),
            mask@.len() == old(mask)@.len(),
            forall|t: int| #[trigger]
                has_tile(mask@, t) <==> (has_tile(old(mask)@, t) || (lists(
                    bank0(*idx).take(i as int),
                    t,
                ) && t / 64 < old(mask)@.len())),
        decreases 8 - i,
    {
        let t0: usize = idx.ram_indices[i];
        let ghost before = mask@;
        insert_tile_within(mask, t0);
        proof {
            assert forall|t: int| #[trigger] has_tile(mask@, t) <==> (has_tile(old(mask)@, t) || (
            lists(bank0(*idx).take(i + 1), t) && t / 64 < old(mask)@.len())) by {
                crate::simulation::lemma_lists_next(bank0(*idx), i as int, t);
                assert(has_tile(before, t) <==> (has_tile(old(mask)@, t) || (lists(
                    bank0(*idx).take(i as int),
                    t,
                ) && t / 64 < old(mask)@.len())));
            }
        }
        i = i + 1;
    }
    assert(bank0(*idx).take(8) =~= bank0(*idx));
    add_missing(cache, idx.ram_indices.as_slice());
}

/// Add tiles to the pipeline's and the clock's scope, as far as the pipeline mask reaches, and
/// to the tiles marked for the upper half of the program.
pub fn extend_scope_masks_for_spine(idx: &mut V2CpuIndices, spine: &Vec<usize>)
    requires
        old(idx).clock_scope_mask@.len() >= old(idx).pipeline_scope_mask@.len(),
    ensures
        ({
            let n = old(idx).pipeline_scope_mask@.len();
            &&& final(idx).pipeline_scope_mask@.len() == n
            &&& final(idx).clock_scope_mask@.len() == old(idx).clock_scope_mask@.len()
            &&& forall|t: int| #[trigger]
                has_tile(final(idx).pipeline_scope_mask@, t) <==> (has_tile(
                    old(idx).pipeline_scope_mask@,
                    t,
                ) || (lists(spine@, t) && t / 64 < n))
            &&& forall|t: int| #[trigger]
                has_tile(final(idx).clock_scope_mask@, t) <==> (has_tile(
                    old(idx).clock_scope_mask@,
                    t,
                ) || (lists(spine@, t) && t / 64 < n))
        }),
        final(idx).upper_bank_dirty_indices@ == old(idx).upper_bank_dirty_indices@ + spine@,
        *final(idx) == (V2CpuIndices {
            pipeline_scope_mask: final(idx).pipeline_scope_mask,
            clock_scope_mask: final(idx).clock_scope_mask,
            upper_bank_dirty_indices: final(idx).upper_bank_dirty_indices,
            ..*old(idx)
        }),
{
    let ghost pipe0 = idx.pipeline_scope_mask@;
    let ghost clock0 = idx.clock_scope_mask@;
    let ghost n = pipe0.len();
    let mut pipe: Vec<u64> = Vec::new();
    let mut clock: Vec<u64> = Vec::new();
    std::mem::swap(&mut pipe, &mut idx.pipeline_scope_mask);
    std::mem::swap(&mut clock, &mut idx.clock_scope_mask);
    let mut i: usize = 0;
    while i < spine.len()
        invariant
            i <= spine@.len(),
            n == pipe0.len(),
            pipe@.len() == n,
            clock@.len() == clock0.len(),
            clock0.len() >= n,
            forall|t: int| #[trigger]
                has_tile(pipe@, t) <==> (has_tile(pipe0, t) || (lists(spine@.take(i as int), t) && t
                    / 64 < n)),
            forall|t: int| #[trigger]
                has_tile(clock@, t) <==> (has_tile(clock0, t) || (lists(spine@.take(i as int), t)
                    && t / 64 < n)),
        decreases spine@.len() - i,
    {
        let t0: usize = spine[i];
        let ghost pipe1 = pipe@;
        let ghost clock1 = clock@;
        if t0 / 64 < pipe.len() {
            insert_tile_within(&mut pipe, t0);
            insert_tile_within(&mut clock, t0);
        }
        proof {
            assert forall|t: int| #[trigger] has_tile(pipe@, t) <==> (has_tile(pipe0, t) || (lists(
                spine@.take(i + 1),
                t,
            ) && t / 64 < n)) by {
                crate::simulation::lemma_lists_next(spine@, i as int, t);
                assert(has_tile(pipe1, t) <==> (has_tile(pipe0, t) || (lists(
                    spine@.take(i as int),
                    t,
                ) && t / 64 < n)));
            }
            assert forall|t: int| #[trigger] has_tile(clock@, t) <==> (has_tile(clock0, t) || (
            lists(spine@.take(i + 1), t) && t / 64 < n)) by {
                crate::simulation::lemma_lists_next(spine@, i as int, t);
                assert(has_tile(clock1, t) <==> (has_tile(clock0, t) || (lists(
                    spine@.take(i as int),
                    t,
                ) && t / 64 < n)));
            }
        }
        i = i + 1;
    }
    assert(spine@.take(i as int) =~= spine@);
    idx.pipeline_scope_mask = pipe;
    idx.clock_scope_mask = clock;
    idx.upper_bank_dirty_indices.extend_from_slice(spine.as_slice());
    assert(idx.upper_bank_dirty_indices@ =~= old(idx).upper_bank_dirty_indices@ + spine@);
}

/// Which tiles of a list are no chain tails. A tile beyond the table is none.
pub open spec fn no_tail(tail: Seq<bool>, list: Seq<usize>) -> Seq<bool> {
    Seq::new(list.len(), |i: int| !(list[i] < tail.len() && tail[list[i] as int]))
}

/// Drop the chain tails from a list: evaluating a chain's head evaluates them too.
pub fn without_tails(list: &Vec<usize>, tail: &Vec<bool>) -> (r: Vec<usize>)
    ensures
        r@ == select(list@, no_tail(tail@, list@)),
{
    let mut keep: Vec<bool> = Vec::new();
    let mut i: usize = 0;
    while i < list.len()
        invariant
            i <= list@.len(),
            keep@ == no_tail(tail@, list@.take(i as int)),
        decreases list@.len() - i,
    {
        let t: usize = list[i];
        keep.push(!(t < tail.len() && tail[t]));
        i = i + 1;
        assert(keep@ =~= no_tail(tail@, list@.take(i as int)));
    }
    assert(list@.take(i as int) =~= list@);
    filter_keep(list, &keep)
}

/// The list without its chain tails.
pub open spec fn trimmed(list: Seq<usize>, tail: Seq<bool>) -> Seq<usize> {
    select(list, no_tail(tail, list))
}

/// Drop the chain tails from every list of tiles to mark.
pub fn filter_dirty_indices_for_chains(idx: &mut V2CpuIndices, tail: &Vec<bool>)
    ensures
        final(idx).pipeline_dirty_indices@ == trimmed(old(idx).pipeline_dirty_indices@, tail@),
        final(idx).pipeline_backbone_dirty_indices@ == trimmed(
            old(idx).pipeline_backbone_dirty_indices@,
            tail@,
        ),
        final(idx).pipeline_reg_data_dirty_indices@.len() == old(
            idx,
        ).pipeline_reg_data_dirty_indices@.len(),
        forall|r: int|
            0 <= r < old(idx).pipeline_reg_data_dirty_indices@.len() ==> (
            #[trigger] final(idx).pipeline_reg_data_dirty_indices@[r])@ == trimmed(
                old(idx).pipeline_reg_data_dirty_indices@[r]@,
                tail@,
            ),
        final(idx).branch_dirty_indices@ == trimmed(old(idx).branch_dirty_indices@, tail@),
        final(idx).branch_flag_dirty_indices@ == trimmed(
            old(idx).branch_flag_dirty_indices@,
            tail@,
        ),
        final(idx).commit_dirty_indices@ == trimmed(old(idx).commit_dirty_indices@, tail@),
        final(idx).reg_wb_dirty_indices@ == trimmed(old(idx).reg_wb_dirty_indices@, tail@),
        final(idx).flag_commit_dirty_indices@ == trimmed(
            old(idx).flag_commit_dirty_indices@,
            tail@,
        ),
        *final(idx) == (V2CpuIndices {
            pipeline_dirty_indices: final(idx).pipeline_dirty_indices,
            pipeline_backbone_dirty_indices: final(idx).pipeline_backbone_dirty_indices,
            pipeline_reg_data_dirty_indices: final(idx).pipeline_reg_data_dirty_indices,
            branch_dirty_indices: final(idx).branch_dirty_indices,
            branch_flag_dirty_indices: final(idx).branch_flag_dirty_indices,
            commit_dirty_indices: final(idx).commit_dirty_indices,
            reg_wb_dirty_indices: final(idx).reg_wb_dirty_indices,
            flag_commit_dirty_indices: final(idx).flag_commit_dirty_indices,
            ..*old(idx)
        }),
{
    idx.pipeline_dirty_indices = without_tails(&idx.pipeline_dirty_indices, tail);
    idx.pipeline_backbone_dirty_indices = without_tails(
        &idx.pipeline_backbone_dirty_indices,
        tail,
    );
    let mut lists: Vec<Vec<usize>> = Vec::new();
    let mut r: usize = 0;
    while r < idx.pipeline_reg_data_dirty_indices.len()
        invariant
            r <= idx.pipeline_reg_data_dirty_indices@.len(),
            lists@.len() == r,
            forall|k: int|
                0 <= k < r ==> (#[trigger] lists@[k])@ == trimmed(
                    idx.pipeline_reg_data_dirty_indices@[k]@,
                    tail@,
                ),
        decreases idx.pipeline_reg_data_dirty_indices@.len() - r,
    {
        lists.push(without_tails(&idx.pipeline_reg_data_dirty_indices[r], tail));
        r = r + 1;
    }
    idx.pipeline_reg_data_dirty_indices = lists;
    idx.branch_dirty_indices = without_tails(&idx.branch_dirty_indices, tail);
    idx.branch_flag_dirty_indices = without_tails(&idx.branch_flag_dirty_indices, tail);
    idx.commit_dirty_indices = without_tails(&idx.commit_dirty_indices, tail);
    idx.reg_wb_dirty_indices = without_tails(&idx.reg_wb_dirty_indices, tail);
    idx.flag_commit_dirty_indices = without_tails(&idx.flag_commit_dirty_indices, tail);
}

} // verus!
