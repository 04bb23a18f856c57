//! The tile grid as plain values: what each tile holds, what it is, and whether it is marked
//! for re-evaluation.
use vstd::prelude::*;

verus! {

/// What a tile is, as far as the CPU logic tells tiles apart.
#[derive(Clone, Copy, Debug, PartialEq, Eq, Structural)]
pub enum TileType {
    Wire,
    Const,
    ViaUp,
    Decoder3to8,
    /// Any other tile, by its number in the tile catalogue.
    Other(u16),
}

/// A layered grid of tiles, indexed layer by layer and row by row.
pub struct Simulation {
    pub width: usize,
    pub height: usize,
    pub values: Vec<u64>,
    pub kinds: Vec<TileType>,
    pub dirty: Vec<bool>,
}

/// What a grid is, as mathematical values.
#[verifier::ext_equal]
pub struct Grid {
    pub width: int,
    pub height: int,
    pub values: Seq<u64>,
    pub kinds: Seq<TileType>,
    pub dirty: Seq<bool>,
}

impl Grid {
    /// The grid with tile `i` holding `v`.
    pub open spec fn put(self, i: int, v: u64) -> Grid {
        Grid { values: self.values.update(i, v), ..self }
    }

    /// The grid with every listed tile holding `v`.
    pub open spec fn put_all(self, list: Seq<usize>, v: u64) -> Grid {
        Grid {
            values: Seq::new(
                self.values.len(),
                |i: int|
                    if lists(list, i) {
                        v
                    } else {
                        self.values[i]
                    },
            ),
            ..self
        }
    }

    /// The grid with the first `n` listed tiles holding the values beside them, put in order.
    pub open spec fn put_each(self, list: Seq<usize>, vals: Seq<u64>, n: nat) -> Grid
        decreases n,
    {
        if n == 0 {
            self
        } else {
            self.put_each(list, vals, (n - 1) as nat).put(list[n - 1] as int, vals[n - 1])
        }
    }

    /// The grid with tile `i` marked.
    pub open spec fn mark(self, i: int) -> Grid {
        Grid { dirty: self.dirty.update(i, true), ..self }
    }

    /// The grid with every listed tile marked.
    pub open spec fn mark_all(self, list: Seq<usize>) -> Grid {
        Grid { dirty: marked(self.dirty, list), ..self }
    }

    /// The grid with tile `i` being a `t`.
    pub open spec fn retype(self, i: int, t: TileType) -> Grid {
        Grid { kinds: self.kinds.update(i, t), ..self }
    }

    /// The grid with tile `i` turned into a constant `v`, and marked.
    pub open spec fn hold(self, i: int, v: u64) -> Grid {
        self.retype(i, TileType::Const).put(i, v).mark(i)
    }
}

impl View for Simulation {
    type V = Grid;

    open spec fn view(&self) -> Grid {
        Grid {
            width: self.width as int,
            height: self.height as int,
            values: self.values@,
            kinds: self.kinds@,
            dirty: self.dirty@,
        }
    }
}

/// The tile at column `x`, row `y`, layer `z` of a grid of `w` columns and `h` rows.
pub open spec fn tile_at(w: int, h: int, x: int, y: int, z: int) -> int {
    z * (w * h) + y * w + x
}

impl Simulation {
    /// The grid has at least one tile per layer, and its three tables cover the same tiles.
    pub open spec fn wf(self) -> bool {
        &&& 0 < self.width
        &&& 0 < self.height
        &&& self.width * self.height <= usize::MAX
        &&& self.kinds@.len() == self.values@.len()
        &&& self.dirty@.len() == self.values@.len()
    }

    /// How many tiles the grid has.
    pub open spec fn len(self) -> nat {
        self.values@.len()
    }

    /// How many tiles the grid has.
    pub fn tile_count(&self) -> (n: usize)
        ensures
            n == self.len(),
    {
        self.values.len()
    }

    /// What a tile holds.
    pub fn get_logic_value_by_idx(&self, idx: usize) -> (v: u64)
        requires
            idx < self.len(),
        ensures
            v == self.values@[idx as int],
    {
        self.values[idx]
    }

    /// Set what a tile holds.
    pub fn set_logic_value_by_idx(&mut self, idx: usize, value: u64)
        requires
            idx < old(self).len(),
            old(self).wf(),
        ensures
            final(self)@ == old(self)@.put(idx as int, value),
            final(self).wf(),
            final(self).len() == old(self).len(),
    {
        self.values.set(idx, value);
    }

    /// Mark a tile for re-evaluation.
    pub fn mark_dirty(&mut self, idx: usize)
        requires
            idx < old(self).len(),
            old(self).wf(),
        ensures
            final(self)@ == old(self)@.mark(idx as int),
            final(self).wf(),
            final(self).len() == old(self).len(),
    {
        self.dirty.set(idx, true);
    }

    /// The column, row and layer of a tile.
    pub fn idx_to_xyz(&self, idx: usize) -> (r: (usize, usize, usize))
        requires
            self.wf(),
        ensures
            tile_at(
                self.width as int,
                self.height as int,
                r.0 as int,
                r.1 as int,
                r.2 as int,
            ) == idx,
            r.0 < self.width,
            r.1 < self.height,
    {
        let w: usize = self.width;
        assert(self.width * self.height > 0) by (nonlinear_arith)
            requires
                0 < self.width,
                0 < self.height,
        ;
        let layer: usize = w * self.height;
        let z: usize = idx / layer;
        let rem: usize = idx % layer;
        let y: usize = rem / w;
        let x: usize = rem % w;
        proof {
            vstd::arithmetic::div_mod::lemma_fundamental_div_mod(idx as int, layer as int);
            vstd::arithmetic::div_mod::lemma_fundamental_div_mod(rem as int, w as int);
            assert(z * layer == layer * z) by (nonlinear_arith);
            assert(y * w == w * y) by (nonlinear_arith);
            assert(y < self.height) by (nonlinear_arith)
                requires
                    rem < w * self.height,
                    w * y <= rem,
                    0 < w,
                    y >= 0,
            ;
        }
        (x, y, z)
    }

    /// What a tile is.
    pub fn tile_type(&self, idx: usize) -> (t: TileType)
        requires
            idx < self.len(),
            self.wf(),
        ensures
            t == self.kinds@[idx as int],
    {
        self.kinds[idx]
    }

    /// Replace what a tile is.
    pub fn set_tile(&mut self, idx: usize, t: TileType)
        requires
            idx < old(self).len(),
            old(self).wf(),
        ensures
            final(self)@ == old(self)@.retype(idx as int, t),
            final(self).wf(),
            final(self).len() == old(self).len(),
    {
        self.kinds.set(idx, t);
    }
}

/// The list names tile `i`.
pub open spec fn lists(list: Seq<usize>, i: int) -> bool {
    exists|m: int| 0 <= m < list.len() && #[trigger] list[m] == i
}

/// The marks after every listed tile has been marked.
pub open spec fn marked(dirty: Seq<bool>, list: Seq<usize>) -> Seq<bool> {
    Seq::new(dirty.len(), |i: int| dirty[i] || lists(list, i))
}

pub proof fn lemma_lists_next(list: Seq<usize>, i: int, k: int)
    requires
        0 <= i < list.len(),
    ensures
        lists(list.take(i + 1), k) == (k == list[i] || lists(list.take(i), k)),
{
    let a = list.take(i);
    let b = list.take(i + 1);
    if lists(a, k) {
        let m = choose|m: int| 0 <= m < a.len() && #[trigger] a[m] == k;
        assert(b[m] == k);
    }
    if k == list[i] {
        assert(b[i] == k);
    }
    if lists(b, k) && k != list[i] {
        let m = choose|m: int| 0 <= m < b.len() && #[trigger] b[m] == k;
        assert(a[m] == k);
    }
}

/// Every listed tile is a tile of a grid of `n` tiles.
pub open spec fn all_below(list: Seq<usize>, n: nat) -> bool {
    forall|i: int| 0 <= i < list.len() ==> #[trigger] list[i] < n
}

impl Simulation {
    /// Mark every listed tile for re-evaluation.
    pub fn mark_all(&mut self, list: &Vec<usize>)
        requires
            old(self).wf(),
            all_below(list@, old(self).len()),
        ensures
            final(self)@ == old(self)@.mark_all(list@),
            final(self).wf(),
            final(self).len() == old(self).len(),
    {
        let mut i: usize = 0;
        assert(self.dirty@ =~= marked(self.dirty@, list@.take(0)));
        while i < list.len()
            invariant
                i <= list@.len(),
                old(self).wf(),
                all_below(list@, old(self).len()),
                self.wf(),
                self.len() == old(self).len(),
                self@ == old(self)@.mark_all(list@.take(i as int)),
            decreases list@.len() - i,
        {
            let ghost before = self.dirty@;
            assert(list@[i as int] < old(self).len());
            self.mark_dirty(list[i]);
            proof {
                let b = list@.take(i + 1);
                assert forall|k: int| 0 <= k < before.len() implies self.dirty@[k] == (old(
                    self,
                ).dirty@[k] || lists(b, k)) by {
                    lemma_lists_next(list@, i as int, k);
                }
                assert(self.dirty@ =~= marked(old(self).dirty@, b));
            }
            i = i + 1;
        }
        assert(list@.take(i as int) =~= list@);
    }

    /// Set every listed tile to one value.
    pub fn set_all(&mut self, list: &Vec<usize>, value: u64)
        requires
            old(self).wf(),
            all_below(list@, old(self).len()),
        ensures
            final(self)@ == old(self)@.put_all(list@, value),
            final(self).wf(),
            final(self).len() == old(self).len(),
    {
        let mut i: usize = 0;
        let ghost v0 = self.values@;
        while i < list.len()
            invariant
                i <= list@.len(),
                old(self).wf(),
                v0 == old(self).values@,
                all_below(list@, old(self).len()),
                self.wf(),
                self.values@.len() == v0.len(),
                self.kinds@ == old(self).kinds@,
                self.dirty@ == old(self).dirty@,
                self.width == old(self).width,
                self.height == old(self).height,
                forall|k: int|
                    0 <= k < v0.len() ==> #[trigger] self.values@[k] == if lists(
                        list@.take(i as int),
                        k,
                    ) {
                        value
                    } else {
                        v0[k]
                    },
            decreases list@.len() - i,
        {
            let ghost before = self.values@;
            assert(list@[i as int] < old(self).len());
            self.set_logic_value_by_idx(list[i], value);
            proof {
                let b = list@.take(i + 1);
                assert forall|k: int| 0 <= k < v0.len() implies #[trigger] self.values@[k]
                    == if lists(b, k) {
                    value
                } else {
                    v0[k]
                } by {
                    lemma_lists_next(list@, i as int, k);
                    if k != list@[i as int] {
                        assert(self.values@[k] == before[k]);
                    }
                }
            }
            i = i + 1;
        }
        assert(list@.take(i as int) =~= list@);
        assert(self.values@ =~= Seq::new(
            v0.len(),
            |k: int|
                if lists(list@, k) {
                    value
                } else {
                    v0[k]
                },
        ));
    }

    /// Set the listed tiles to the values beside them, first to last.
    pub fn put_list(&mut self, list: &Vec<usize>, vals: &Vec<u64>)
        requires
            old(self).wf(),
            all_below(list@, old(self).len()),
            vals@.len() == list@.len(),
        ensures
            final(self)@ == old(self)@.put_each(list@, vals@, list@.len()),
            final(self).wf(),
            final(self).len() == old(self).len(),
    {
        let mut i: usize = 0;
        while i < list.len()
            invariant
                i <= list@.len(),
                vals@.len() == list@.len(),
                all_below(list@, old(self).len()),
                self.wf(),
                self.len() == old(self).len(),
                self@ == old(self)@.put_each(list@, vals@, i as nat),
            decreases list@.len() - i,
        {
            self.set_logic_value_by_idx(list[i], vals[i]);
            i = i + 1;
        }
    }

    /// Turn a tile into a constant, and mark it. Returns what the tile was.
    pub fn hold_const(&mut self, idx: usize, value: u64) -> (was: TileType)
        requires
            idx < old(self).len(),
            old(self).wf(),
        ensures
            final(self)@ == old(self)@.hold(idx as int, value),
            was == old(self)@.kinds[idx as int],
            final(self).wf(),
            final(self).len() == old(self).len(),
    {
        let was: TileType = self.tile_type(idx);
        self.set_tile(idx, TileType::Const);
        self.set_logic_value_by_idx(idx, value);
        self.mark_dirty(idx);
        was
    }

    /// The values of the listed tiles.
    pub fn read_tiles(&self, list: &Vec<u32>) -> (r: Vec<u64>)
        requires
            forall|i: int| 0 <= i < list@.len() ==> #[trigger] list@[i] < self.len(),
        ensures
            r@ == Seq::new(list@.len(), |i: int| self.values@[list@[i] as int]),
    {
        let mut r: Vec<u64> = Vec::new();
        let mut i: usize = 0;
        while i < list.len()
            invariant
                i <= list@.len(),
                forall|k: int| 0 <= k < list@.len() ==> #[trigger] list@[k] < self.len(),
                r@ == Seq::new(i as nat, |k: int| self.values@[list@[k] as int]),
            decreases list@.len() - i,
        {
            r.push(self.get_logic_value_by_idx(list[i] as usize));
            i = i + 1;
            assert(r@ =~= Seq::new(i as nat, |k: int| self.values@[list@[k] as int]));
        }
        r
    }

    /// Give the listed tiles the values of a snapshot, first to last.
    pub fn restore_tiles(&mut self, list: &Vec<u32>, snapshot: &Vec<u64>)
        requires
            old(self).wf(),
            snapshot@.len() == list@.len(),
            forall|i: int| 0 <= i < list@.len() ==> #[trigger] list@[i] < old(self).len(),
        ensures
            final(self)@ == (Grid {
                values: restored(old(self).values@, list@, snapshot@, list@.len()),
                ..old(self)@
            }),
            final(self).wf(),
            final(self).len() == old(self).len(),
    {
        let mut i: usize = 0;
        while i < list.len()
            invariant
                i <= list@.len(),
                snapshot@.len() == list@.len(),
                old(self).wf(),
                self.values@.len() == old(self).values@.len(),
                forall|k: int| 0 <= k < list@.len() ==> #[trigger] list@[k] < old(self).len(),
                self.wf(),
                self@ == (Grid {
                    values: restored(old(self).values@, list@, snapshot@, i as nat),
                    ..old(self)@
                }),
            decreases list@.len() - i,
        {
            self.set_logic_value_by_idx(list[i] as usize, snapshot[i]);
            i = i + 1;
        }
    }

    /// Clear the marks of the tiles in a bitset.
    pub fn drain_dirty(&mut self, mask: &Vec<u64>)
        requires
            old(self).wf(),
        ensures
            final(self)@ == (Grid { dirty: drained(old(self).dirty@, mask@), ..old(self)@ }),
            final(self).wf(),
            final(self).len() == old(self).len(),
    {
        let n: usize = self.dirty.len();
        let mut i: usize = 0;
        while i < n
            invariant
                i <= n,
                n == self.dirty@.len(),
                n == old(self).dirty@.len(),
                old(self).wf(),
                self.wf(),
                self.values@ == old(self).values@,
                self.kinds@ == old(self).kinds@,
                self.width == old(self).width,
                self.height == old(self).height,
                forall|k: int|
                    0 <= k < i ==> #[trigger] self.dirty@[k] == (old(self).dirty@[k]
                        && !crate::bitset::has_tile(mask@, k)),
                forall|k: int| i <= k < n ==> #[trigger] self.dirty@[k] == old(self).dirty@[k],
            decreases n - i,
        {
            let word: usize = i / 64;
            if word < mask.len() {
                let b: u64 = (i % 64) as u64;
                if (mask[word] >> b) & 1 == 1 {
                    self.dirty.set(i, false);
                }
            }
            i = i + 1;
        }
        assert(self.dirty@ =~= drained(old(self).dirty@, mask@));
    }
}

/// The values after the first `n` listed tiles took theirs from a snapshot.
pub open spec fn restored(
    values: Seq<u64>,
    list: Seq<u32>,
    snapshot: Seq<u64>,
    n: nat,
) -> Seq<u64>
    decreases n,
{
    if n == 0 {
        values
    } else {
        restored(values, list, snapshot, (n - 1) as nat).update(
            list[n - 1] as int,
            snapshot[n - 1],
        )
    }
}

/// The marks outside a bitset.
pub open spec fn drained(dirty: Seq<bool>, mask: Seq<u64>) -> Seq<bool> {
    Seq::new(dirty.len(), |i: int| dirty[i] && !crate::bitset::has_tile(mask, i))
}

} // verus!
