//! Splitting a settle scope into decode and execute tiles, and the tile lists that key and
//! fill the memoization caches.
use vstd::prelude::*;

use std::collections::HashSet;

use crate::compact::{not_in_set, select_wvia, wvia_count, writes_tile, WeightedVia, NO_TILE};
use crate::cop;
use crate::device_plan::CompactOp;
use crate::slots::select;

verus! {

broadcast use vstd::std_specs::hash::group_hash_axioms;

/// The list is strictly increasing.
pub open spec fn increasing(v: Seq<u32>) -> bool {
    forall|i: int, j: int| 0 <= i < j < v.len() ==> v[i] < v[j]
}

/// Insert a tile into an increasing list.
fn insert_sorted(v: &mut Vec<u32>, t: u32)
    requires
        increasing(old(v)@),
    ensures
        increasing(final(v)@),
        forall|u: u32| #[trigger] final(v)@.contains(u) <==> (u == t || old(v)@.contains(u)),
{
    let n: usize = v.len();
    let mut k: usize = n;
    while k > 0 && v[k - 1] > t
        invariant
            k <= n,
            n == v@.len(),
            v@ == old(v)@,
            forall|i: int| k <= i < n ==> #[trigger] v@[i] > t,
        decreases k,
    {
        k = k - 1;
    }
    if k > 0 && v[k - 1] == t {
        assert(v@[k - 1] == t);
        return;
    }
    let ghost before = v@;
    v.insert(k, t);
    proof {
        assert forall|i: int, j: int| 0 <= i < j < v@.len() implies v@[i] < v@[j] by {
            if j < k {
                assert(before[i] < before[j]);
            } else if j == k {
                assert(i <= k - 1);
                if i < k - 1 {
                    assert(before[i] < before[k - 1]);
                }
            } else if i < k {
                assert(before[i] < before[j - 1]);
            } else if i == k {
                assert(before[j - 1] > t);
            } else {
                assert(before[i - 1] < before[j - 1]);
            }
        }
        assert forall|u: u32| #[trigger] v@.contains(u) <==> (u == t || before.contains(u)) by {
            if before.contains(u) {
                let i = choose|i: int| 0 <= i < before.len() && before[i] == u;
                if i < k {
                    assert(v@[i] == u);
                } else {
                    assert(v@[i + 1] == u);
                }
            }
            if u == t {
                assert(v@[k as int] == u);
            }
            if v@.contains(u) && u != t {
                let i = choose|i: int| 0 <= i < v@.len() && v@[i] == u;
                if i < k {
                    assert(before[i] == u);
                } else {
                    assert(before[i - 1] == u);
                }
            }
        }
    }
}

/// The tiles of a list, each once, in increasing order.
pub fn sorted_tiles(tiles: &Vec<u32>) -> (r: Vec<u32>)
    ensures
        increasing(r@),
        forall|t: u32| #[trigger] r@.contains(t) <==> tiles@.contains(t),
{
    let mut r: Vec<u32> = Vec::new();
    let mut i: usize = 0;
    while i < tiles.len()
        invariant
            i <= tiles@.len(),
            increasing(r@),
            forall|t: u32| #[trigger] r@.contains(t) <==> tiles@.take(i as int).contains(t),
        decreases tiles@.len() - i,
    {
        let ghost before = r@;
        insert_sorted(&mut r, tiles[i]);
        proof {
            lemma_take_contains(tiles@, i as int);
        }
        i = i + 1;
    }
    assert(tiles@.take(i as int) =~= tiles@);
    r
}

proof fn lemma_take_contains(tiles: Seq<u32>, i: int)
    requires
        0 <= i < tiles.len(),
    ensures
        forall|t: u32| #[trigger]
            tiles.take(i + 1).contains(t) <==> (t == tiles[i] || tiles.take(i).contains(t)),
{
    let a = tiles.take(i);
    let b = tiles.take(i + 1);
    assert(b =~= a.push(tiles[i]));
    assert forall|t: u32| #[trigger] b.contains(t) <==> (t == tiles[i] || a.contains(t)) by {
        if a.contains(t) {
            let k = choose|k: int| 0 <= k < a.len() && a[k] == t;
            assert(b[k] == t);
        }
        if t == tiles[i] {
            assert(b[i] == t);
        }
        if b.contains(t) && t != tiles[i] {
            let k = choose|k: int| 0 <= k < b.len() && b[k] == t;
            assert(a[k] == t);
        }
    }
}

/// The tiles that the ops re-evaluate, constants left out, in increasing order.
pub fn evaluated_tiles(ops: &Vec<CompactOp>) -> (r: Vec<u32>)
    ensures
        increasing(r@),
        forall|t: u32| #[trigger]
            r@.contains(t) <==> exists|i: int|
                0 <= i < ops@.len() && (#[trigger] ops@[i]).idx == t && ops@[i].op
                    != cop::COP_CONST,
{
    let mut r: Vec<u32> = Vec::new();
    let mut i: usize = 0;
    while i < ops.len()
        invariant
            i <= ops@.len(),
            increasing(r@),
            forall|t: u32| #[trigger]
                r@.contains(t) <==> exists|k: int|
                    0 <= k < i && (#[trigger] ops@[k]).idx == t && ops@[k].op != cop::COP_CONST,
        decreases ops@.len() - i,
    {
        let ghost before = r@;
        let op = ops[i];
        if op.op != cop::COP_CONST {
            insert_sorted(&mut r, op.idx);
        }
        proof {
            assert forall|t: u32| #[trigger] r@.contains(t) <==> exists|k: int|
                0 <= k < i + 1 && (#[trigger] ops@[k]).idx == t && ops@[k].op
                    != cop::COP_CONST by {
                assert(before.contains(t) <==> exists|k: int|
                    0 <= k < i && (#[trigger] ops@[k]).idx == t && ops@[k].op != cop::COP_CONST);
                if before.contains(t) {
                    let k = choose|k: int|
                        0 <= k < i && (#[trigger] ops@[k]).idx == t && ops@[k].op
                            != cop::COP_CONST;
                    assert(ops@[k].idx == t);
                }
                if op.idx == t && op.op != cop::COP_CONST {
                    assert(ops@[i as int].idx == t);
                }
            }
        }
        i = i + 1;
    }
    r
}

// ---- Decode and execute tiles ----

/// An op that may read all four neighbours of its tile.
pub open spec fn reads_neighbors(op: CompactOp) -> bool {
    op.op == cop::COP_WIRE || op.op == cop::COP_GENERIC
}

/// The op may read the tile, where `nb` gives the four neighbours of each tile.
pub open spec fn touches(op: CompactOp, nb: Seq<[u32; 4]>, t: u32) -> bool {
    t != NO_TILE && (op.in0 == t || op.in1 == t || op.in2 == t || (reads_neighbors(op)
        && nb[op.idx as int]@.contains(t)))
}

/// The op may read a tile of the set.
pub open spec fn touches_any(op: CompactOp, nb: Seq<[u32; 4]>, set: Set<u32>) -> bool {
    exists|t: u32| set.contains(t) && #[trigger] touches(op, nb, t)
}

/// Whether an op carries register state, given the tiles that carried it before the op: RAM
/// does, a constant does if it is one of the externals, any other op does if it may read a
/// tile that does.
pub open spec fn op_tainted(
    op: CompactOp,
    nb: Seq<[u32; 4]>,
    externals: Set<u32>,
    tainted: Set<u32>,
) -> bool {
    if op.op == cop::COP_RAM {
        true
    } else if op.op == cop::COP_CONST {
        externals.contains(op.idx)
    } else {
        touches_any(op, nb, tainted)
    }
}

/// The tiles that carry register state after the first `n` ops.
pub open spec fn tainted_after(
    ops: Seq<CompactOp>,
    nb: Seq<[u32; 4]>,
    externals: Set<u32>,
    n: nat,
) -> Set<u32>
    decreases n,
{
    if n == 0 {
        externals
    } else {
        let before = tainted_after(ops, nb, externals, (n - 1) as nat);
        if op_tainted(ops[n - 1], nb, externals, before) {
            before.insert(ops[n - 1].idx)
        } else {
            before
        }
    }
}

/// The decode tiles among the first `n` ops: those whose op carries no register state.
pub open spec fn decode_after(
    ops: Seq<CompactOp>,
    nb: Seq<[u32; 4]>,
    externals: Set<u32>,
    n: nat,
) -> Set<u32>
    decreases n,
{
    if n == 0 {
        Set::empty()
    } else {
        let before = decode_after(ops, nb, externals, (n - 1) as nat);
        if op_tainted(
            ops[n - 1],
            nb,
            externals,
            tainted_after(ops, nb, externals, (n - 1) as nat),
        ) {
            before
        } else {
            before.insert(ops[n - 1].idx)
        }
    }
}

/// Every op's tile has its neighbours in the table.
pub open spec fn neighbors_known(ops: Seq<CompactOp>, nb: Seq<[u32; 4]>) -> bool {
    forall|i: int| 0 <= i < ops.len() ==> (#[trigger] ops[i]).idx < nb.len()
}

/// A tile that keys the decode cache: it is not written in the scope and carries no register
/// state but some op may read it, or it is a decode constant.
pub open spec fn is_decode_input(
    ops: Seq<CompactOp>,
    nb: Seq<[u32; 4]>,
    tainted: Set<u32>,
    decode: Set<u32>,
    t: u32,
) -> bool {
    ||| {
        &&& !writes_tile(ops, t as int)
        &&& !tainted.contains(t)
        &&& exists|i: int| 0 <= i < ops.len() && touches(#[trigger] ops[i], nb, t)
    }
    ||| {
        &&& decode.contains(t)
        &&& exists|i: int|
            0 <= i < ops.len() && (#[trigger] ops[i]).idx == t && ops[i].op == cop::COP_CONST
    }
}

/// Some op of the list may read the tile.
pub open spec fn list_touches(ops: Seq<CompactOp>, nb: Seq<[u32; 4]>, t: u32) -> bool {
    exists|i: int| 0 <= i < ops.len() && touches(#[trigger] ops[i], nb, t)
}

/// Some op of the list is a constant on the tile.
pub open spec fn const_on(ops: Seq<CompactOp>, t: u32) -> bool {
    exists|i: int|
        0 <= i < ops.len() && (#[trigger] ops[i]).idx == t && ops[i].op == cop::COP_CONST
}

/// Whether an op may read a tile of the set.
fn reads_member(op: &CompactOp, nb: &Vec<[u32; 4]>, set: &HashSet<u32>) -> (r: bool)
    requires
        op.idx < nb@.len(),
    ensures
        r == touches_any(*op, nb@, set@),
{
    if op.in0 != NO_TILE && set.contains(&op.in0) {
        assert(touches(*op, nb@, op.in0));
        return true;
    }
    if op.in1 != NO_TILE && set.contains(&op.in1) {
        assert(touches(*op, nb@, op.in1));
        return true;
    }
    if op.in2 != NO_TILE && set.contains(&op.in2) {
        assert(touches(*op, nb@, op.in2));
        return true;
    }
    if op.op == cop::COP_WIRE || op.op == cop::COP_GENERIC {
        let row: [u32; 4] = nb[op.idx as usize];
        let mut q: usize = 0;
        while q < 4
            invariant
                q <= 4,
                op.idx < nb@.len(),
                reads_neighbors(*op),
                row == nb@[op.idx as int],
                op.in0 == NO_TILE || !set@.contains(op.in0),
                op.in1 == NO_TILE || !set@.contains(op.in1),
                op.in2 == NO_TILE || !set@.contains(op.in2),
                forall|k: int| 0 <= k < q ==> #[trigger] row@[k] == NO_TILE || !set@.contains(row@[k]),
            decreases 4 - q,
        {
            let t: u32 = row[q];
            if t != NO_TILE && set.contains(&t) {
                assert(row@[q as int] == t);
                assert(touches(*op, nb@, t));
                return true;
            }
            q = q + 1;
        }
        assert(!touches_any(*op, nb@, set@)) by {
            if touches_any(*op, nb@, set@) {
                let t = choose|t: u32| set@.contains(t) && #[trigger] touches(*op, nb@, t);
                let k = choose|k: int| 0 <= k < 4 && row@[k] == t;
                assert(row@[k] == t);
            }
        }
    }
    false
}

/// Classify the tiles of a settle scope: those that carry register state and those whose
/// value follows from the decode externals.
pub fn classify_tiles(
    ops: &Vec<CompactOp>,
    nb: &Vec<[u32; 4]>,
    externals: &Vec<u32>,
) -> (r: (HashSet<u32>, HashSet<u32>))
    requires
        neighbors_known(ops@, nb@),
    ensures
        r.0@ == tainted_after(ops@, nb@, crate::compact::tile_set(externals@), ops@.len()),
        r.1@ == decode_after(ops@, nb@, crate::compact::tile_set(externals@), ops@.len()),
{
    let mut fixed: HashSet<u32> = HashSet::new();
    let mut tainted: HashSet<u32> = HashSet::new();
    let mut decode: HashSet<u32> = HashSet::new();
    let mut e: usize = 0;
    while e < externals.len()
        invariant
            e <= externals@.len(),
            fixed@ == tainted@,
            forall|t: u32| #[trigger] fixed@.contains(t) <==> externals@.take(e as int).contains(t),
        decreases externals@.len() - e,
    {
        proof {
            lemma_take_contains(externals@, e as int);
        }
        fixed.insert(externals[e]);
        tainted.insert(externals[e]);
        assert(fixed@ =~= tainted@);
        e = e + 1;
    }
    assert(externals@.take(e as int) =~= externals@);
    let ghost ext = crate::compact::tile_set(externals@);
    assert(fixed@ =~= ext);
    let mut i: usize = 0;
    while i < ops.len()
        invariant
            i <= ops@.len(),
            neighbors_known(ops@, nb@),
            fixed@ == ext,
            tainted@ == tainted_after(ops@, nb@, ext, i as nat),
            decode@ == decode_after(ops@, nb@, ext, i as nat),
        decreases ops@.len() - i,
    {
        let op = ops[i];
        assert(ops@[i as int].idx < nb@.len());
        let carries: bool = if op.op == cop::COP_RAM {
            true
        } else if op.op == cop::COP_CONST {
            fixed.contains(&op.idx)
        } else {
            reads_member(&op, nb, &tainted)
        };
        if carries {
            tainted.insert(op.idx);
        } else {
            decode.insert(op.idx);
        }
        i = i + 1;
    }
    (tainted, decode)
}

/// Append the tiles that an op may read.
fn push_touched(op: &CompactOp, nb: &Vec<[u32; 4]>, tiles: &mut Vec<u32>)
    requires
        op.idx < nb@.len(),
    ensures
        forall|t: u32| #[trigger]
            final(tiles)@.contains(t) <==> (touches(*op, nb@, t) || old(tiles)@.contains(t)),
{
    let ghost before = tiles@;
    let ops: [u32; 3] = [op.in0, op.in1, op.in2];
    let mut k: usize = 0;
    while k < 3
        invariant
            k <= 3,
            forall|t: u32| #[trigger]
                tiles@.contains(t) <==> (before.contains(t) || (t != NO_TILE && exists|m: int|
                    0 <= m < k && #[trigger] ops@[m] == t)),
        decreases 3 - k,
    {
        let ghost mid = tiles@;
        let t: u32 = ops[k];
        if t != NO_TILE {
            tiles.push(t);
        }
        proof {
            assert forall|u: u32| #[trigger] tiles@.contains(u) <==> (before.contains(u) || (u
                != NO_TILE && exists|m: int| 0 <= m < k + 1 && #[trigger] ops@[m] == u)) by {
                lemma_push_contains(mid, t, u);
                assert(mid.contains(u) <==> (before.contains(u) || (u != NO_TILE && exists|m: int|
                    0 <= m < k && #[trigger] ops@[m] == u)));
                assert(ops@[k as int] == t);
            }
        }
        k = k + 1;
    }
    let ghost three = tiles@;
    if op.op == cop::COP_WIRE || op.op == cop::COP_GENERIC {
        let row: [u32; 4] = nb[op.idx as usize];
        let mut q: usize = 0;
        while q < 4
            invariant
                q <= 4,
                forall|t: u32| #[trigger]
                    tiles@.contains(t) <==> (three.contains(t) || (t != NO_TILE && exists|m: int|
                        0 <= m < q && #[trigger] row@[m] == t)),
            decreases 4 - q,
        {
            let ghost mid = tiles@;
            let t: u32 = row[q];
            if t != NO_TILE {
                tiles.push(t);
            }
            proof {
                assert forall|u: u32| #[trigger] tiles@.contains(u) <==> (three.contains(u) || (u
                    != NO_TILE && exists|m: int| 0 <= m < q + 1 && #[trigger] row@[m] == u)) by {
                    lemma_push_contains(mid, t, u);
                    assert(mid.contains(u) <==> (three.contains(u) || (u != NO_TILE && exists|
                        m: int,
                    |
                        0 <= m < q && #[trigger] row@[m] == u)));
                    assert(row@[q as int] == t);
                }
            }
            q = q + 1;
        }
        assert(row == nb@[op.idx as int]);
    }
    proof {
        assert forall|t: u32| #[trigger] tiles@.contains(t) <==> (touches(*op, nb@, t)
            || before.contains(t)) by {
            assert(three.contains(t) <==> (before.contains(t) || (t != NO_TILE && exists|m: int|
                0 <= m < 3 && #[trigger] ops@[m] == t)));
            assert(ops@[0] == op.in0 && ops@[1] == op.in1 && ops@[2] == op.in2);
            if reads_neighbors(*op) {
                let row = nb@[op.idx as int]@;
                if row.contains(t) {
                    let m = choose|m: int| 0 <= m < 4 && row[m] == t;
                    assert(row[m] == t);
                }
            }
        }
    }
}

proof fn lemma_push_contains(s: Seq<u32>, x: u32, u: u32)
    ensures
        s.push(x).contains(u) <==> (u == x || s.contains(u)),
{
    if s.contains(u) {
        let k = choose|k: int| 0 <= k < s.len() && s[k] == u;
        assert(s.push(x)[k] == u);
    }
    if u == x {
        assert(s.push(x)[s.len() as int] == u);
    }
    if s.push(x).contains(u) && u != x {
        let k = choose|k: int| 0 <= k < s.push(x).len() && s.push(x)[k] == u;
        assert(s[k] == u);
    }
}

/// Every tile that an op of the list may read.
fn touched_tiles(ops: &Vec<CompactOp>, nb: &Vec<[u32; 4]>) -> (r: Vec<u32>)
    requires
        neighbors_known(ops@, nb@),
    ensures
        forall|t: u32| #[trigger] r@.contains(t) <==> list_touches(ops@, nb@, t),
{
    let mut r: Vec<u32> = Vec::new();
    let mut i: usize = 0;
    while i < ops.len()
        invariant
            i <= ops@.len(),
            neighbors_known(ops@, nb@),
            forall|t: u32| #[trigger]
                r@.contains(t) <==> exists|k: int| 0 <= k < i && touches(#[trigger] ops@[k], nb@, t),
        decreases ops@.len() - i,
    {
        let ghost before = r@;
        assert(ops@[i as int].idx < nb@.len());
        push_touched(&ops[i], nb, &mut r);
        proof {
            assert forall|t: u32| #[trigger] r@.contains(t) <==> exists|k: int|
                0 <= k < i + 1 && touches(#[trigger] ops@[k], nb@, t) by {
                assert(before.contains(t) <==> exists|k: int|
                    0 <= k < i && touches(#[trigger] ops@[k], nb@, t));
                if before.contains(t) {
                    let k = choose|k: int| 0 <= k < i && touches(#[trigger] ops@[k], nb@, t);
                    assert(touches(ops@[k], nb@, t));
                }
            }
        }
        i = i + 1;
    }
    r
}

/// The set of tiles that the ops write.
fn written_tiles(ops: &Vec<CompactOp>) -> (r: HashSet<u32>)
    ensures
        forall|t: u32| #[trigger] r@.contains(t) <==> writes_tile(ops@, t as int),
{
    let mut r: HashSet<u32> = HashSet::new();
    let mut i: usize = 0;
    while i < ops.len()
        invariant
            i <= ops@.len(),
            forall|t: u32| #[trigger]
                r@.contains(t) <==> exists|k: int| 0 <= k < i && (#[trigger] ops@[k]).idx == t,
        decreases ops@.len() - i,
    {
        let ghost before = r@;
        r.insert(ops[i].idx);
        proof {
            assert forall|t: u32| #[trigger] r@.contains(t) <==> exists|k: int|
                0 <= k < i + 1 && (#[trigger] ops@[k]).idx == t by {
                assert(before.contains(t) <==> exists|k: int|
                    0 <= k < i && (#[trigger] ops@[k]).idx == t);
                if before.contains(t) {
                    let k = choose|k: int| 0 <= k < i && (#[trigger] ops@[k]).idx == t;
                    assert(ops@[k].idx == t);
                }
                if t == ops@[i as int].idx {
                    assert(ops@[i as int].idx == t);
                }
            }
        }
        i = i + 1;
    }
    r
}

/// The tiles that key the decode cache, in increasing order.
pub fn decode_input_tiles(
    ops: &Vec<CompactOp>,
    nb: &Vec<[u32; 4]>,
    tainted: &HashSet<u32>,
    decode: &HashSet<u32>,
) -> (r: Vec<u32>)
    requires
        neighbors_known(ops@, nb@),
    ensures
        increasing(r@),
        forall|t: u32| #[trigger]
            r@.contains(t) <==> is_decode_input(ops@, nb@, tainted@, decode@, t),
{
    let touched: Vec<u32> = touched_tiles(ops, nb);
    let written: HashSet<u32> = written_tiles(ops);
    let mut r: Vec<u32> = Vec::new();
    let mut i: usize = 0;
    while i < touched.len()
        invariant
            i <= touched@.len(),
            increasing(r@),
            forall|t: u32| #[trigger] written@.contains(t) <==> writes_tile(ops@, t as int),
            forall|t: u32| #[trigger]
                r@.contains(t) <==> (touched@.take(i as int).contains(t) && !writes_tile(
                    ops@,
                    t as int,
                ) && !tainted@.contains(t)),
        decreases touched@.len() - i,
    {
        let t: u32 = touched[i];
        proof {
            lemma_take_contains(touched@, i as int);
        }
        if !written.contains(&t) && !tainted.contains(&t) {
            insert_sorted(&mut r, t);
        }
        i = i + 1;
    }
    assert(touched@.take(i as int) =~= touched@);
    let ghost outer = r@;
    let mut j: usize = 0;
    while j < ops.len()
        invariant
            j <= ops@.len(),
            increasing(r@),
            forall|t: u32| #[trigger]
                r@.contains(t) <==> (outer.contains(t) || (decode@.contains(t) && exists|k: int|
                    0 <= k < j && (#[trigger] ops@[k]).idx == t && ops@[k].op == cop::COP_CONST)),
        decreases ops@.len() - j,
    {
        let ghost before = r@;
        let op = ops[j];
        let hit: bool = op.op == cop::COP_CONST && decode.contains(&op.idx);
        if hit {
            insert_sorted(&mut r, op.idx);
        }
        proof {
            assert forall|t: u32| #[trigger] r@.contains(t) <==> (outer.contains(t) || (
            decode@.contains(t) && exists|k: int|
                0 <= k < j + 1 && (#[trigger] ops@[k]).idx == t && ops@[k].op
                    == cop::COP_CONST)) by {
                assert(before.contains(t) <==> (outer.contains(t) || (decode@.contains(t)
                    && exists|k: int|
                    0 <= k < j && (#[trigger] ops@[k]).idx == t && ops@[k].op == cop::COP_CONST)));
                if exists|k: int|
                    0 <= k < j && (#[trigger] ops@[k]).idx == t && ops@[k].op == cop::COP_CONST {
                    let k = choose|k: int|
                        0 <= k < j && (#[trigger] ops@[k]).idx == t && ops@[k].op
                            == cop::COP_CONST;
                    assert(ops@[k].idx == t);
                }
                if op.idx == t && op.op == cop::COP_CONST {
                    assert(ops@[j as int].idx == t);
                }
            }
        }
        j = j + 1;
    }
    proof {
        assert forall|t: u32| #[trigger] r@.contains(t) <==> is_decode_input(
            ops@,
            nb@,
            tainted@,
            decode@,
            t,
        ) by {
            assert(outer.contains(t) <==> (touched@.contains(t) && !writes_tile(ops@, t as int)
                && !tainted@.contains(t)));
            assert(touched@.contains(t) <==> list_touches(ops@, nb@, t));
        }
    }
    r
}

/// The decode tiles that an op outside decoding may read, constants left out, in increasing
/// order: what a decode cache entry restores. `scopes` are the execute ops and the scopes
/// evaluated after settling; `settle` is the settle scope.
pub fn decode_output_tiles(
    scopes: &Vec<Vec<CompactOp>>,
    settle: &Vec<CompactOp>,
    nb: &Vec<[u32; 4]>,
    decode: &HashSet<u32>,
) -> (r: Vec<u32>)
    requires
        forall|s: int| 0 <= s < scopes@.len() ==> neighbors_known(#[trigger] scopes@[s]@, nb@),
    ensures
        increasing(r@),
        forall|t: u32| #[trigger]
            r@.contains(t) <==> {
                &&& decode@.contains(t)
                &&& !const_on(settle@, t)
                &&& exists|s: int|
                    0 <= s < scopes@.len() && list_touches(#[trigger] scopes@[s]@, nb@, t)
            },
{
    let mut consts: HashSet<u32> = HashSet::new();
    let mut c: usize = 0;
    while c < settle.len()
        invariant
            c <= settle@.len(),
            forall|t: u32| #[trigger]
                consts@.contains(t) <==> exists|k: int|
                    0 <= k < c && (#[trigger] settle@[k]).idx == t && settle@[k].op
                        == cop::COP_CONST,
        decreases settle@.len() - c,
    {
        let ghost before = consts@;
        let op = settle[c];
        if op.op == cop::COP_CONST {
            consts.insert(op.idx);
        }
        proof {
            assert forall|t: u32| #[trigger] consts@.contains(t) <==> exists|k: int|
                0 <= k < c + 1 && (#[trigger] settle@[k]).idx == t && settle@[k].op
                    == cop::COP_CONST by {
                assert(before.contains(t) <==> exists|k: int|
                    0 <= k < c && (#[trigger] settle@[k]).idx == t && settle@[k].op
                        == cop::COP_CONST);
                if before.contains(t) {
                    let k = choose|k: int|
                        0 <= k < c && (#[trigger] settle@[k]).idx == t && settle@[k].op
                            == cop::COP_CONST;
                    assert(settle@[k].idx == t);
                }
                if op.idx == t && op.op == cop::COP_CONST {
                    assert(settle@[c as int].idx == t);
                }
            }
        }
        c = c + 1;
    }
    let mut r: Vec<u32> = Vec::new();
    let mut s: usize = 0;
    while s < scopes.len()
        invariant
            s <= scopes@.len(),
            increasing(r@),
            forall|k: int| 0 <= k < scopes@.len() ==> neighbors_known(#[trigger] scopes@[k]@, nb@),
            forall|t: u32| #[trigger] consts@.contains(t) <==> const_on(settle@, t),
            forall|t: u32| #[trigger]
                r@.contains(t) <==> {
                    &&& decode@.contains(t)
                    &&& !const_on(settle@, t)
                    &&& exists|k: int| 0 <= k < s && list_touches(#[trigger] scopes@[k]@, nb@, t)
                },
        decreases scopes@.len() - s,
    {
        let ghost before = r@;
        assert(neighbors_known(scopes@[s as int]@, nb@));
        let touched: Vec<u32> = touched_tiles(&scopes[s], nb);
        let mut i: usize = 0;
        while i < touched.len()
            invariant
                i <= touched@.len(),
                increasing(r@),
                forall|t: u32| #[trigger] consts@.contains(t) <==> const_on(settle@, t),
                forall|t: u32| #[trigger]
                    r@.contains(t) <==> (before.contains(t) || (decode@.contains(t) && !const_on(
                        settle@,
                        t,
                    ) && touched@.take(i as int).contains(t))),
            decreases touched@.len() - i,
        {
            let t: u32 = touched[i];
            proof {
                lemma_take_contains(touched@, i as int);
            }
            if decode.contains(&t) && !consts.contains(&t) {
                insert_sorted(&mut r, t);
            }
            i = i + 1;
        }
        assert(touched@.take(i as int) =~= touched@);
        proof {
            assert forall|t: u32| #[trigger] r@.contains(t) <==> {
                &&& decode@.contains(t)
                &&& !const_on(settle@, t)
                &&& exists|k: int| 0 <= k < s + 1 && list_touches(#[trigger] scopes@[k]@, nb@, t)
            } by {
                assert(touched@.contains(t) <==> list_touches(scopes@[s as int]@, nb@, t));
                if before.contains(t) {
                    let k = choose|k: int|
                        0 <= k < s && list_touches(#[trigger] scopes@[k]@, nb@, t);
                    assert(list_touches(scopes@[k]@, nb@, t));
                }
            }
        }
        s = s + 1;
    }
    r
}

/// The execute ops of a settle scope: those that write no decode tile, in order, with their
/// weighted-via entries.
pub fn execute_ops(
    ops: &Vec<CompactOp>,
    wvia: &Vec<WeightedVia>,
    decode: &HashSet<u32>,
) -> (r: (Vec<CompactOp>, Vec<WeightedVia>))
    requires
        wvia_count(ops@, ops@.len()) <= wvia@.len(),
    ensures
        r.0@ == select(ops@, not_in_set(ops@, decode@)),
        r.1@ == select_wvia(ops@, wvia@, not_in_set(ops@, decode@), ops@.len()),
{
    let parts: (Vec<CompactOp>, Vec<WeightedVia>, Vec<CompactOp>, Vec<WeightedVia>) =
        crate::compact::partition_ops(ops, wvia, decode);
    (parts.2, parts.3)
}

// ---- What the partition guarantees ----

/// Every tile has one writer, and every op comes after the writers of the tiles it may read.
pub open spec fn ordered_scope(ops: Seq<CompactOp>, nb: Seq<[u32; 4]>) -> bool {
    &&& forall|i: int, j: int|
        0 <= i < ops.len() && 0 <= j < ops.len() && (#[trigger] ops[i]).idx == (
        #[trigger] ops[j]).idx ==> i == j
    &&& forall|i: int, j: int|
        0 <= i < ops.len() && 0 <= j < ops.len() && #[trigger] touches(
            ops[i],
            nb,
            #[trigger] ops[j].idx,
        ) ==> j < i
}

proof fn lemma_tainted_origin(
    ops: Seq<CompactOp>,
    nb: Seq<[u32; 4]>,
    ext: Set<u32>,
    n: nat,
    t: u32,
)
    requires
        n <= ops.len(),
        tainted_after(ops, nb, ext, n).contains(t),
    ensures
        ext.contains(t) || exists|k: int|
            0 <= k < n && (#[trigger] ops[k]).idx == t && op_tainted(
                ops[k],
                nb,
                ext,
                tainted_after(ops, nb, ext, k as nat),
            ),
    decreases n,
{
    if n > 0 {
        let before = tainted_after(ops, nb, ext, (n - 1) as nat);
        if before.contains(t) {
            lemma_tainted_origin(ops, nb, ext, (n - 1) as nat, t);
            if !ext.contains(t) {
                let k = choose|k: int|
                    0 <= k < n - 1 && (#[trigger] ops[k]).idx == t && op_tainted(
                        ops[k],
                        nb,
                        ext,
                        tainted_after(ops, nb, ext, k as nat),
                    );
                assert(ops[k].idx == t);
            }
        } else {
            assert(ops[n - 1].idx == t);
        }
    }
}

proof fn lemma_decode_origin(
    ops: Seq<CompactOp>,
    nb: Seq<[u32; 4]>,
    ext: Set<u32>,
    n: nat,
    t: u32,
)
    requires
        n <= ops.len(),
        decode_after(ops, nb, ext, n).contains(t),
    ensures
        exists|k: int|
            0 <= k < n && (#[trigger] ops[k]).idx == t && !op_tainted(
                ops[k],
                nb,
                ext,
                tainted_after(ops, nb, ext, k as nat),
            ),
    decreases n,
{
    if n > 0 {
        let before = decode_after(ops, nb, ext, (n - 1) as nat);
        if before.contains(t) {
            lemma_decode_origin(ops, nb, ext, (n - 1) as nat, t);
            let k = choose|k: int|
                0 <= k < n - 1 && (#[trigger] ops[k]).idx == t && !op_tainted(
                    ops[k],
                    nb,
                    ext,
                    tainted_after(ops, nb, ext, k as nat),
                );
            assert(ops[k].idx == t);
        } else {
            assert(ops[n - 1].idx == t);
        }
    }
}

proof fn lemma_tainted_grows(
    ops: Seq<CompactOp>,
    nb: Seq<[u32; 4]>,
    ext: Set<u32>,
    a: nat,
    b: nat,
    t: u32,
)
    requires
        a <= b,
        tainted_after(ops, nb, ext, a).contains(t),
    ensures
        tainted_after(ops, nb, ext, b).contains(t),
    decreases b,
{
    if a < b {
        lemma_tainted_grows(ops, nb, ext, a, (b - 1) as nat, t);
    }
}

proof fn lemma_classified(
    ops: Seq<CompactOp>,
    nb: Seq<[u32; 4]>,
    ext: Set<u32>,
    n: nat,
    k: int,
)
    requires
        n <= ops.len(),
        0 <= k < n,
    ensures
        tainted_after(ops, nb, ext, n).contains(ops[k].idx) || decode_after(ops, nb, ext, n).contains(
            ops[k].idx,
        ),
    decreases n,
{
    if k < n - 1 {
        lemma_classified(ops, nb, ext, (n - 1) as nat, k);
    }
}

/// A decode tile is a function of decode tiles and externals: in an ordered scope, the op of
/// a decode tile that is no constant reads no tile that carries register state.
pub proof fn law_decode_tiles_are_untainted(
    ops: Seq<CompactOp>,
    nb: Seq<[u32; 4]>,
    ext: Set<u32>,
    j: int,
    t: u32,
)
    requires
        ordered_scope(ops, nb),
        0 <= j < ops.len(),
        ops[j].op != cop::COP_CONST,
        decode_after(ops, nb, ext, ops.len()).contains(ops[j].idx),
        touches(ops[j], nb, t),
    ensures
        !tainted_after(ops, nb, ext, ops.len()).contains(t),
{
    lemma_decode_origin(ops, nb, ext, ops.len(), ops[j].idx);
    let k = choose|k: int|
        0 <= k < ops.len() && (#[trigger] ops[k]).idx == ops[j].idx && !op_tainted(
            ops[k],
            nb,
            ext,
            tainted_after(ops, nb, ext, k as nat),
        );
    assert(k == j);
    let here = tainted_after(ops, nb, ext, j as nat);
    assert(!here.contains(t)) by {
        if here.contains(t) {
            assert(touches_any(ops[j], nb, here));
        }
    }
    if tainted_after(ops, nb, ext, ops.len()).contains(t) {
        lemma_tainted_origin(ops, nb, ext, ops.len(), t);
        if ext.contains(t) {
            lemma_tainted_grows(ops, nb, ext, 0, j as nat, t);
        } else {
            let m = choose|m: int|
                0 <= m < ops.len() && (#[trigger] ops[m]).idx == t && op_tainted(
                    ops[m],
                    nb,
                    ext,
                    tainted_after(ops, nb, ext, m as nat),
                );
            assert(touches(ops[j], nb, ops[m].idx));
            assert(m < j);
            assert(tainted_after(ops, nb, ext, (m + 1) as nat).contains(t));
            lemma_tainted_grows(ops, nb, ext, (m + 1) as nat, j as nat, t);
        }
    }
}

/// The decode cache key is complete: in an ordered scope, every tile that the op of a decode
/// tile reads is a key tile or a decode tile itself.
pub proof fn law_decode_key_is_complete(
    ops: Seq<CompactOp>,
    nb: Seq<[u32; 4]>,
    ext: Set<u32>,
    j: int,
    t: u32,
)
    requires
        ordered_scope(ops, nb),
        0 <= j < ops.len(),
        ops[j].op != cop::COP_CONST,
        decode_after(ops, nb, ext, ops.len()).contains(ops[j].idx),
        touches(ops[j], nb, t),
    ensures
        decode_after(ops, nb, ext, ops.len()).contains(t) || is_decode_input(
            ops,
            nb,
            tainted_after(ops, nb, ext, ops.len()),
            decode_after(ops, nb, ext, ops.len()),
            t,
        ),
{
    law_decode_tiles_are_untainted(ops, nb, ext, j, t);
    if writes_tile(ops, t as int) {
        let k = choose|k: int| 0 <= k < ops.len() && (#[trigger] ops[k]).idx == t;
        lemma_classified(ops, nb, ext, ops.len(), k);
    }
}

} // verus!
