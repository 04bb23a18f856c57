//! Lookup tables over the ops of an evaluation scope.
use vstd::prelude::*;

use crate::bitset::bit;
use crate::compact::{wvia_count, writes_tile, NO_TILE};
use crate::cop;
use crate::device_plan::CompactOp;

verus! {

/// Slot `i` is the last that writes tile `t`.
pub open spec fn last_writer(ops: Seq<CompactOp>, t: int, i: int) -> bool {
    &&& 0 <= i < ops.len()
    &&& ops[i].idx == t
    &&& forall|k: int| i < k < ops.len() ==> (#[trigger] ops[k]).idx != t
}

/// The slot that writes each tile and the weighted-via entry of each slot; `u32::MAX` where
/// there is none.
pub fn slot_tables(ops: &Vec<CompactOp>, tile_count: usize) -> (r: (Vec<u32>, Vec<u32>))
    requires
        ops@.len() < u32::MAX,
        forall|i: int| 0 <= i < ops@.len() ==> (#[trigger] ops@[i]).idx < tile_count,
    ensures
        r.0@.len() == tile_count,
        r.1@.len() == ops@.len(),
        forall|t: int|
            0 <= t < tile_count ==> if writes_tile(ops@, t) {
                last_writer(ops@, t, #[trigger] r.0@[t] as int)
            } else {
                r.0@[t] == NO_TILE
            },
        forall|i: int|
            0 <= i < ops@.len() ==> #[trigger] r.1@[i] == if ops@[i].op == cop::COP_WVIA {
                wvia_count(ops@, i as nat) as u32
            } else {
                NO_TILE
            },
{
    let n: usize = ops.len();
    let mut slot_of: Vec<u32> = vec![NO_TILE;tile_count];
    let mut wvia_of: Vec<u32> = vec![NO_TILE;n];
    let mut next: u32 = 0;
    let mut i: usize = 0;
    while i < n
        invariant
            i <= n,
            n == ops@.len(),
            n < u32::MAX,
            next == wvia_count(ops@, i as nat),
            next <= i,
            slot_of@.len() == tile_count,
            wvia_of@.len() == n,
            forall|k: int| 0 <= k < n ==> (#[trigger] ops@[k]).idx < tile_count,
            forall|t: int|
                0 <= t < tile_count ==> if exists|k: int| 0 <= k < i && (#[trigger] ops@[k]).idx == t {
                    &&& 0 <= #[trigger] slot_of@[t] < i
                    &&& ops@[slot_of@[t] as int].idx == t
                    &&& forall|k: int| slot_of@[t] < k < i ==> (#[trigger] ops@[k]).idx != t
                } else {
                    slot_of@[t] == NO_TILE
                },
            forall|k: int|
                0 <= k < n ==> #[trigger] wvia_of@[k] == if k < i && ops@[k].op == cop::COP_WVIA {
                    wvia_count(ops@, k as nat) as u32
                } else {
                    NO_TILE
                },
        decreases n - i,
    {
        let op = ops[i];
        let ghost before = slot_of@;
        assert(ops@[i as int].idx < tile_count);
        slot_of.set(op.idx as usize, i as u32);
        proof {
            assert forall|t: int| 0 <= t < tile_count implies if exists|k: int|
                0 <= k < i + 1 && (#[trigger] ops@[k]).idx == t {
                &&& 0 <= #[trigger] slot_of@[t] < i + 1
                &&& ops@[slot_of@[t] as int].idx == t
                &&& forall|k: int| slot_of@[t] < k < i + 1 ==> (#[trigger] ops@[k]).idx != t
            } else {
                slot_of@[t] == NO_TILE
            } by {
                if t == op.idx {
                    assert(ops@[i as int].idx == t);
                } else {
                    assert(slot_of@[t] == before[t]);
                    assert(ops@[i as int].idx != t);
                    if exists|k: int| 0 <= k < i + 1 && (#[trigger] ops@[k]).idx == t {
                        let k = choose|k: int| 0 <= k < i + 1 && (#[trigger] ops@[k]).idx == t;
                        assert(k < i && ops@[k].idx == t);
                    }
                }
            }
        }
        if op.op == cop::COP_WVIA {
            wvia_of.set(i, next);
            next = next + 1;
        }
        i = i + 1;
    }
    proof {
        assert forall|t: int| 0 <= t < tile_count implies if writes_tile(ops@, t) {
            last_writer(ops@, t, #[trigger] slot_of@[t] as int)
        } else {
            slot_of@[t] == NO_TILE
        } by {
            assert(slot_of@[t] == slot_of@[t]);
        }
    }
    (slot_of, wvia_of)
}

// ---- Block maps ----

/// Ops per block.
pub const BLOCK_OPS: usize = 64;

/// The entries with the bit of tile `t` added to its segment's mask.
pub open spec fn add_tile(entries: Seq<(u32, u64)>, t: u32) -> Seq<(u32, u64)> {
    let seg = t / 64;
    let b = 1u64 << ((t % 64) as u64);
    if exists|k: int| 0 <= k < entries.len() && (#[trigger] entries[k]).0 == seg {
        let k = first_segment(entries, seg, 0);
        entries.update(k, (seg, entries[k].1 | b))
    } else {
        entries.push((seg, b))
    }
}

/// The first entry from `k` on that is for segment `seg`.
pub open spec fn first_segment(entries: Seq<(u32, u64)>, seg: u32, k: int) -> int
    decreases entries.len() - k,
{
    if k >= entries.len() || entries[k].0 == seg {
        k
    } else {
        first_segment(entries, seg, k + 1)
    }
}

/// The segment masks of the ops `[lo, hi)`, in order of first mention.
pub open spec fn block_entries(ops: Seq<CompactOp>, lo: int, hi: int) -> Seq<(u32, u64)>
    decreases hi - lo,
{
    if hi <= lo {
        Seq::empty()
    } else {
        add_tile(block_entries(ops, lo, hi - 1), ops[hi - 1].idx)
    }
}

/// Where block `b` ends.
pub open spec fn block_end(n: int, b: int) -> int {
    if 64 * (b + 1) < n {
        64 * (b + 1)
    } else {
        n
    }
}

/// The entries of the first `b` blocks.
pub open spec fn entries_upto(ops: Seq<CompactOp>, b: nat) -> Seq<(u32, u64)>
    decreases b,
{
    if b == 0 {
        Seq::empty()
    } else {
        entries_upto(ops, (b - 1) as nat) + block_entries(
            ops,
            64 * (b - 1),
            block_end(ops.len() as int, b - 1),
        )
    }
}

/// How many blocks the ops fill.
pub open spec fn block_count(n: int) -> int {
    (n + 63) / 64
}

proof fn lemma_first_segment(entries: Seq<(u32, u64)>, seg: u32, from: int, at: int)
    requires
        0 <= from <= at <= entries.len(),
        forall|k: int| from <= k < at ==> (#[trigger] entries[k]).0 != seg,
        at < entries.len() ==> entries[at].0 == seg,
    ensures
        first_segment(entries, seg, from) == at,
    decreases at - from,
{
    if from < at {
        assert(entries[from].0 != seg);
        lemma_first_segment(entries, seg, from + 1, at);
    }
}

/// Add a tile to the segment masks.
fn push_tile(entries: &mut Vec<(u32, u64)>, t: u32)
    ensures
        final(entries)@ == add_tile(old(entries)@, t),
{
    let seg: u32 = t / 64;
    let b: u64 = 1u64 << ((t % 64) as u64);
    let n: usize = entries.len();
    let mut k: usize = 0;
    while k < n
        invariant
            k <= n,
            n == entries@.len(),
            entries@ == old(entries)@,
            seg == t / 64,
            b == 1u64 << ((t % 64) as u64),
            forall|m: int| 0 <= m < k ==> (#[trigger] entries@[m]).0 != seg,
        decreases n - k,
    {
        if entries[k].0 == seg {
            let mask: u64 = entries[k].1;
            proof {
                lemma_first_segment(entries@, seg, 0, k as int);
                assert(entries@[k as int].0 == seg);
            }
            entries.set(k, (seg, mask | b));
            return;
        }
        k = k + 1;
    }
    entries.push((seg, b));
}

proof fn lemma_entries_bound(ops: Seq<CompactOp>, lo: int, hi: int)
    ensures
        block_entries(ops, lo, hi).len() <= if hi > lo {
            hi - lo
        } else {
            0
        },
    decreases hi - lo,
{
    if hi > lo {
        lemma_entries_bound(ops, lo, hi - 1);
        let e = block_entries(ops, lo, hi - 1);
        let seg = ops[hi - 1].idx / 64;
        if exists|k: int| 0 <= k < e.len() && (#[trigger] e[k]).0 == seg {
            let k = choose|k: int| 0 <= k < e.len() && (#[trigger] e[k]).0 == seg;
            lemma_first_in_range(e, seg, 0, k);
        }
    }
}

proof fn lemma_first_in_range(entries: Seq<(u32, u64)>, seg: u32, from: int, k: int)
    requires
        0 <= from <= k < entries.len(),
        entries[k].0 == seg,
    ensures
        from <= first_segment(entries, seg, from) <= k,
        entries[first_segment(entries, seg, from)].0 == seg,
    decreases k - from,
{
    if entries[from].0 != seg {
        lemma_first_in_range(entries, seg, from + 1, k);
    }
}

/// The block maps of a scope: for each block of 64 ops, which segments of the tile bitset it
/// writes and with which bits, and how many of its ops are weighted vias. Block `b` has the
/// entries from `offsets[b]` up to `offsets[b + 1]`.
pub fn build_block_maps(ops: &Vec<CompactOp>) -> (r: (Vec<u32>, Vec<(u32, u64)>, Vec<u8>))
    requires
        ops@.len() < u32::MAX,
    ensures
        r.0@.len() == block_count(ops@.len() as int) + 1,
        forall|b: int|
            0 <= b <= block_count(ops@.len() as int) ==> #[trigger] r.0@[b] == entries_upto(
                ops@,
                b as nat,
            ).len(),
        r.1@ == entries_upto(ops@, block_count(ops@.len() as int) as nat),
        r.2@.len() == block_count(ops@.len() as int),
        forall|b: int|
            0 <= b < block_count(ops@.len() as int) ==> #[trigger] r.2@[b] == wvia_count(
                ops@,
                block_end(ops@.len() as int, b) as nat,
            ) - wvia_count(ops@, (64 * b) as nat),
{
    let n: usize = ops.len();
    let blocks: usize = n / BLOCK_OPS + if n % BLOCK_OPS == 0 { 0 } else { 1 };
    assert(blocks == block_count(n as int));
    let mut offsets: Vec<u32> = Vec::new();
    let mut entries: Vec<(u32, u64)> = Vec::new();
    let mut counts: Vec<u8> = Vec::new();
    let mut b: usize = 0;
    while b < blocks
        invariant
            n == ops@.len(),
            n < u32::MAX,
            blocks == block_count(n as int),
            b <= blocks,
            offsets@.len() == b,
            counts@.len() == b,
            entries@ == entries_upto(ops@, b as nat),
            entries@.len() <= if 64 * b < n { 64 * b as int } else { n as int },
            forall|k: int|
                0 <= k < b ==> #[trigger] offsets@[k] == entries_upto(ops@, k as nat).len(),
            forall|k: int|
                0 <= k < b ==> #[trigger] counts@[k] == wvia_count(
                    ops@,
                    block_end(n as int, k) as nat,
                ) - wvia_count(ops@, (64 * k) as nat),
        decreases blocks - b,
    {
        offsets.push(entries.len() as u32);
        let start: usize = b * BLOCK_OPS;
        let end: usize = if n - start > BLOCK_OPS {
            start + BLOCK_OPS
        } else {
            n
        };
        assert(end == block_end(n as int, b as int));
        let mut masks: Vec<(u32, u64)> = Vec::new();
        let mut count: u8 = 0;
        let mut slot: usize = start;
        while slot < end
            invariant
                start <= slot <= end <= n,
                n == ops@.len(),
                end <= start + 64,
                masks@ == block_entries(ops@, start as int, slot as int),
                count <= slot - start,
                count == wvia_count(ops@, slot as nat) - wvia_count(ops@, start as nat),
            decreases end - slot,
        {
            let op = ops[slot];
            if op.op == cop::COP_WVIA {
                count = count + 1;
            }
            push_tile(&mut masks, op.idx);
            slot = slot + 1;
        }
        proof {
            lemma_entries_bound(ops@, start as int, end as int);
        }
        let ghost before = entries@;
        let mut m: usize = 0;
        assert(before + masks@.take(0) =~= before);
        while m < masks.len()
            invariant
                m <= masks@.len(),
                entries@ == before + masks@.take(m as int),
            decreases masks@.len() - m,
        {
            assert(masks@.take(m + 1) =~= masks@.take(m as int).push(masks@[m as int]));
            assert(before + masks@.take(m + 1) =~= (before + masks@.take(m as int)).push(
                masks@[m as int],
            ));
            entries.push(masks[m]);
            m = m + 1;
        }
        assert(masks@.take(m as int) =~= masks@);
        counts.push(count);
        b = b + 1;
    }
    offsets.push(entries.len() as u32);
    (offsets, entries, counts)
}

/// Some entry has the tile's bit.
pub open spec fn marks_tile(entries: Seq<(u32, u64)>, t: u32) -> bool {
    exists|k: int| 0 <= k < entries.len() && (#[trigger] entries[k]).0 == t / 64 && bit(
        entries[k].1,
        (t % 64) as int,
    )
}

proof fn lemma_one_bit(w: u64, b: u64, c: u64)
    requires
        b < 64,
        c < 64,
    ensures
        (((w | (1u64 << b)) >> c) & 1 == 1) <==> (c == b || (w >> c) & 1 == 1),
        (((1u64 << b) >> c) & 1 == 1) <==> c == b,
{
    assert(((((w | (1u64 << b)) >> c) & 1 == 1) <==> (c == b || (w >> c) & 1 == 1)) && ((((1u64
        << b) >> c) & 1 == 1) <==> c == b)) by (bit_vector)
        requires
            b < 64,
            c < 64,
    ;
}

proof fn lemma_add_tile_marks(entries: Seq<(u32, u64)>, t: u32, u: u32)
    requires
        forall|i: int, j: int|
            0 <= i < entries.len() && 0 <= j < entries.len() && (#[trigger] entries[i]).0 == (
            #[trigger] entries[j]).0 ==> i == j,
    ensures
        marks_tile(add_tile(entries, t), u) <==> (u == t || marks_tile(entries, u)),
        forall|i: int, j: int|
            0 <= i < add_tile(entries, t).len() && 0 <= j < add_tile(entries, t).len() && (
            #[trigger] add_tile(entries, t)[i]).0 == (#[trigger] add_tile(entries, t)[j]).0 ==> i
                == j,
{
    let seg = t / 64;
    let tb = (t % 64) as u64;
    let ub = (u % 64) as u64;
    let after = add_tile(entries, t);
    if exists|k: int| 0 <= k < entries.len() && (#[trigger] entries[k]).0 == seg {
        let k0 = choose|k: int| 0 <= k < entries.len() && (#[trigger] entries[k]).0 == seg;
        lemma_first_in_range(entries, seg, 0, k0);
        let k = first_segment(entries, seg, 0);
        lemma_one_bit(entries[k].1, tb, ub);
        assert forall|i: int, j: int|
            0 <= i < after.len() && 0 <= j < after.len() && (#[trigger] after[i]).0 == (
            #[trigger] after[j]).0 implies i == j by {
            assert(after[i].0 == entries[i].0 && after[j].0 == entries[j].0);
        }
        if u == t {
            assert(after[k].0 == u / 64 && bit(after[k].1, (u % 64) as int));
        }
        if marks_tile(entries, u) {
            let m = choose|m: int|
                0 <= m < entries.len() && (#[trigger] entries[m]).0 == u / 64 && bit(
                    entries[m].1,
                    (u % 64) as int,
                );
            assert(after[m].0 == u / 64);
            assert(bit(after[m].1, (u % 64) as int));
        }
        if marks_tile(after, u) {
            let m = choose|m: int|
                0 <= m < after.len() && (#[trigger] after[m]).0 == u / 64 && bit(
                    after[m].1,
                    (u % 64) as int,
                );
            assert(entries[m].0 == u / 64);
            if m == k && u != t {
                assert(ub != tb);
            }
        }
    } else {
        lemma_one_bit(0, tb, ub);
        assert forall|i: int, j: int|
            0 <= i < after.len() && 0 <= j < after.len() && (#[trigger] after[i]).0 == (
            #[trigger] after[j]).0 implies i == j by {
            if i < entries.len() && j < entries.len() {
                assert(entries[i].0 == entries[j].0);
            } else if i < entries.len() {
                assert(entries[i].0 != seg);
            } else if j < entries.len() {
                assert(entries[j].0 != seg);
            }
        }
        if u == t {
            assert(after[entries.len() as int].0 == u / 64);
        }
        if marks_tile(entries, u) {
            let m = choose|m: int|
                0 <= m < entries.len() && (#[trigger] entries[m]).0 == u / 64 && bit(
                    entries[m].1,
                    (u % 64) as int,
                );
            assert(after[m] == entries[m]);
        }
        if marks_tile(after, u) {
            let m = choose|m: int|
                0 <= m < after.len() && (#[trigger] after[m]).0 == u / 64 && bit(
                    after[m].1,
                    (u % 64) as int,
                );
            if m < entries.len() {
                assert(entries[m] == after[m]);
            } else if u != t {
                assert(ub != tb);
            }
        }
    }
}

/// A block's masks are exact: they mark a tile if and only if one of the block's ops writes
/// it, so a block whose masked segments are clean has nothing to evaluate.
pub proof fn law_block_masks_are_exact(ops: Seq<CompactOp>, lo: int, hi: int, t: u32)
    requires
        0 <= lo <= hi <= ops.len(),
    ensures
        marks_tile(block_entries(ops, lo, hi), t) <==> exists|i: int|
            lo <= i < hi && (#[trigger] ops[i]).idx == t,
{
    lemma_block_marks(ops, lo, hi, t);
}

proof fn lemma_block_marks(ops: Seq<CompactOp>, lo: int, hi: int, t: u32)
    requires
        0 <= lo <= hi <= ops.len(),
    ensures
        marks_tile(block_entries(ops, lo, hi), t) <==> exists|i: int|
            lo <= i < hi && (#[trigger] ops[i]).idx == t,
        forall|i: int, j: int|
            0 <= i < block_entries(ops, lo, hi).len() && 0 <= j < block_entries(ops, lo, hi).len()
                && (#[trigger] block_entries(ops, lo, hi)[i]).0 == (#[trigger] block_entries(
                ops,
                lo,
                hi,
            )[j]).0 ==> i == j,
    decreases hi - lo,
{
    if lo < hi {
        lemma_block_marks(ops, lo, hi - 1, t);
        lemma_add_tile_marks(block_entries(ops, lo, hi - 1), ops[hi - 1].idx, t);
        if exists|i: int| lo <= i < hi - 1 && (#[trigger] ops[i]).idx == t {
            let i = choose|i: int| lo <= i < hi - 1 && (#[trigger] ops[i]).idx == t;
            assert(ops[i].idx == t);
        }
        if exists|i: int| lo <= i < hi && (#[trigger] ops[i]).idx == t {
            let i = choose|i: int| lo <= i < hi && (#[trigger] ops[i]).idx == t;
            assert(ops[i].idx == t);
            if i < hi - 1 {
                assert(exists|k: int| lo <= k < hi - 1 && (#[trigger] ops[k]).idx == t);
            }
        }
        if ops[hi - 1].idx == t {
            assert(ops[hi - 1].idx == t);
        }
    }
}

// ---- Constant-swapped ops ----

/// The op as a constant.
pub open spec fn as_const(op: CompactOp) -> CompactOp {
    CompactOp { idx: op.idx, op: cop::COP_CONST, in0: NO_TILE, in1: NO_TILE, in2: NO_TILE }
}

/// The first slot from `k` on that writes tile `t`, or the length.
pub open spec fn first_writer(ops: Seq<CompactOp>, t: u32, k: int) -> int
    decreases ops.len() - k,
{
    if k >= ops.len() || ops[k].idx == t {
        k
    } else {
        first_writer(ops, t, k + 1)
    }
}

/// The ops with the first writer of tile `t`, if there is one, made a constant.
pub open spec fn const_at(ops: Seq<CompactOp>, t: u32) -> Seq<CompactOp> {
    let k = first_writer(ops, t, 0);
    if k < ops.len() {
        ops.update(k, as_const(ops[k]))
    } else {
        ops
    }
}

/// The ops with the first writer of each of the first `n` targets made a constant.
pub open spec fn const_swapped(ops: Seq<CompactOp>, targets: Seq<u32>, n: nat) -> Seq<CompactOp>
    decreases n,
{
    if n == 0 {
        ops
    } else {
        const_at(const_swapped(ops, targets, (n - 1) as nat), targets[n - 1])
    }
}

proof fn lemma_first_writer(ops: Seq<CompactOp>, t: u32, from: int, at: int)
    requires
        0 <= from <= at <= ops.len(),
        forall|k: int| from <= k < at ==> (#[trigger] ops[k]).idx != t,
        at < ops.len() ==> ops[at].idx == t,
    ensures
        first_writer(ops, t, from) == at,
    decreases at - from,
{
    if from < at {
        assert(ops[from].idx != t);
        lemma_first_writer(ops, t, from + 1, at);
    }
}

/// The ops with the writers of the target tiles made constants, so that injected values
/// survive a settle pass.
pub fn constswap_ops(ops: &Vec<CompactOp>, targets: &[u32; 8]) -> (r: Vec<CompactOp>)
    ensures
        r@ == const_swapped(ops@, targets@, 8),
        r@.len() == ops@.len(),
        forall|i: int| 0 <= i < ops@.len() ==> (#[trigger] r@[i]).idx == ops@[i].idx,
{
    let n: usize = ops.len();
    let mut r: Vec<CompactOp> = Vec::new();
    let mut i: usize = 0;
    while i < n
        invariant
            i <= n,
            n == ops@.len(),
            r@ == ops@.take(i as int),
        decreases n - i,
    {
        assert(ops@.take(i + 1) =~= ops@.take(i as int).push(ops@[i as int]));
        r.push(ops[i]);
        i = i + 1;
    }
    assert(ops@.take(n as int) =~= ops@);
    let mut col: usize = 0;
    while col < 8
        invariant
            col <= 8,
            n == ops@.len(),
            r@.len() == n,
            r@ == const_swapped(ops@, targets@, col as nat),
            forall|m: int| 0 <= m < n ==> (#[trigger] r@[m]).idx == ops@[m].idx,
        decreases 8 - col,
    {
        let t: u32 = targets[col];
        let ghost before = r@;
        let mut k: usize = 0;
        while k < n && r[k].idx != t
            invariant
                k <= n,
                n == r@.len(),
                forall|m: int| 0 <= m < k ==> (#[trigger] r@[m]).idx != t,
            decreases n - k,
        {
            k = k + 1;
        }
        proof {
            lemma_first_writer(r@, t, 0, k as int);
        }
        if k < n {
            let op = r[k];
            let swapped = CompactOp {
                idx: op.idx,
                op: cop::COP_CONST,
                in0: NO_TILE,
                in1: NO_TILE,
                in2: NO_TILE,
            };
            r.set(k, swapped);
        }
        assert forall|m: int| 0 <= m < n implies (#[trigger] r@[m]).idx == ops@[m].idx by {
            assert(r@[m].idx == before[m].idx);
        }
        col = col + 1;
    }
    r
}

// ---- Forward dependencies ----

/// The op reads the tile: through an operand, or for a plain wire from below.
pub open spec fn consumes(op: CompactOp, below: u32, t: u32) -> bool {
    op.in0 == t || op.in1 == t || op.in2 == t || (op.op == cop::COP_WIRE && below == t)
}

/// The dependents of slot `slot` in `data[lo..hi]` that are slots and read its tile.
pub open spec fn true_dependents(
    ops: Seq<CompactOp>,
    below: Seq<u32>,
    data: Seq<u32>,
    slot: int,
    lo: int,
    hi: int,
) -> Seq<u32>
    decreases hi - lo,
{
    if hi <= lo {
        Seq::empty()
    } else {
        let earlier = true_dependents(ops, below, data, slot, lo, hi - 1);
        let d = data[hi - 1];
        if d < ops.len() && consumes(ops[d as int], below[d as int], ops[slot].idx) {
            earlier.push(d)
        } else {
            earlier
        }
    }
}

/// The true dependents of the first `n` slots, one slot after another.
pub open spec fn dependents_upto(
    ops: Seq<CompactOp>,
    below: Seq<u32>,
    data: Seq<u32>,
    offsets: Seq<u32>,
    n: nat,
) -> Seq<u32>
    decreases n,
{
    if n == 0 {
        Seq::empty()
    } else {
        dependents_upto(ops, below, data, offsets, (n - 1) as nat) + true_dependents(
            ops,
            below,
            data,
            n - 1,
            offsets[n - 1] as int,
            offsets[n as int] as int,
        )
    }
}

/// Offsets that split a table of `len` entries into `n` runs.
pub open spec fn splits(offsets: Seq<u32>, n: nat, len: nat) -> bool {
    &&& offsets.len() == n + 1
    &&& forall|k: int| 0 <= k < n ==> #[trigger] offsets[k] <= offsets[k + 1]
    &&& offsets[n as int] <= len
}

proof fn lemma_offsets_below(offsets: Seq<u32>, n: nat, len: nat, k: int)
    requires
        splits(offsets, n, len),
        0 <= k <= n,
    ensures
        offsets[k] <= offsets[n as int],
    decreases n - k,
{
    if k < n {
        assert(offsets[k] <= offsets[k + 1]);
        lemma_offsets_below(offsets, n, len, k + 1);
    }
}

/// The dependents of each slot that really read its tile, with their offsets. `below[i]` is
/// the tile under the tile of slot `i`.
pub fn forward_deps(
    ops: &Vec<CompactOp>,
    below: &Vec<u32>,
    data: &Vec<u32>,
    offsets: &Vec<u32>,
) -> (r: (Vec<u32>, Vec<u32>))
    requires
        below@.len() == ops@.len(),
        splits(offsets@, ops@.len(), data@.len()),
    ensures
        r.0@ == dependents_upto(ops@, below@, data@, offsets@, ops@.len()),
        r.1@.len() == ops@.len() + 1,
        forall|k: int|
            0 <= k <= ops@.len() ==> #[trigger] r.1@[k] == dependents_upto(
                ops@,
                below@,
                data@,
                offsets@,
                k as nat,
            ).len(),
{
    let n: usize = ops.len();
    let mut fwd: Vec<u32> = Vec::new();
    let mut out: Vec<u32> = Vec::new();
    let mut slot: usize = 0;
    while slot < n
        invariant
            slot <= n,
            n == ops@.len(),
            below@.len() == n,
            splits(offsets@, n as nat, data@.len()),
            fwd@ == dependents_upto(ops@, below@, data@, offsets@, slot as nat),
            fwd@.len() <= offsets@[slot as int],
            out@.len() == slot,
            forall|k: int|
                0 <= k < slot ==> #[trigger] out@[k] == dependents_upto(
                    ops@,
                    below@,
                    data@,
                    offsets@,
                    k as nat,
                ).len(),
        decreases n - slot,
    {
        out.push(fwd.len() as u32);
        let t: u32 = ops[slot].idx;
        assert(offsets@[slot as int] <= offsets@[slot + 1]);
        proof {
            lemma_offsets_below(offsets@, n as nat, data@.len(), slot + 1);
        }
        let start: usize = offsets[slot] as usize;
        let end: usize = offsets[slot + 1] as usize;
        let ghost before = fwd@;
        let mut i: usize = start;
        assert(before + Seq::<u32>::empty() =~= before);
        while i < end
            invariant
                start <= i <= end <= data@.len(),
                slot < n,
                n == ops@.len(),
                below@.len() == n,
                t == ops@[slot as int].idx,
                start == offsets@[slot as int],
                before.len() <= start,
                fwd@.len() <= before.len() + (i - start),
                fwd@ == before + true_dependents(
                    ops@,
                    below@,
                    data@,
                    slot as int,
                    start as int,
                    i as int,
                ),
            decreases end - i,
        {
            let d: u32 = data[i];
            let ghost earlier = true_dependents(
                ops@,
                below@,
                data@,
                slot as int,
                start as int,
                i as int,
            );
            if (d as usize) < n {
                let dep = ops[d as usize];
                if dep.in0 == t || dep.in1 == t || dep.in2 == t || (dep.op == cop::COP_WIRE
                    && below[d as usize] == t) {
                    fwd.push(d);
                    assert((before + earlier).push(d) =~= before + earlier.push(d));
                }
            }
            i = i + 1;
        }
        slot = slot + 1;
    }
    out.push(fwd.len() as u32);
    (fwd, out)
}

} // verus!
