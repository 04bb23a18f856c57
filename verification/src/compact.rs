//! Compact op lists: selecting, partitioning and indexing the ops of an evaluation scope.
use vstd::prelude::*;

use std::collections::HashSet;

use crate::bitset::{empty_bits, has_tile, insert_tile};
use crate::cop;
use crate::device_plan::CompactOp;
use crate::slots::{filter_keep, select};

verus! {

broadcast use vstd::std_specs::hash::group_hash_axioms;

/// The tile, shift and mask of one weighted via. A scope lists these in the order of its
/// weighted-via ops.
pub type WeightedVia = (usize, u8, u64);

/// An operand that is not there.
pub const NO_TILE: u32 = u32::MAX;

/// How many of the first `n` ops are weighted vias.
pub open spec fn wvia_count(ops: Seq<CompactOp>, n: nat) -> nat
    decreases n,
{
    if n == 0 {
        0
    } else {
        wvia_count(ops, (n - 1) as nat) + if ops[n - 1].op == cop::COP_WVIA {
            1nat
        } else {
            0nat
        }
    }
}

/// The weighted-via entries of the selected ops among the first `n`.
pub open spec fn select_wvia(
    ops: Seq<CompactOp>,
    wvia: Seq<WeightedVia>,
    keep: Seq<bool>,
    n: nat,
) -> Seq<WeightedVia>
    decreases n,
{
    if n == 0 {
        Seq::empty()
    } else {
        let earlier = select_wvia(ops, wvia, keep, (n - 1) as nat);
        if keep[n - 1] && ops[n - 1].op == cop::COP_WVIA {
            earlier.push(wvia[wvia_count(ops, (n - 1) as nat) as int])
        } else {
            earlier
        }
    }
}

/// Operations, with the weighted-via entries of those that have one.
pub struct OpList {
    pub ops: Vec<CompactOp>,
    pub wvia: Vec<WeightedVia>,
}

impl OpList {
    /// There is an entry for every weighted-via operation.
    pub open spec fn wf(self) -> bool {
        wvia_count(self.ops@, self.ops@.len()) <= self.wvia@.len()
    }
}

/// Which ops write a tile of the set.
pub open spec fn in_set(ops: Seq<CompactOp>, set: Set<u32>) -> Seq<bool> {
    Seq::new(ops.len(), |i: int| set.contains(ops[i].idx))
}

/// Which ops write no tile of the set.
pub open spec fn not_in_set(ops: Seq<CompactOp>, set: Set<u32>) -> Seq<bool> {
    Seq::new(ops.len(), |i: int| !set.contains(ops[i].idx))
}

/// The op reads the tile through one of its three operands.
pub open spec fn reads_tile(op: CompactOp, t: u32) -> bool {
    t != NO_TILE && (op.in0 == t || op.in1 == t || op.in2 == t)
}

/// Select ops and their weighted-via entries.
pub fn select_ops(
    ops: &Vec<CompactOp>,
    wvia: &Vec<WeightedVia>,
    keep: &Vec<bool>,
) -> (r: (Vec<CompactOp>, Vec<WeightedVia>))
    requires
        keep@.len() == ops@.len(),
        wvia_count(ops@, ops@.len()) <= wvia@.len(),
    ensures
        r.0@ == select(ops@, keep@),
        r.1@ == select_wvia(ops@, wvia@, keep@, ops@.len()),
{
    let kept: Vec<CompactOp> = filter_keep(ops, keep);
    let mut entries: Vec<WeightedVia> = Vec::new();
    let total: usize = wvia.len();
    let mut next: usize = 0;
    let mut i: usize = 0;
    while i < ops.len()
        invariant
            i <= ops@.len(),
            total == wvia@.len(),
            keep@.len() == ops@.len(),
            wvia_count(ops@, ops@.len()) <= wvia@.len(),
            next == wvia_count(ops@, i as nat),
            entries@ == select_wvia(ops@, wvia@, keep@, i as nat),
        decreases ops@.len() - i,
    {
        if ops[i].op == cop::COP_WVIA {
            proof {
                lemma_wvia_count_grows(ops@, (i + 1) as nat, ops@.len());
            }
            if keep[i] {
                entries.push(wvia[next]);
            }
            next = next + 1;
        }
        i = i + 1;
    }
    (kept, entries)
}

proof fn lemma_wvia_count_grows(ops: Seq<CompactOp>, a: nat, b: nat)
    requires
        a <= b,
    ensures
        wvia_count(ops, a) <= wvia_count(ops, b),
    decreases b,
{
    if a < b {
        lemma_wvia_count_grows(ops, a, (b - 1) as nat);
    }
}

/// Selecting keeps the weighted-via entries aligned: the selected list has as many entries
/// as weighted-via ops.
pub proof fn law_selection_stays_aligned(
    ops: Seq<CompactOp>,
    wvia: Seq<WeightedVia>,
    keep: Seq<bool>,
)
    requires
        keep.len() == ops.len(),
    ensures
        wvia_count(select(ops, keep), select(ops, keep).len()) == select_wvia(
            ops,
            wvia,
            keep,
            ops.len(),
        ).len(),
    decreases ops.len(),
{
    if ops.len() > 0 {
        let init = ops.drop_last();
        let n = (ops.len() - 1) as nat;
        law_selection_stays_aligned(init, wvia, keep.take(n as int));
        crate::device_alu::lemma_select_prefix(init, keep.take(n as int), keep);
        lemma_select_wvia_prefix(init, ops, wvia, keep.take(n as int), keep, n);
        let earlier = select(init, keep);
        if keep[n as int] {
            let all = earlier.push(ops.last());
            lemma_wvia_count_prefix(all, earlier, earlier.len());
        }
    }
}

proof fn lemma_wvia_count_prefix(a: Seq<CompactOp>, b: Seq<CompactOp>, n: nat)
    requires
        n <= a.len(),
        n <= b.len(),
        forall|i: int| 0 <= i < n ==> a[i] == #[trigger] b[i],
    ensures
        wvia_count(a, n) == wvia_count(b, n),
    decreases n,
{
    if n > 0 {
        lemma_wvia_count_prefix(a, b, (n - 1) as nat);
        assert(a[n - 1] == b[n - 1]);
    }
}

proof fn lemma_select_wvia_prefix(
    a: Seq<CompactOp>,
    b: Seq<CompactOp>,
    wvia: Seq<WeightedVia>,
    keep_a: Seq<bool>,
    keep_b: Seq<bool>,
    n: nat,
)
    requires
        n <= a.len(),
        n <= b.len(),
        forall|i: int| 0 <= i < n ==> a[i] == #[trigger] b[i],
        forall|i: int| 0 <= i < n ==> keep_a[i] == #[trigger] keep_b[i],
    ensures
        select_wvia(a, wvia, keep_a, n) == select_wvia(b, wvia, keep_b, n),
    decreases n,
{
    if n > 0 {
        lemma_select_wvia_prefix(a, b, wvia, keep_a, keep_b, (n - 1) as nat);
        lemma_wvia_count_prefix(a, b, (n - 1) as nat);
        assert(a[n - 1] == b[n - 1]);
        assert(keep_a[n - 1] == keep_b[n - 1]);
    }
}

/// Flag the ops that write a tile of the set.
fn flag_members(ops: &Vec<CompactOp>, set: &HashSet<u32>, inside: bool) -> (keep: Vec<bool>)
    ensures
        keep@ == if inside {
            in_set(ops@, set@)
        } else {
            not_in_set(ops@, set@)
        },
{
    let mut keep: Vec<bool> = Vec::new();
    let mut i: usize = 0;
    while i < ops.len()
        invariant
            i <= ops@.len(),
            keep@.len() == i,
            forall|k: int| 0 <= k < i ==> #[trigger] keep@[k] == (set@.contains(ops@[k].idx)
                == inside),
        decreases ops@.len() - i,
    {
        let member: bool = set.contains(&ops[i].idx);
        keep.push(member == inside);
        i = i + 1;
    }
    assert(keep@ =~= if inside {
        in_set(ops@, set@)
    } else {
        not_in_set(ops@, set@)
    });
    keep
}

/// The ops that write a tile of the set, in order, with their weighted-via entries.
pub fn ops_in_closure(
    ops: &Vec<CompactOp>,
    wvia: &Vec<WeightedVia>,
    set: &HashSet<u32>,
) -> (r: (Vec<CompactOp>, Vec<WeightedVia>))
    requires
        wvia_count(ops@, ops@.len()) <= wvia@.len(),
    ensures
        r.0@ == select(ops@, in_set(ops@, set@)),
        r.1@ == select_wvia(ops@, wvia@, in_set(ops@, set@), ops@.len()),
{
    let keep: Vec<bool> = flag_members(ops, set, true);
    select_ops(ops, wvia, &keep)
}

/// The ops that write a tile of the set and those that do not, each in order and with their
/// weighted-via entries.
pub fn partition_ops(
    ops: &Vec<CompactOp>,
    wvia: &Vec<WeightedVia>,
    set: &HashSet<u32>,
) -> (r: (Vec<CompactOp>, Vec<WeightedVia>, Vec<CompactOp>, Vec<WeightedVia>))
    requires
        wvia_count(ops@, ops@.len()) <= wvia@.len(),
    ensures
        r.0@ == select(ops@, in_set(ops@, set@)),
        r.1@ == select_wvia(ops@, wvia@, in_set(ops@, set@), ops@.len()),
        r.2@ == select(ops@, not_in_set(ops@, set@)),
        r.3@ == select_wvia(ops@, wvia@, not_in_set(ops@, set@), ops@.len()),
{
    let inside: (Vec<CompactOp>, Vec<WeightedVia>) = ops_in_closure(ops, wvia, set);
    let keep: Vec<bool> = flag_members(ops, set, false);
    let outside: (Vec<CompactOp>, Vec<WeightedVia>) = select_ops(ops, wvia, &keep);
    (inside.0, inside.1, outside.0, outside.1)
}

// ---- The backward cone of a set of seed tiles ----

/// The needed tiles after one op has been looked at, last to first.
pub open spec fn need_step(op: CompactOp, needed: Set<u32>) -> Set<u32> {
    if needed.contains(op.idx) {
        Set::new(|t: u32| needed.contains(t) || reads_tile(op, t))
    } else {
        needed
    }
}

/// The tiles needed by the seeds through `ops[n..]`, looked at from the last to the first.
pub open spec fn needed_from(ops: Seq<CompactOp>, seeds: Set<u32>, n: nat) -> Set<u32>
    decreases ops.len() - n,
{
    if n >= ops.len() {
        seeds
    } else {
        need_step(ops[n as int], needed_from(ops, seeds, n + 1))
    }
}

/// The tiles of a list.
pub open spec fn tile_set(tiles: Seq<u32>) -> Set<u32> {
    Set::new(|t: u32| tiles.contains(t))
}

/// The ops that feed a seed tile, in order, with their weighted-via entries, and the bitset
/// of the tiles they write.
pub fn build_pipeline_cone(
    ops: &Vec<CompactOp>,
    wvia: &Vec<WeightedVia>,
    seeds: &Vec<u32>,
) -> (r: (Vec<CompactOp>, Vec<WeightedVia>, Vec<u64>))
    requires
        wvia_count(ops@, ops@.len()) <= wvia@.len(),
    ensures
        ({
            let keep = in_set(ops@, needed_from(ops@, tile_set(seeds@), 0));
            &&& r.0@ == select(ops@, keep)
            &&& r.1@ == select_wvia(ops@, wvia@, keep, ops@.len())
            &&& is_op_bitset(r.2@, r.0@)
        }),
{
    let mut needed: HashSet<u32> = HashSet::new();
    let mut i: usize = 0;
    while i < seeds.len()
        invariant
            i <= seeds@.len(),
            forall|t: u32| #[trigger] needed@.contains(t) <==> seeds@.take(i as int).contains(t),
        decreases seeds@.len() - i,
    {
        let ghost before = needed@;
        needed.insert(seeds[i]);
        proof {
            let s = seeds@[i as int];
            assert(seeds@.take(i + 1) =~= seeds@.take(i as int).push(s));
            assert forall|t: u32| #[trigger] needed@.contains(t) <==> seeds@.take(
                i + 1,
            ).contains(t) by {
                let old_list = seeds@.take(i as int);
                assert(before.contains(t) <==> old_list.contains(t));
                if old_list.contains(t) {
                    let k = choose|k: int| 0 <= k < old_list.len() && old_list[k] == t;
                    assert(old_list.push(s)[k] == t);
                }
                if t == s {
                    assert(old_list.push(s)[old_list.len() as int] == t);
                }
                if old_list.push(s).contains(t) && t != s {
                    let k = choose|k: int|
                        0 <= k < old_list.push(s).len() && old_list.push(s)[k] == t;
                    assert(old_list[k] == t);
                }
            }
        }
        i = i + 1;
    }
    assert(seeds@.take(i as int) =~= seeds@);
    assert(needed@ =~= tile_set(seeds@));
    let mut j: usize = ops.len();
    while j > 0
        invariant
            j <= ops@.len(),
            needed@ == needed_from(ops@, tile_set(seeds@), j as nat),
        decreases j,
    {
        let ghost before = needed@;
        j = j - 1;
        let op = ops[j];
        if needed.contains(&op.idx) {
            if op.in0 != NO_TILE {
                needed.insert(op.in0);
            }
            if op.in1 != NO_TILE {
                needed.insert(op.in1);
            }
            if op.in2 != NO_TILE {
                needed.insert(op.in2);
            }
        }
        assert(needed@ =~= need_step(op, before));
    }
    let cone: (Vec<CompactOp>, Vec<WeightedVia>) = ops_in_closure(ops, wvia, &needed);
    let bits: Vec<u64> = op_bitset(&cone.0);
    (cone.0, cone.1, bits)
}

/// Every op comes after the ops that write its operands.
pub open spec fn topological(ops: Seq<CompactOp>) -> bool {
    forall|i: int, j: int|
        0 <= i < ops.len() && 0 <= j < ops.len() && #[trigger] reads_tile(
            ops[i],
            #[trigger] ops[j].idx,
        ) ==> j < i
}

proof fn lemma_needed_grows(ops: Seq<CompactOp>, seeds: Set<u32>, a: nat, b: nat, t: u32)
    requires
        a <= b,
        needed_from(ops, seeds, b).contains(t),
    ensures
        needed_from(ops, seeds, a).contains(t),
    decreases b - a,
{
    if a < b {
        if a < ops.len() {
            lemma_needed_grows(ops, seeds, a + 1, b, t);
        }
    }
}

proof fn lemma_needed_origin(ops: Seq<CompactOp>, seeds: Set<u32>, j: int, n: nat)
    requires
        topological(ops),
        0 <= j < ops.len(),
        n <= j,
        needed_from(ops, seeds, n).contains(ops[j].idx),
    ensures
        needed_from(ops, seeds, (j + 1) as nat).contains(ops[j].idx),
    decreases j - n,
{
    let t = ops[j].idx;
    let after = needed_from(ops, seeds, n + 1);
    if !after.contains(t) {
        assert(reads_tile(ops[n as int], ops[j].idx));
        assert(j < n);
    }
    if n < j {
        lemma_needed_origin(ops, seeds, j, n + 1);
    }
}

/// The cone is closed: in a topological list, every operand of an op of the cone is itself
/// needed, so the op of the list that writes it belongs to the cone too.
pub proof fn law_cone_is_closed(ops: Seq<CompactOp>, seeds: Set<u32>, j: int, t: u32)
    requires
        topological(ops),
        0 <= j < ops.len(),
        needed_from(ops, seeds, 0).contains(ops[j].idx),
        reads_tile(ops[j], t),
    ensures
        needed_from(ops, seeds, 0).contains(t),
{
    lemma_needed_origin(ops, seeds, j, 0);
    assert(needed_from(ops, seeds, j as nat).contains(t));
    lemma_needed_grows(ops, seeds, 0, j as nat, t);
}

/// Some op writes the tile.
pub open spec fn writes_tile(ops: Seq<CompactOp>, t: int) -> bool {
    exists|i: int| 0 <= i < ops.len() && (#[trigger] ops[i]).idx == t
}

/// The bitset holds exactly the tiles that the ops write, in as few words as that takes and
/// at least one.
pub open spec fn is_op_bitset(bits: Seq<u64>, ops: Seq<CompactOp>) -> bool {
    &&& forall|t: int| #[trigger] has_tile(bits, t) <==> writes_tile(ops, t)
    &&& bits.len() >= 1
    &&& bits.len() > 1 ==> exists|i: int|
        0 <= i < ops.len() && (#[trigger] ops[i]).idx / 64 + 1 == bits.len()
}

/// The bitset of the tiles that the ops write.
pub fn op_bitset(ops: &Vec<CompactOp>) -> (bits: Vec<u64>)
    ensures
        is_op_bitset(bits@, ops@),
{
    let mut max: u32 = 0;
    let mut i: usize = 0;
    while i < ops.len()
        invariant
            i <= ops@.len(),
            forall|k: int| 0 <= k < i ==> (#[trigger] ops@[k]).idx <= max,
            max > 0 ==> exists|k: int| 0 <= k < i && (#[trigger] ops@[k]).idx == max,
        decreases ops@.len() - i,
    {
        if ops[i].idx > max {
            max = ops[i].idx;
        }
        i = i + 1;
    }
    let words: usize = (max / 64) as usize + 1;
    let mut bits: Vec<u64> = empty_bits(words);
    let mut j: usize = 0;
    while j < ops.len()
        invariant
            j <= ops@.len(),
            words == max / 64 + 1,
            bits@.len() == words,
            forall|k: int| 0 <= k < ops@.len() ==> (#[trigger] ops@[k]).idx <= max,
            forall|t: int| #[trigger]
                has_tile(bits@, t) <==> exists|k: int| 0 <= k < j && (#[trigger] ops@[k]).idx == t,
        decreases ops@.len() - j,
    {
        let ghost before = bits@;
        assert(ops@[j as int].idx <= max);
        insert_tile(&mut bits, ops[j].idx as usize);
        proof {
            assert forall|t: int| #[trigger] has_tile(bits@, t) <==> exists|k: int|
                0 <= k < j + 1 && (#[trigger] ops@[k]).idx == t by {
                assert(has_tile(before, t) <==> exists|k: int|
                    0 <= k < j && (#[trigger] ops@[k]).idx == t);
                if has_tile(before, t) {
                    let k = choose|k: int| 0 <= k < j && (#[trigger] ops@[k]).idx == t;
                    assert(ops@[k].idx == t);
                }
                if t == ops@[j as int].idx {
                    assert(ops@[j as int].idx == t);
                }
            }
        }
        j = j + 1;
    }
    bits
}

} // verus!
