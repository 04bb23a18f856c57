//! Device ALU programs: the op streams of a plan renumbered into one dense slot universe.
use vstd::prelude::*;

use std::collections::HashMap;

use crate::cop;
use crate::device_model::{
    kept, live_after_cone, live_after_settle, live_after_trunk, live_at_bridge, live_at_inject,
    live_before, live_step, pruned, NamedOp, NamedProgram, Taps,
};
use crate::device_plan::{cell, AluKernel, DeviceCyclePlan, DeviceLayout};
use crate::slots::{
    assign_slot, distinct, extends, filter_keep, index_of, names, note, note_all, numbering,
    select, slot_name,
};

verus! {

/// One op over slots. `ins` holds `in0`, `in1`, `in2` and the four neighbours.
#[derive(Clone, Copy, Debug)]
pub struct DeviceOp {
    pub code: u8,
    pub out: u32,
    pub ins: [u32; 7],
    pub threshold: u8,
    pub shift: u8,
    pub mask: u64,
}

impl DeviceOp {
    /// The op over named cells, where `touched` lists the tile of each slot.
    pub open spec fn named(self, touched: Seq<u32>, zero: u32) -> NamedOp {
        NamedOp {
            code: self.code,
            out: slot_name(touched, zero, self.out),
            ins: Seq::new(7, |k: int| slot_name(touched, zero, self.ins@[k])),
            threshold: self.threshold,
            shift: self.shift,
            mask: self.mask,
        }
    }

    /// Every slot is `zero` or below `n`, and the shift is valid.
    pub open spec fn in_range(self, n: nat, zero: u32) -> bool {
        &&& self.out == zero || self.out < n
        &&& forall|k: int| 0 <= k < 7 ==> #[trigger] self.ins@[k] == zero || self.ins@[k] < n
        &&& self.shift < 64
    }
}

/// The ops over named cells.
pub open spec fn named_ops(ops: Seq<DeviceOp>, touched: Seq<u32>, zero: u32) -> Seq<NamedOp> {
    Seq::new(ops.len(), |j: int| ops[j].named(touched, zero))
}

/// Every op is in range.
pub open spec fn ops_in_range(ops: Seq<DeviceOp>, n: nat, zero: u32) -> bool {
    forall|j: int| 0 <= j < ops.len() ==> (#[trigger] ops[j]).in_range(n, zero)
}

/// The cells an op mentions: its output, then its inputs.
pub open spec fn op_cells(op: NamedOp) -> Seq<int> {
    seq![op.out] + op.ins
}

/// The list after the cells of every op have been noted, first to last.
pub open spec fn note_ops(list: Seq<int>, ops: Seq<NamedOp>) -> Seq<int>
    decreases ops.len(),
{
    if ops.len() == 0 {
        list
    } else {
        note_all(note_ops(list, ops.drop_last()), op_cells(ops.last()))
    }
}

/// The cells of the taps, in the order in which they are numbered.
pub open spec fn tap_cells(t: Taps) -> Seq<int> {
    seq![t.pc] + t.final_mux + t.inject_right + t.inject + t.bank47[0] + t.bank47[1] + t.bank47[2]
        + t.bank47[3] + seq![t.a_term, t.b_term, t.root]
}

/// The cells of a program in order of first mention: streams first, then the taps.
pub open spec fn mention_order(p: NamedProgram) -> Seq<int> {
    note_all(
        note_ops(note_ops(note_ops(Seq::empty(), p.cone), p.settle), p.trunk),
        tap_cells(p.taps),
    )
}

/// Some op of the stream mentions the cell.
pub open spec fn stream_mentions(ops: Seq<NamedOp>, c: int) -> bool {
    exists|j: int| 0 <= j < ops.len() && op_cells(#[trigger] ops[j]).contains(c)
}

/// The program mentions the cell.
pub open spec fn mentions(p: NamedProgram, c: int) -> bool {
    stream_mentions(p.cone, c) || stream_mentions(p.settle, c) || stream_mentions(p.trunk, c)
        || tap_cells(p.taps).contains(c)
}

/// The program of a plan: all of it, or only what reaches the ALU root.
pub open spec fn built_program(plan: DeviceCyclePlan, prune: bool) -> NamedProgram {
    if prune {
        pruned(plan.program())
    } else {
        plan.program()
    }
}

/// The tiles of a built program, slot by slot: in order of first mention in the whole
/// program, and with pruning only those that the pruned program still mentions.
pub open spec fn built_slots(plan: DeviceCyclePlan, prune: bool) -> Seq<int> {
    let all = mention_order(plan.program());
    if prune {
        select(all, Seq::new(all.len(), |i: int| mentions(pruned(plan.program()), all[i])))
    } else {
        all
    }
}

proof fn lemma_extend_named(ops: Seq<DeviceOp>, a: Seq<u32>, b: Seq<u32>, zero: u32)
    requires
        extends(a, b),
        ops_in_range(ops, a.len(), zero),
    ensures
        named_ops(ops, a, zero) == named_ops(ops, b, zero),
        ops_in_range(ops, b.len(), zero),
{
    assert forall|j: int| 0 <= j < ops.len() implies named_ops(ops, a, zero)[j] == named_ops(
        ops,
        b,
        zero,
    )[j] by {
        assert(ops[j].in_range(a.len(), zero));
        assert(ops[j].named(a, zero).ins =~= ops[j].named(b, zero).ins);
    }
    assert(named_ops(ops, a, zero) =~= named_ops(ops, b, zero));
    assert forall|j: int| 0 <= j < ops.len() implies (#[trigger] ops[j]).in_range(
        b.len(),
        zero,
    ) by {
        assert(ops[j].in_range(a.len(), zero));
    }
}

proof fn lemma_note_all_push(list: Seq<int>, cells: Seq<int>, c: int)
    ensures
        note_all(list, cells.push(c)) == note(note_all(list, cells), c),
{
    assert(cells.push(c).drop_last() =~= cells);
}

/// Number the cells of op `i` of a kernel.
fn number_op(
    kernel: &AluKernel,
    i: usize,
    zero_row: u32,
    slot_of: &mut HashMap<u32, u32>,
    touched: &mut Vec<u32>,
) -> (op: DeviceOp)
    requires
        i < kernel.op_len(),
        kernel.shifts_valid(),
        numbering(old(slot_of)@, old(touched)@),
        old(touched)@.len() + 8 < u32::MAX,
    ensures
        numbering(final(slot_of)@, final(touched)@),
        extends(old(touched)@, final(touched)@),
        final(touched)@.len() <= old(touched)@.len() + 8,
        names(final(touched)@) == note_all(
            names(old(touched)@),
            op_cells(kernel.named_op(i as int, zero_row)),
        ),
        op.in_range(final(touched)@.len(), u32::MAX),
        op.named(final(touched)@, u32::MAX) == kernel.named_op(i as int, zero_row),
{
    let ghost named = kernel.named_op(i as int, zero_row);
    let ghost n0 = names(touched@);
    let c: CompactOpCells = kernel_cells(kernel, i, zero_row);
    let out: u32 = index_of(c.out, zero_row, slot_of, touched);
    let mut ins: [u32; 7] = [u32::MAX;7];
    let mut k: usize = 0;
    let ghost mut seen: Seq<int> = seq![named.out];
    proof {
        lemma_note_all_push(n0, Seq::empty(), named.out);
        assert(Seq::<int>::empty().push(named.out) =~= seen);
    }
    let ghost first = touched@;
    while k < 7
        invariant
            k <= 7,
            i < kernel.op_len(),
            named == kernel.named_op(i as int, zero_row),
            named.ins.len() == 7,
            c.out == kernel.ops@[i as int].idx,
            forall|m: int| 0 <= m < 7 ==> cell(#[trigger] c.ins@[m], zero_row) == named.ins[m],
            numbering(slot_of@, touched@),
            extends(old(touched)@, touched@),
            extends(first, touched@),
            out == u32::MAX || out < first.len(),
            slot_name(first, u32::MAX, out) == named.out,
            touched@.len() <= old(touched)@.len() + 1 + k,
            old(touched)@.len() + 8 < u32::MAX,
            n0 == names(old(touched)@),
            seen == seq![named.out] + named.ins.take(k as int),
            names(touched@) == note_all(n0, seen),
            forall|m: int|
                0 <= m < k ==> (#[trigger] ins@[m] == u32::MAX || ins@[m] < touched@.len())
                    && slot_name(touched@, u32::MAX, ins@[m]) == named.ins[m],
        decreases 7 - k,
    {
        let ghost before = touched@;
        let ghost ins_before = ins@;
        let s: u32 = index_of(c.ins[k], zero_row, slot_of, touched);
        ins[k] = s;
        proof {
            lemma_note_all_push(n0, seen, named.ins[k as int]);
            seen = seen.push(named.ins[k as int]);
            assert(named.ins.take(k + 1) =~= named.ins.take(k as int).push(named.ins[k as int]));
            assert(seen =~= seq![named.out] + named.ins.take(k + 1));
            assert forall|m: int| 0 <= m < k + 1 implies (#[trigger] ins@[m] == u32::MAX || ins@[m]
                < touched@.len()) && slot_name(touched@, u32::MAX, ins@[m]) == named.ins[m] by {
                if m < k {
                    assert(ins@[m] == ins_before[m]);
                    if ins@[m] != u32::MAX {
                        assert(touched@[ins@[m] as int] == before[ins@[m] as int]);
                    }
                }
            }
        }
        k = k + 1;
    }
    assert(named.ins.take(7) =~= named.ins);
    let op = DeviceOp { code: c.code, out, ins, threshold: c.threshold, shift: c.shift, mask: c.mask };
    proof {
        if out != u32::MAX {
            assert(touched@[out as int] == first[out as int]);
        }
        assert(op.named(touched@, u32::MAX).ins =~= named.ins);
        assert(kernel.wvia@[i as int].0 < 64);
    }
    op
}

/// The tiles and constants of one op of a kernel.
struct CompactOpCells {
    code: u8,
    out: u32,
    ins: [u32; 7],
    threshold: u8,
    shift: u8,
    mask: u64,
}

fn kernel_cells(kernel: &AluKernel, i: usize, zero_row: u32) -> (c: CompactOpCells)
    requires
        i < kernel.op_len(),
    ensures
        c.code == kernel.named_op(i as int, zero_row).code,
        c.out == kernel.ops@[i as int].idx,
        forall|m: int|
            0 <= m < 7 ==> cell(#[trigger] c.ins@[m], zero_row) == kernel.named_op(
                i as int,
                zero_row,
            ).ins[m],
        c.threshold == kernel.named_op(i as int, zero_row).threshold,
        c.shift == kernel.named_op(i as int, zero_row).shift,
        c.mask == kernel.named_op(i as int, zero_row).mask,
{
    let op = kernel.ops[i];
    let w: (u8, u64) = kernel.wvia[i];
    let tv = kernel.tvia[i];
    if op.op == cop::COP_THRESHOLD_VIA {
        CompactOpCells {
            code: op.op,
            out: op.idx,
            ins: [
                op.in0,
                op.in1,
                op.in2,
                tv.neighbors[0],
                tv.neighbors[1],
                tv.neighbors[2],
                tv.neighbors[3],
            ],
            threshold: tv.threshold,
            shift: w.0,
            mask: w.1,
        }
    } else {
        CompactOpCells {
            code: op.op,
            out: op.idx,
            ins: [op.in0, op.in1, op.in2, zero_row, zero_row, zero_row, zero_row],
            threshold: 0,
            shift: w.0,
            mask: w.1,
        }
    }
}

/// Append the ops of a kernel to `ops`, numbering the cells they mention.
fn append_kernel(
    kernel: &AluKernel,
    zero_row: u32,
    slot_of: &mut HashMap<u32, u32>,
    touched: &mut Vec<u32>,
    ops: &mut Vec<DeviceOp>,
)
    requires
        kernel.shifts_valid(),
        numbering(old(slot_of)@, old(touched)@),
        old(touched)@.len() + 8 * kernel.op_len() + 8 < u32::MAX,
        ops_in_range(old(ops)@, old(touched)@.len(), u32::MAX),
    ensures
        numbering(final(slot_of)@, final(touched)@),
        extends(old(touched)@, final(touched)@),
        final(touched)@.len() <= old(touched)@.len() + 8 * kernel.op_len(),
        ops_in_range(final(ops)@, final(touched)@.len(), u32::MAX),
        named_ops(final(ops)@, final(touched)@, u32::MAX) == named_ops(
            old(ops)@,
            old(touched)@,
            u32::MAX,
        ) + kernel.stream(zero_row, kernel.op_len()),
        names(final(touched)@) == note_ops(
            names(old(touched)@),
            kernel.stream(zero_row, kernel.op_len()),
        ),
{
    let n: usize = kernel.op_count();
    let mut i: usize = 0;
    let ghost prefix = named_ops(ops@, touched@, u32::MAX);
    assert(prefix + kernel.stream(zero_row, 0) =~= prefix);
    while i < n
        invariant
            i <= n,
            n == kernel.op_len(),
            kernel.shifts_valid(),
            numbering(slot_of@, touched@),
            extends(old(touched)@, touched@),
            touched@.len() <= old(touched)@.len() + 8 * i,
            old(touched)@.len() + 8 * kernel.op_len() + 8 < u32::MAX,
            ops_in_range(ops@, touched@.len(), u32::MAX),
            named_ops(ops@, touched@, u32::MAX) == prefix + kernel.stream(zero_row, i as nat),
            names(touched@) == note_ops(
                names(old(touched)@),
                kernel.stream(zero_row, i as nat),
            ),
        decreases n - i,
    {
        let ghost stream = kernel.stream(zero_row, i as nat);
        if kernel.ops[i].op != cop::COP_CONST {
            let ghost before = touched@;
            let ghost ops_before = ops@;
            let op = number_op(kernel, i, zero_row, slot_of, touched);
            proof {
                lemma_extend_named(ops_before, before, touched@, u32::MAX);
            }
            ops.push(op);
            proof {
                let named = kernel.named_op(i as int, zero_row);
                assert(named_ops(ops@, touched@, u32::MAX) =~= named_ops(
                    ops_before,
                    touched@,
                    u32::MAX,
                ).push(named));
                assert(prefix + stream.push(named) =~= (prefix + stream).push(named));
                assert(stream.push(named).drop_last() =~= stream);
            }
        }
        i = i + 1;
    }
}

/// The slots that the device cycle writes and reads around the op streams.
#[derive(Clone, Copy, Debug)]
pub struct TapSlots {
    pub pc: u32,
    pub final_mux: [u32; 4],
    pub inject_right: [u32; 4],
    pub inject: [u32; 4],
    /// Entry `4 * b + lane` is lane `lane` of bank `4 + b`.
    pub bank47: [u32; 16],
    pub a_term: u32,
    pub b_term: u32,
    pub root: u32,
}

impl TapSlots {
    /// The taps over named cells.
    pub open spec fn named(self, touched: Seq<u32>, zero: u32) -> Taps {
        Taps {
            pc: slot_name(touched, zero, self.pc),
            final_mux: Seq::new(4, |i: int| slot_name(touched, zero, self.final_mux@[i])),
            inject_right: Seq::new(4, |i: int| slot_name(touched, zero, self.inject_right@[i])),
            inject: Seq::new(4, |i: int| slot_name(touched, zero, self.inject@[i])),
            bank47: Seq::new(
                4,
                |b: int| Seq::new(4, |i: int| slot_name(touched, zero, self.bank47@[4 * b + i])),
            ),
            a_term: slot_name(touched, zero, self.a_term),
            b_term: slot_name(touched, zero, self.b_term),
            root: slot_name(touched, zero, self.root),
        }
    }

    /// Every slot is below `n`.
    pub open spec fn below(self, n: nat) -> bool {
        &&& self.pc < n
        &&& forall|i: int| 0 <= i < 4 ==> #[trigger] self.final_mux@[i] < n
        &&& forall|i: int| 0 <= i < 4 ==> #[trigger] self.inject_right@[i] < n
        &&& forall|i: int| 0 <= i < 4 ==> #[trigger] self.inject@[i] < n
        &&& forall|i: int| 0 <= i < 16 ==> #[trigger] self.bank47@[i] < n
        &&& self.a_term < n
        &&& self.b_term < n
        &&& self.root < n
    }
}

proof fn lemma_note_all_add(list: Seq<int>, a: Seq<int>, b: Seq<int>)
    ensures
        note_all(note_all(list, a), b) == note_all(list, a + b),
    decreases b.len(),
{
    if b.len() == 0 {
        assert(a + b =~= a);
    } else {
        lemma_note_all_add(list, a, b.drop_last());
        assert((a + b).drop_last() =~= a + b.drop_last());
    }
}

/// Number each tile of a list.
fn number_tiles(
    tiles: &[u32],
    slot_of: &mut HashMap<u32, u32>,
    touched: &mut Vec<u32>,
) -> (r: Vec<u32>)
    requires
        numbering(old(slot_of)@, old(touched)@),
        old(touched)@.len() + tiles@.len() < u32::MAX,
    ensures
        numbering(final(slot_of)@, final(touched)@),
        extends(old(touched)@, final(touched)@),
        final(touched)@.len() <= old(touched)@.len() + tiles@.len(),
        names(final(touched)@) == note_all(names(old(touched)@), names(tiles@)),
        r@.len() == tiles@.len(),
        forall|i: int|
            0 <= i < r@.len() ==> #[trigger] r@[i] < final(touched)@.len()
                && final(touched)@[r@[i] as int] == tiles@[i],
{
    let mut r: Vec<u32> = Vec::new();
    let mut i: usize = 0;
    let ghost n0 = names(touched@);
    assert(names(tiles@).take(0) =~= Seq::<int>::empty());
    while i < tiles.len()
        invariant
            i <= tiles@.len(),
            numbering(slot_of@, touched@),
            extends(old(touched)@, touched@),
            touched@.len() <= old(touched)@.len() + i,
            old(touched)@.len() + tiles@.len() < u32::MAX,
            names(touched@) == note_all(n0, names(tiles@).take(i as int)),
            r@.len() == i,
            forall|m: int|
                0 <= m < i ==> #[trigger] r@[m] < touched@.len() && touched@[r@[m] as int]
                    == tiles@[m],
        decreases tiles@.len() - i,
    {
        let ghost before = touched@;
        let ghost r_before = r@;
        let s: u32 = assign_slot(tiles[i], slot_of, touched);
        r.push(s);
        proof {
            let all = names(tiles@);
            lemma_note_all_push(n0, all.take(i as int), all[i as int]);
            assert(all.take(i + 1) =~= all.take(i as int).push(all[i as int]));
            assert forall|m: int| 0 <= m < i + 1 implies #[trigger] r@[m] < touched@.len()
                && touched@[r@[m] as int] == tiles@[m] by {
                if m < i {
                    assert(r@[m] == r_before[m]);
                    assert(touched@[r@[m] as int] == before[r@[m] as int]);
                }
            }
        }
        i = i + 1;
    }
    assert(names(tiles@).take(i as int) =~= names(tiles@));
    r
}

/// Number the tiles that the device cycle writes and reads.
fn number_taps(
    layout: &DeviceLayout,
    slot_of: &mut HashMap<u32, u32>,
    touched: &mut Vec<u32>,
) -> (taps: TapSlots)
    requires
        numbering(old(slot_of)@, old(touched)@),
        old(touched)@.len() + 32 < u32::MAX,
    ensures
        numbering(final(slot_of)@, final(touched)@),
        extends(old(touched)@, final(touched)@),
        final(touched)@.len() <= old(touched)@.len() + 32,
        names(final(touched)@) == note_all(names(old(touched)@), tap_cells(layout.taps())),
        taps.below(final(touched)@.len()),
        taps.named(final(touched)@, final(touched)@.len() as u32) == layout.taps(),
{
    let mut tiles: Vec<u32> = Vec::new();
    tiles.push(layout.pc_idx);
    let mut i: usize = 0;
    while i < 4
        invariant
            i <= 4,
            tiles@.len() == 1 + i,
            tiles@[0] == layout.pc_idx,
            forall|m: int| 0 <= m < i ==> #[trigger] tiles@[1 + m] == layout.final_mux_indices@[m],
        decreases 4 - i,
    {
        tiles.push(layout.final_mux_indices[i]);
        i = i + 1;
    }
    i = 0;
    while i < 4
        invariant
            i <= 4,
            tiles@.len() == 5 + i,
            tiles@[0] == layout.pc_idx,
            forall|m: int| 0 <= m < 4 ==> #[trigger] tiles@[1 + m] == layout.final_mux_indices@[m],
            forall|m: int|
                0 <= m < i ==> #[trigger] tiles@[5 + m]
                    == layout.super_mux_inject_right_indices@[m],
        decreases 4 - i,
    {
        tiles.push(layout.super_mux_inject_right_indices[i]);
        i = i + 1;
    }
    i = 0;
    while i < 4
        invariant
            i <= 4,
            tiles@.len() == 9 + i,
            tiles@[0] == layout.pc_idx,
            forall|m: int| 0 <= m < 4 ==> #[trigger] tiles@[1 + m] == layout.final_mux_indices@[m],
            forall|m: int|
                0 <= m < 4 ==> #[trigger] tiles@[5 + m]
                    == layout.super_mux_inject_right_indices@[m],
            forall|m: int|
                0 <= m < i ==> #[trigger] tiles@[9 + m] == layout.super_mux_inject_indices@[m],
        decreases 4 - i,
    {
        tiles.push(layout.super_mux_inject_indices[i]);
        i = i + 1;
    }
    i = 0;
    while i < 16
        invariant
            i <= 16,
            tiles@.len() == 13 + i,
            tiles@[0] == layout.pc_idx,
            forall|m: int| 0 <= m < 4 ==> #[trigger] tiles@[1 + m] == layout.final_mux_indices@[m],
            forall|m: int|
                0 <= m < 4 ==> #[trigger] tiles@[5 + m]
                    == layout.super_mux_inject_right_indices@[m],
            forall|m: int|
                0 <= m < 4 ==> #[trigger] tiles@[9 + m] == layout.super_mux_inject_indices@[m],
            forall|m: int|
                0 <= m < i ==> #[trigger] tiles@[13 + m] == layout.bank47_mux_indices@[m],
        decreases 16 - i,
    {
        tiles.push(layout.bank47_mux_indices[i]);
        i = i + 1;
    }
    tiles.push(layout.alu_a_trunk_terminal_idx);
    tiles.push(layout.alu_b_trunk_terminal_idx);
    tiles.push(layout.wb_alu_root_idx);
    let ghost lt = layout.taps();
    assert(names(tiles@) =~= tap_cells(lt)) by {
        assert forall|m: int| 0 <= m < 32 implies names(tiles@)[m] == tap_cells(lt)[m] by {
            if 1 <= m && m < 5 {
                assert(tiles@[1 + (m - 1)] == layout.final_mux_indices@[m - 1]);
            } else if 5 <= m && m < 9 {
                assert(tiles@[5 + (m - 5)] == layout.super_mux_inject_right_indices@[m - 5]);
            } else if 9 <= m && m < 13 {
                assert(tiles@[9 + (m - 9)] == layout.super_mux_inject_indices@[m - 9]);
            } else if 13 <= m && m < 29 {
                assert(tiles@[13 + (m - 13)] == layout.bank47_mux_indices@[m - 13]);
            }
        }
    }
    let r: Vec<u32> = number_tiles(tiles.as_slice(), slot_of, touched);
    let taps = TapSlots {
        pc: r[0],
        final_mux: [r[1], r[2], r[3], r[4]],
        inject_right: [r[5], r[6], r[7], r[8]],
        inject: [r[9], r[10], r[11], r[12]],
        bank47: [
            r[13],
            r[14],
            r[15],
            r[16],
            r[17],
            r[18],
            r[19],
            r[20],
            r[21],
            r[22],
            r[23],
            r[24],
            r[25],
            r[26],
            r[27],
            r[28],
        ],
        a_term: r[29],
        b_term: r[30],
        root: r[31],
    };
    proof {
        let zero = touched@.len() as u32;
        assert forall|m: int| 0 <= m < 4 implies #[trigger] taps.final_mux@[m] == r@[1 + m] by {}
        assert forall|m: int| 0 <= m < 4 implies #[trigger] taps.inject_right@[m] == r@[5 + m] by {}
        assert forall|m: int| 0 <= m < 4 implies #[trigger] taps.inject@[m] == r@[9 + m] by {}
        assert forall|m: int| 0 <= m < 16 implies #[trigger] taps.bank47@[m] == r@[13 + m] by {}
        let nt = taps.named(touched@, zero);
        assert(nt.final_mux =~= lt.final_mux) by {
            assert forall|m: int| 0 <= m < 4 implies nt.final_mux[m] == lt.final_mux[m] by {
                assert(tiles@[1 + m] == layout.final_mux_indices@[m]);
                assert(taps.final_mux@[m] == r@[1 + m]);
            }
        }
        assert(nt.inject_right =~= lt.inject_right) by {
            assert forall|m: int| 0 <= m < 4 implies nt.inject_right[m] == lt.inject_right[m] by {
                assert(tiles@[5 + m] == layout.super_mux_inject_right_indices@[m]);
                assert(taps.inject_right@[m] == r@[5 + m]);
            }
        }
        assert(nt.inject =~= lt.inject) by {
            assert forall|m: int| 0 <= m < 4 implies nt.inject[m] == lt.inject[m] by {
                assert(tiles@[9 + m] == layout.super_mux_inject_indices@[m]);
                assert(taps.inject@[m] == r@[9 + m]);
            }
        }
        assert(nt.bank47 =~= lt.bank47) by {
            assert forall|b: int| 0 <= b < 4 implies nt.bank47[b] == lt.bank47[b] by {
                assert forall|m: int| 0 <= m < 4 implies nt.bank47[b][m] == lt.bank47[b][m] by {
                    assert(tiles@[13 + (4 * b + m)] == layout.bank47_mux_indices@[4 * b + m]);
                    assert(taps.bank47@[4 * b + m] == r@[13 + (4 * b + m)]);
                }
                assert(nt.bank47[b] =~= lt.bank47[b]);
            }
        }
    }
    taps
}

/// Give the zero row its slot: replace the placeholder in every op.
fn patch_zero(ops: &mut Vec<DeviceOp>, zero: u32, Ghost(touched): Ghost<Seq<u32>>)
    requires
        zero == touched.len(),
        touched.len() < u32::MAX,
        ops_in_range(old(ops)@, touched.len(), u32::MAX),
    ensures
        ops_in_range(final(ops)@, touched.len(), zero),
        named_ops(final(ops)@, touched, zero) == named_ops(old(ops)@, touched, u32::MAX),
{
    let n: usize = ops.len();
    let mut j: usize = 0;
    while j < n
        invariant
            j <= n,
            n == ops@.len(),
            n == old(ops)@.len(),
            zero == touched.len(),
            touched.len() < u32::MAX,
            ops_in_range(old(ops)@, touched.len(), u32::MAX),
            forall|m: int|
                0 <= m < j ==> (#[trigger] ops@[m]).in_range(touched.len(), zero) && ops@[m].named(
                    touched,
                    zero,
                ) == old(ops)@[m].named(touched, u32::MAX),
            forall|m: int| j <= m < n ==> #[trigger] ops@[m] == old(ops)@[m],
        decreases n - j,
    {
        let mut op = ops[j];
        let ghost orig = op;
        assert(old(ops)@[j as int].in_range(touched.len(), u32::MAX));
        if op.out == u32::MAX {
            op.out = zero;
        }
        let mut k: usize = 0;
        while k < 7
            invariant
                k <= 7,
                zero == touched.len(),
                touched.len() < u32::MAX,
                orig.in_range(touched.len(), u32::MAX),
                op.code == orig.code && op.threshold == orig.threshold && op.shift == orig.shift
                    && op.mask == orig.mask,
                op.out == if orig.out == u32::MAX { zero } else { orig.out },
                forall|m: int|
                    0 <= m < k ==> #[trigger] op.ins@[m] == if orig.ins@[m] == u32::MAX {
                        zero
                    } else {
                        orig.ins@[m]
                    },
                forall|m: int| k <= m < 7 ==> #[trigger] op.ins@[m] == orig.ins@[m],
            decreases 7 - k,
        {
            if op.ins[k] == u32::MAX {
                op.ins[k] = zero;
            }
            k = k + 1;
        }
        proof {
            assert forall|m: int| 0 <= m < 7 implies slot_name(touched, zero, #[trigger] op.ins@[m])
                == slot_name(touched, u32::MAX, orig.ins@[m]) && (op.ins@[m] == zero || op.ins@[m]
                < touched.len()) by {
                assert(orig.ins@[m] == u32::MAX || orig.ins@[m] < touched.len());
            }
            assert(op.named(touched, zero).ins =~= orig.named(touched, u32::MAX).ins);
        }
        ops.set(j, op);
        j = j + 1;
    }
    assert(named_ops(ops@, touched, zero) =~= named_ops(old(ops)@, touched, u32::MAX));
}

/// `live` flags exactly the slots whose cells are in `set`.
pub open spec fn tracks(live: Seq<bool>, touched: Seq<u32>, set: Set<int>) -> bool {
    let zero = touched.len() as u32;
    &&& live.len() == touched.len() + 1
    &&& forall|s: int|
        0 <= s < live.len() ==> #[trigger] live[s] == set.contains(
            slot_name(touched, zero, s as u32),
        )
}

/// One backward-liveness step: if the output of op `j` is live, keep the op and mark its
/// inputs live; a RAM op also consumes what its output holds.
fn live_process(j: usize, live: &mut Vec<bool>, keep: &mut Vec<bool>, ops: &Vec<DeviceOp>)
    requires
        j < ops@.len(),
        old(keep)@.len() == ops@.len(),
        ops@[j as int].out < old(live)@.len(),
    ensures
        final(live)@.len() == old(live)@.len(),
        forall|s: int|
            0 <= s < old(live)@.len() ==> #[trigger] final(live)@[s] == if old(
                live,
            )@[ops@[j as int].out as int] {
                (s != ops@[j as int].out && old(live)@[s]) || (exists|k: int|
                    0 <= k < 7 && #[trigger] ops@[j as int].ins@[k] == s) || (ops@[j as int].code
                    == cop::COP_RAM && s == ops@[j as int].out)
            } else {
                old(live)@[s]
            },
        final(keep)@ == if old(live)@[ops@[j as int].out as int] {
            old(keep)@.update(j as int, true)
        } else {
            old(keep)@
        },
{
    let op = ops[j];
    let out: usize = op.out as usize;
    if !live[out] {
        return;
    }
    keep.set(j, true);
    live.set(out, false);
    let ghost cleared = live@;
    let n: usize = live.len();
    let mut k: usize = 0;
    while k < 7
        invariant
            k <= 7,
            n == live@.len(),
            n == cleared.len(),
            forall|s: int|
                0 <= s < n ==> #[trigger] live@[s] == (cleared[s] || exists|m: int|
                    0 <= m < k && #[trigger] op.ins@[m] == s),
        decreases 7 - k,
    {
        let s: usize = op.ins[k] as usize;
        let ghost before = live@;
        if s < n {
            live.set(s, true);
        }
        proof {
            assert forall|t: int| 0 <= t < n implies #[trigger] live@[t] == (cleared[t]
                || exists|m: int| 0 <= m < k + 1 && #[trigger] op.ins@[m] == t) by {
                assert(op.ins@[k as int] == s);
                if t != s {
                    assert(live@[t] == before[t]);
                }
            }
        }
        k = k + 1;
    }
    if op.code == cop::COP_RAM {
        live.set(out, true);
    }
}

proof fn lemma_slot_name_injective(touched: Seq<u32>, a: u32, b: u32)
    requires
        distinct(touched),
        touched.len() < u32::MAX,
        a <= touched.len(),
        b <= touched.len(),
        slot_name(touched, touched.len() as u32, a) == slot_name(touched, touched.len() as u32, b),
    ensures
        a == b,
{
    if a < touched.len() && b < touched.len() {
        assert(touched[a as int] == touched[b as int]);
    }
}

proof fn lemma_tracks_step(
    live: Seq<bool>,
    after: Seq<bool>,
    touched: Seq<u32>,
    set: Set<int>,
    op: DeviceOp,
)
    requires
        distinct(touched),
        touched.len() < u32::MAX,
        tracks(live, touched, set),
        op.in_range(touched.len(), touched.len() as u32),
        after.len() == live.len(),
        forall|s: int|
            0 <= s < live.len() ==> #[trigger] after[s] == if live[op.out as int] {
                (s != op.out && live[s]) || (exists|k: int|
                    0 <= k < 7 && #[trigger] op.ins@[k] == s) || (op.code == cop::COP_RAM && s
                    == op.out)
            } else {
                live[s]
            },
    ensures
        tracks(after, touched, live_step(op.named(touched, touched.len() as u32), set)),
        live[op.out as int] == set.contains(op.named(touched, touched.len() as u32).out),
{
    let zero = touched.len() as u32;
    let nop = op.named(touched, zero);
    assert(live[op.out as int] == set.contains(slot_name(touched, zero, op.out)));
    assert forall|s: int| 0 <= s < after.len() implies #[trigger] after[s] == live_step(
        nop,
        set,
    ).contains(slot_name(touched, zero, s as u32)) by {
        let c = slot_name(touched, zero, s as u32);
        assert(live[s] == set.contains(c));
        if s != op.out && c == nop.out {
            lemma_slot_name_injective(touched, s as u32, op.out);
        }
        if exists|k: int| 0 <= k < 7 && #[trigger] op.ins@[k] == s {
            let k = choose|k: int| 0 <= k < 7 && #[trigger] op.ins@[k] == s;
            assert(nop.ins[k] == c);
        }
        if exists|k: int| 0 <= k < 7 && #[trigger] nop.ins[k] == c {
            let k = choose|k: int| 0 <= k < 7 && #[trigger] nop.ins[k] == c;
            assert(op.ins@[k] == zero || op.ins@[k] < touched.len());
            lemma_slot_name_injective(touched, s as u32, op.ins@[k]);
            assert(op.ins@[k] == s);
        }
    }
}

proof fn lemma_select_append<T>(a: Seq<T>, b: Seq<T>, keep_a: Seq<bool>, keep_b: Seq<bool>)
    requires
        keep_a.len() == a.len(),
        keep_b.len() == b.len(),
    ensures
        select(a + b, keep_a + keep_b) == select(a, keep_a) + select(b, keep_b),
    decreases b.len(),
{
    if b.len() == 0 {
        assert(a + b =~= a);
        assert(keep_a + keep_b =~= keep_a);
        assert(select(a, keep_a) + select(b, keep_b) =~= select(a, keep_a));
    } else {
        assert((a + b).drop_last() =~= a + b.drop_last());
        lemma_select_append(a, b.drop_last(), keep_a, keep_b.drop_last());
        lemma_select_prefix(a + b.drop_last(), keep_a + keep_b.drop_last(), keep_a + keep_b);
        lemma_select_prefix(b.drop_last(), keep_b.drop_last(), keep_b);
        let left = select(a, keep_a);
        let right = select(b.drop_last(), keep_b);
        assert(left + right.push(b.last()) =~= (left + right).push(b.last()));
    }
}

proof fn lemma_select_one<T>(x: T, flag: bool)
    ensures
        select(seq![x], seq![flag]) == if flag {
            seq![x]
        } else {
            Seq::empty()
        },
{
    let one = seq![x];
    assert(one.drop_last() =~= Seq::<T>::empty());
    assert(select(one.drop_last(), seq![flag]) =~= Seq::<T>::empty());
    assert(Seq::<T>::empty().push(x) =~= one);
}

pub proof fn lemma_select_prefix<T>(v: Seq<T>, keep: Seq<bool>, other: Seq<bool>)
    requires
        forall|i: int| 0 <= i < v.len() ==> keep[i] == #[trigger] other[i],
    ensures
        select(v, keep) == select(v, other),
    decreases v.len(),
{
    if v.len() > 0 {
        lemma_select_prefix(v.drop_last(), keep, other);
        assert(keep[v.len() - 1] == other[v.len() - 1]);
    }
}

/// The named ops of `ops[lo..hi]`.
pub open spec fn named_range(ops: Seq<DeviceOp>, touched: Seq<u32>, lo: int, hi: int) -> Seq<
    NamedOp,
> {
    named_ops(ops, touched, touched.len() as u32).subrange(lo, hi)
}

/// Mark the ops of `ops[lo..hi]` that reach a live cell, last to first, and move `live` from
/// after the range to before it.
fn mark_live(
    ops: &Vec<DeviceOp>,
    lo: usize,
    hi: usize,
    live: &mut Vec<bool>,
    keep: &mut Vec<bool>,
    Ghost(touched): Ghost<Seq<u32>>,
    Ghost(set): Ghost<Set<int>>,
)
    requires
        lo <= hi <= ops@.len(),
        old(keep)@.len() == ops@.len(),
        distinct(touched),
        touched.len() < u32::MAX,
        ops_in_range(ops@, touched.len(), touched.len() as u32),
        tracks(old(live)@, touched, set),
        forall|j: int| lo <= j < hi ==> !(#[trigger] old(keep)@[j]),
    ensures
        final(keep)@.len() == ops@.len(),
        forall|j: int|
            0 <= j < ops@.len() && !(lo <= j < hi) ==> #[trigger] final(keep)@[j] == old(keep)@[j],
        tracks(
            final(live)@,
            touched,
            live_before(named_range(ops@, touched, lo as int, hi as int), set),
        ),
        select(
            named_range(ops@, touched, lo as int, hi as int),
            final(keep)@.subrange(lo as int, hi as int),
        ) == kept(named_range(ops@, touched, lo as int, hi as int), set),
{
    let ghost whole = named_range(ops@, touched, lo as int, hi as int);
    let ghost mut cur = set;
    let mut j: usize = hi;
    proof {
        assert(whole =~= named_range(ops@, touched, lo as int, j as int));
        assert(kept(whole, set) + Seq::<NamedOp>::empty() =~= kept(whole, set));
        assert(named_range(ops@, touched, hi as int, hi as int) =~= Seq::<NamedOp>::empty());
    }
    while j > lo
        invariant
            lo <= j <= hi <= ops@.len(),
            keep@.len() == ops@.len(),
            old(keep)@.len() == ops@.len(),
            distinct(touched),
            touched.len() < u32::MAX,
            ops_in_range(ops@, touched.len(), touched.len() as u32),
            tracks(live@, touched, cur),
            forall|m: int| lo <= m < j ==> !(#[trigger] keep@[m]),
            forall|m: int|
                0 <= m < ops@.len() && !(lo <= m < hi) ==> #[trigger] keep@[m] == old(keep)@[m],
            whole == named_range(ops@, touched, lo as int, hi as int),
            live_before(whole, set) == live_before(
                named_range(ops@, touched, lo as int, j as int),
                cur,
            ),
            kept(whole, set) == kept(named_range(ops@, touched, lo as int, j as int), cur)
                + select(
                named_range(ops@, touched, j as int, hi as int),
                keep@.subrange(j as int, hi as int),
            ),
        decreases j,
    {
        let ghost live_old = live@;
        let ghost keep_old = keep@;
        assert(ops@[j - 1].in_range(touched.len(), touched.len() as u32));
        live_process(j - 1, live, keep, ops);
        proof {
            let op = ops@[j - 1];
            let nop = op.named(touched, touched.len() as u32);
            lemma_tracks_step(live_old, live@, touched, cur, op);
            let head = named_range(ops@, touched, lo as int, j as int);
            let shorter = named_range(ops@, touched, lo as int, j - 1);
            assert(head.drop_last() =~= shorter);
            assert(head.last() == nop);
            let tail = named_range(ops@, touched, j as int, hi as int);
            let longer = named_range(ops@, touched, j - 1, hi as int);
            let one = seq![nop];
            assert(longer =~= one + tail);
            let flag = keep@[j - 1];
            assert(flag == cur.contains(nop.out));
            assert(keep@.subrange(j - 1, hi as int) =~= seq![flag] + keep@.subrange(
                j as int,
                hi as int,
            ));
            assert(keep@.subrange(j as int, hi as int) =~= keep_old.subrange(
                j as int,
                hi as int,
            ));
            lemma_select_append(one, tail, seq![flag], keep@.subrange(j as int, hi as int));
            assert(one.drop_last() =~= Seq::<NamedOp>::empty());
            let next = live_step(nop, cur);
            let earlier = kept(shorter, next);
            let later = select(tail, keep@.subrange(j as int, hi as int));
            lemma_select_one(nop, flag);
            if flag {
                assert(earlier.push(nop) + later =~= earlier + (one + later));
            } else {
                assert(Seq::<NamedOp>::empty() + later =~= later);
            }
            cur = next;
        }
        j = j - 1;
    }
    proof {
        assert(named_range(ops@, touched, lo as int, lo as int) =~= Seq::<NamedOp>::empty());
        assert(live_before(named_range(ops@, touched, lo as int, lo as int), cur) == cur);
        assert(Seq::<NamedOp>::empty() + select(whole, keep@.subrange(lo as int, hi as int))
            =~= select(whole, keep@.subrange(lo as int, hi as int)));
    }
}

/// Set the flags of a list of slots.
pub fn set_flags(flags: &mut Vec<bool>, slots: &[u32], value: bool)
    requires
        forall|i: int| 0 <= i < slots@.len() ==> #[trigger] slots@[i] < old(flags)@.len(),
    ensures
        final(flags)@.len() == old(flags)@.len(),
        forall|s: int|
            0 <= s < old(flags)@.len() ==> #[trigger] final(flags)@[s] == if exists|i: int|
                0 <= i < slots@.len() && #[trigger] slots@[i] == s {
                value
            } else {
                old(flags)@[s]
            },
{
    let n: usize = flags.len();
    let mut i: usize = 0;
    while i < slots.len()
        invariant
            i <= slots@.len(),
            n == flags@.len(),
            n == old(flags)@.len(),
            forall|m: int| 0 <= m < slots@.len() ==> #[trigger] slots@[m] < n,
            forall|s: int|
                0 <= s < n ==> #[trigger] flags@[s] == if exists|m: int|
                    0 <= m < i && #[trigger] slots@[m] == s {
                    value
                } else {
                    old(flags)@[s]
                },
        decreases slots@.len() - i,
    {
        let ghost before = flags@;
        flags.set(slots[i] as usize, value);
        proof {
            assert forall|s: int| 0 <= s < n implies #[trigger] flags@[s] == if exists|m: int|
                0 <= m < i + 1 && #[trigger] slots@[m] == s {
                value
            } else {
                old(flags)@[s]
            } by {
                if s != slots@[i as int] {
                    assert(flags@[s] == before[s]);
                }
            }
        }
        i = i + 1;
    }
}

proof fn lemma_slot_in(slots: Seq<u32>, list: Seq<int>, touched: Seq<u32>, s: int)
    requires
        distinct(touched),
        touched.len() < u32::MAX,
        list.len() == slots.len(),
        0 <= s <= touched.len(),
        forall|i: int|
            0 <= i < slots.len() ==> #[trigger] slots[i] < touched.len() && list[i] == slot_name(
                touched,
                touched.len() as u32,
                slots[i],
            ),
    ensures
        (exists|i: int| 0 <= i < slots.len() && #[trigger] slots[i] == s) == list.contains(
            slot_name(touched, touched.len() as u32, s as u32),
        ),
{
    let zero = touched.len() as u32;
    let c = slot_name(touched, zero, s as u32);
    if exists|i: int| 0 <= i < slots.len() && #[trigger] slots[i] == s {
        let i = choose|i: int| 0 <= i < slots.len() && #[trigger] slots[i] == s;
        assert(list[i] == c);
    }
    if list.contains(c) {
        let i = choose|i: int| 0 <= i < list.len() && list[i] == c;
        assert(slots[i] < touched.len());
        lemma_slot_name_injective(touched, s as u32, slots[i]);
    }
}

/// Move the live flags over the operand injection: the operands are written there.
fn cross_inject(
    taps: &TapSlots,
    live: &mut Vec<bool>,
    Ghost(touched): Ghost<Seq<u32>>,
    Ghost(set): Ghost<Set<int>>,
)
    requires
        distinct(touched),
        touched.len() < u32::MAX,
        taps.below(touched.len()),
        tracks(old(live)@, touched, set),
    ensures
        tracks(
            final(live)@,
            touched,
            live_at_inject(taps.named(touched, touched.len() as u32), set),
        ),
{
    live.set(taps.a_term as usize, false);
    live.set(taps.b_term as usize, false);
    proof {
        let zero = touched.len() as u32;
        let t = taps.named(touched, zero);
        assert forall|s: int| 0 <= s < live@.len() implies #[trigger] live@[s] == live_at_inject(
            t,
            set,
        ).contains(slot_name(touched, zero, s as u32)) by {
            assert(old(live)@[s] == set.contains(slot_name(touched, zero, s as u32)));
            if slot_name(touched, zero, s as u32) == t.a_term {
                lemma_slot_name_injective(touched, s as u32, taps.a_term);
            }
            if slot_name(touched, zero, s as u32) == t.b_term {
                lemma_slot_name_injective(touched, s as u32, taps.b_term);
            }
        }
    }
}

/// Move the live flags over the super-mux bridge: the inject cells are written there, the
/// mux cells are read.
fn cross_bridge(
    taps: &TapSlots,
    live: &mut Vec<bool>,
    Ghost(touched): Ghost<Seq<u32>>,
    Ghost(set): Ghost<Set<int>>,
)
    requires
        distinct(touched),
        touched.len() < u32::MAX,
        taps.below(touched.len()),
        tracks(old(live)@, touched, set),
    ensures
        tracks(
            final(live)@,
            touched,
            live_at_bridge(taps.named(touched, touched.len() as u32), set),
        ),
{
    set_flags(live, taps.inject_right.as_slice(), false);
    let ghost l1 = live@;
    set_flags(live, taps.inject.as_slice(), false);
    let ghost l2 = live@;
    set_flags(live, taps.final_mux.as_slice(), true);
    let ghost l3 = live@;
    set_flags(live, taps.bank47.as_slice(), true);
    proof {
        let zero = touched.len() as u32;
        let t = taps.named(touched, zero);
        assert forall|s: int| 0 <= s < live@.len() implies #[trigger] live@[s] == live_at_bridge(
            t,
            set,
        ).contains(slot_name(touched, zero, s as u32)) by {
            let c = slot_name(touched, zero, s as u32);
            assert(old(live)@[s] == set.contains(c));
            assert(l1[s] == l1[s] && l2[s] == l2[s] && l3[s] == l3[s]);
            lemma_slot_in(taps.inject_right@, t.inject_right, touched, s);
            lemma_slot_in(taps.inject@, t.inject, touched, s);
            lemma_slot_in(taps.final_mux@, t.final_mux, touched, s);
            let flat = Seq::new(16, |i: int| slot_name(touched, zero, taps.bank47@[i]));
            lemma_slot_in(taps.bank47@, flat, touched, s);
            if flat.contains(c) {
                let i = choose|i: int| 0 <= i < 16 && flat[i] == c;
                let b = i / 4;
                assert(t.bank47[b][i % 4] == c);
                assert(t.bank47[b].contains(c));
            }
            if exists|b: int| 0 <= b < 4 && (#[trigger] t.bank47[b]).contains(c) {
                let b = choose|b: int| 0 <= b < 4 && (#[trigger] t.bank47[b]).contains(c);
                let i = choose|i: int| 0 <= i < 4 && t.bank47[b][i] == c;
                assert(flat[4 * b + i] == c);
            }
        }
    }
}

/// The program that `ops` and `taps` spell, with the phases split at `cone_end` and
/// `settle_end`.
pub open spec fn spelled(
    ops: Seq<DeviceOp>,
    cone_end: int,
    settle_end: int,
    taps: TapSlots,
    touched: Seq<u32>,
) -> NamedProgram {
    NamedProgram {
        cone: named_range(ops, touched, 0, cone_end),
        settle: named_range(ops, touched, cone_end, settle_end),
        trunk: named_range(ops, touched, settle_end, ops.len() as int),
        taps: taps.named(touched, touched.len() as u32),
    }
}

/// Which ops reach the ALU root: backward liveness over the three phases and what happens
/// between them.
fn live_ops(
    ops: &Vec<DeviceOp>,
    cone_end: usize,
    settle_end: usize,
    taps: &TapSlots,
    n_slots: usize,
    Ghost(touched): Ghost<Seq<u32>>,
) -> (keep: Vec<bool>)
    requires
        cone_end <= settle_end <= ops@.len(),
        n_slots == touched.len() + 1,
        distinct(touched),
        touched.len() < u32::MAX,
        ops_in_range(ops@, touched.len(), touched.len() as u32),
        taps.below(touched.len()),
    ensures
        keep@.len() == ops@.len(),
        ({
            let p = spelled(ops@, cone_end as int, settle_end as int, *taps, touched);
            &&& select(p.cone, keep@.subrange(0, cone_end as int)) == pruned(p).cone
            &&& select(p.settle, keep@.subrange(cone_end as int, settle_end as int)) == pruned(
                p,
            ).settle
            &&& select(p.trunk, keep@.subrange(settle_end as int, ops@.len() as int)) == pruned(
                p,
            ).trunk
        }),
{
    let n: usize = ops.len();
    let ghost p = spelled(ops@, cone_end as int, settle_end as int, *taps, touched);
    let ghost zero = touched.len() as u32;
    let mut live: Vec<bool> = vec![false;n_slots];
    let mut keep: Vec<bool> = vec![false;n];
    live.set(taps.root as usize, true);
    proof {
        assert forall|s: int| 0 <= s < live@.len() implies #[trigger] live@[s] == live_after_trunk(
            p,
        ).contains(slot_name(touched, zero, s as u32)) by {
            if slot_name(touched, zero, s as u32) == p.taps.root {
                lemma_slot_name_injective(touched, s as u32, taps.root);
            }
        }
    }
    mark_live(ops, settle_end, n, &mut live, &mut keep, Ghost(touched), Ghost(live_after_trunk(p)));
    let ghost k1 = keep@;
    cross_inject(
        taps,
        &mut live,
        Ghost(touched),
        Ghost(live_before(p.trunk, live_after_trunk(p))),
    );
    mark_live(
        ops,
        cone_end,
        settle_end,
        &mut live,
        &mut keep,
        Ghost(touched),
        Ghost(live_after_settle(p)),
    );
    let ghost k2 = keep@;
    cross_bridge(
        taps,
        &mut live,
        Ghost(touched),
        Ghost(live_before(p.settle, live_after_settle(p))),
    );
    mark_live(ops, 0, cone_end, &mut live, &mut keep, Ghost(touched), Ghost(live_after_cone(p)));
    proof {
        assert(keep@.subrange(settle_end as int, n as int) =~= k1.subrange(
            settle_end as int,
            n as int,
        ));
        assert(keep@.subrange(cone_end as int, settle_end as int) =~= k2.subrange(
            cone_end as int,
            settle_end as int,
        ));
    }
    keep
}

proof fn lemma_select_len<T, U>(a: Seq<T>, b: Seq<U>, keep: Seq<bool>)
    requires
        a.len() == b.len(),
    ensures
        select(a, keep).len() == select(b, keep).len(),
    decreases a.len(),
{
    if a.len() > 0 {
        lemma_select_len(a.drop_last(), b.drop_last(), keep);
    }
}

/// How many flags of `keep[lo..hi]` are set.
fn count_kept(keep: &Vec<bool>, lo: usize, hi: usize) -> (n: usize)
    requires
        lo <= hi <= keep@.len(),
    ensures
        n == select(
            keep@.subrange(lo as int, hi as int),
            keep@.subrange(lo as int, hi as int),
        ).len(),
{
    let mut n: usize = 0;
    let mut i: usize = lo;
    let ghost range = keep@.subrange(lo as int, hi as int);
    assert(range.take(0) =~= Seq::<bool>::empty());
    while i < hi
        invariant
            lo <= i <= hi <= keep@.len(),
            range == keep@.subrange(lo as int, hi as int),
            n <= i - lo,
            n == select(range.take(i - lo), range).len(),
        decreases hi - i,
    {
        assert(range.take(i + 1 - lo).drop_last() =~= range.take(i - lo));
        if keep[i] {
            n = n + 1;
        }
        i = i + 1;
    }
    assert(range.take(hi - lo) =~= range);
    n
}

proof fn lemma_named_select(ops: Seq<DeviceOp>, keep: Seq<bool>, touched: Seq<u32>, zero: u32)
    ensures
        named_ops(select(ops, keep), touched, zero) == select(
            named_ops(ops, touched, zero),
            keep,
        ),
    decreases ops.len(),
{
    if ops.len() > 0 {
        lemma_named_select(ops.drop_last(), keep, touched, zero);
        assert(named_ops(ops, touched, zero).drop_last() =~= named_ops(
            ops.drop_last(),
            touched,
            zero,
        ));
        let earlier = select(ops.drop_last(), keep);
        assert(named_ops(earlier.push(ops.last()), touched, zero) =~= named_ops(
            earlier,
            touched,
            zero,
        ).push(ops.last().named(touched, zero)));
    } else {
        assert(named_ops(select(ops, keep), touched, zero) =~= select(
            named_ops(ops, touched, zero),
            keep,
        ));
    }
}

proof fn lemma_select_all<T>(v: Seq<T>, keep: Seq<bool>, x: T) -> (i: int)
    requires
        select(v, keep).contains(x),
        keep.len() >= v.len(),
    ensures
        0 <= i < v.len(),
        v[i] == x,
        keep[i],
    decreases v.len(),
{
    let earlier = select(v.drop_last(), keep);
    if keep[v.len() - 1] && x == v.last() {
        v.len() - 1
    } else {
        assert(earlier.contains(x)) by {
            let k = choose|k: int| 0 <= k < select(v, keep).len() && select(v, keep)[k] == x;
            assert(earlier[k] == x);
        }
        lemma_select_all(v.drop_last(), keep, x)
    }
}

proof fn lemma_select_in_range(ops: Seq<DeviceOp>, keep: Seq<bool>, n: nat, zero: u32)
    requires
        ops_in_range(ops, n, zero),
        keep.len() >= ops.len(),
    ensures
        ops_in_range(select(ops, keep), n, zero),
{
    assert forall|j: int| 0 <= j < select(ops, keep).len() implies (#[trigger] select(
        ops,
        keep,
    )[j]).in_range(n, zero) by {
        let i = lemma_select_all(ops, keep, select(ops, keep)[j]);
        assert(ops[i].in_range(n, zero));
    }
}

/// Drop the ops that do not reach the ALU root.
fn drop_dead(
    ops: &Vec<DeviceOp>,
    cone_end: usize,
    settle_end: usize,
    taps: &TapSlots,
    n_slots: usize,
    Ghost(touched): Ghost<Seq<u32>>,
) -> (r: (Vec<DeviceOp>, usize, usize))
    requires
        cone_end <= settle_end <= ops@.len(),
        n_slots == touched.len() + 1,
        distinct(touched),
        touched.len() < u32::MAX,
        ops_in_range(ops@, touched.len(), touched.len() as u32),
        taps.below(touched.len()),
    ensures
        r.1 <= r.2 <= r.0@.len(),
        ops_in_range(r.0@, touched.len(), touched.len() as u32),
        spelled(r.0@, r.1 as int, r.2 as int, *taps, touched) == pruned(
            spelled(ops@, cone_end as int, settle_end as int, *taps, touched),
        ),
{
    let keep: Vec<bool> = live_ops(ops, cone_end, settle_end, taps, n_slots, Ghost(touched));
    let kept_cone: usize = count_kept(&keep, 0, cone_end);
    let kept_settle: usize = count_kept(&keep, cone_end, settle_end);
    let new_ops: Vec<DeviceOp> = filter_keep(ops, &keep);
    let total: usize = new_ops.len();
    proof {
        let zero = touched.len() as u32;
        let p = spelled(ops@, cone_end as int, settle_end as int, *taps, touched);
        let kc = keep@.subrange(0, cone_end as int);
        let ks = keep@.subrange(cone_end as int, settle_end as int);
        let kt = keep@.subrange(settle_end as int, ops@.len() as int);
        let all = named_ops(ops@, touched, zero);
        lemma_named_select(ops@, keep@, touched, zero);
        lemma_select_in_range(ops@, keep@, touched.len(), zero);
        assert(all =~= p.cone + p.settle + p.trunk);
        assert(keep@ =~= kc + ks + kt);
        lemma_select_append(p.cone + p.settle, p.trunk, kc + ks, kt);
        lemma_select_append(p.cone, p.settle, kc, ks);
        lemma_select_len(p.cone, kc, kc);
        lemma_select_len(p.settle, ks, ks);
        let named = named_ops(new_ops@, touched, zero);
        let q = pruned(p);
        assert(named == q.cone + q.settle + q.trunk);
        let got = spelled(
            new_ops@,
            kept_cone as int,
            kept_cone + kept_settle,
            *taps,
            touched,
        );
        assert(q.cone.len() == kept_cone);
        assert(q.settle.len() == kept_settle);
        assert(got.cone =~= q.cone);
        assert(got.settle =~= q.settle);
        assert(got.trunk =~= q.trunk);
        assert(named.len() == new_ops@.len());
        assert(kept_cone + kept_settle <= total);
    }
    (new_ops, kept_cone, kept_cone + kept_settle)
}

impl TapSlots {
    /// The slots of the taps, in the order of [`tap_cells`].
    pub open spec fn slots(self) -> Seq<u32> {
        seq![self.pc] + self.final_mux@ + self.inject_right@ + self.inject@ + self.bank47@ + seq![
            self.a_term,
            self.b_term,
            self.root,
        ]
    }

    /// The slots of the taps, in the order of [`tap_cells`].
    fn list(&self) -> (r: Vec<u32>)
        ensures
            r@ == self.slots(),
    {
        let mut r: Vec<u32> = Vec::new();
        r.push(self.pc);
        r.extend_from_slice(self.final_mux.as_slice());
        r.extend_from_slice(self.inject_right.as_slice());
        r.extend_from_slice(self.inject.as_slice());
        r.extend_from_slice(self.bank47.as_slice());
        r.push(self.a_term);
        r.push(self.b_term);
        r.push(self.root);
        assert(r@ =~= self.slots());
        r
    }
}

proof fn lemma_tap_slots(taps: TapSlots, touched: Seq<u32>)
    requires
        taps.below(touched.len()),
        touched.len() < u32::MAX,
    ensures
        taps.slots().len() == 32,
        tap_cells(taps.named(touched, touched.len() as u32)).len() == 32,
        forall|i: int|
            0 <= i < 32 ==> #[trigger] taps.slots()[i] < touched.len() && tap_cells(
                taps.named(touched, touched.len() as u32),
            )[i] == slot_name(touched, touched.len() as u32, taps.slots()[i]),
{
    let zero = touched.len() as u32;
    let t = taps.named(touched, zero);
    assert(tap_cells(t) =~= Seq::new(32, |i: int| slot_name(touched, zero, taps.slots()[i])));
    assert forall|i: int| 0 <= i < 32 implies #[trigger] taps.slots()[i] < touched.len() by {
        if 1 <= i && i < 5 {
            assert(taps.slots()[i] == taps.final_mux@[i - 1]);
        } else if 5 <= i && i < 9 {
            assert(taps.slots()[i] == taps.inject_right@[i - 5]);
        } else if 9 <= i && i < 13 {
            assert(taps.slots()[i] == taps.inject@[i - 9]);
        } else if 13 <= i && i < 29 {
            assert(taps.slots()[i] == taps.bank47@[i - 13]);
        }
    }
}

/// The op reads or writes the slot.
pub open spec fn op_uses(op: DeviceOp, s: int) -> bool {
    op.out == s || exists|k: int| 0 <= k < 7 && #[trigger] op.ins@[k] == s
}

/// Some op or tap refers to the slot.
pub open spec fn slot_used(ops: Seq<DeviceOp>, taps: TapSlots, s: int) -> bool {
    (exists|j: int| 0 <= j < ops.len() && op_uses(#[trigger] ops[j], s)) || exists|i: int|
        0 <= i < taps.slots().len() && #[trigger] taps.slots()[i] == s
}

/// Which slots the ops and taps refer to; the zero row's slot always counts.
fn used_slots(ops: &Vec<DeviceOp>, taps: &TapSlots, n_slots: usize) -> (used: Vec<bool>)
    requires
        0 < n_slots <= u32::MAX,
        ops_in_range(ops@, (n_slots - 1) as nat, (n_slots - 1) as u32),
        taps.below((n_slots - 1) as nat),
    ensures
        used@.len() == n_slots,
        forall|s: int|
            0 <= s < n_slots ==> #[trigger] used@[s] == (slot_used(ops@, *taps, s) || s == n_slots
                - 1),
{
    let mut used: Vec<bool> = vec![false;n_slots];
    let n: usize = ops.len();
    let mut j: usize = 0;
    while j < n
        invariant
            j <= n,
            n == ops@.len(),
            0 < n_slots <= u32::MAX,
            used@.len() == n_slots,
            ops_in_range(ops@, (n_slots - 1) as nat, (n_slots - 1) as u32),
            forall|s: int|
                0 <= s < n_slots ==> #[trigger] used@[s] == exists|m: int|
                    0 <= m < j && op_uses(#[trigger] ops@[m], s),
        decreases n - j,
    {
        let ghost before = used@;
        let op = ops[j];
        assert(ops@[j as int].in_range((n_slots - 1) as nat, (n_slots - 1) as u32));
        used.set(op.out as usize, true);
        let ghost mid = used@;
        assert forall|k: int| 0 <= k < 7 implies #[trigger] op.ins@[k] < n_slots by {
            assert(ops@[j as int].ins@[k] == n_slots - 1 || ops@[j as int].ins@[k] < n_slots - 1);
        }
        set_flags(&mut used, op.ins.as_slice(), true);
        proof {
            assert forall|s: int| 0 <= s < n_slots implies #[trigger] used@[s] == exists|m: int|
                0 <= m < j + 1 && op_uses(#[trigger] ops@[m], s) by {
                assert(mid[s] == (before[s] || s == op.out));
                assert(op_uses(ops@[j as int], s) == (op.out == s || exists|k: int|
                    0 <= k < 7 && #[trigger] op.ins@[k] == s));
                if before[s] {
                    let m = choose|m: int| 0 <= m < j && op_uses(#[trigger] ops@[m], s);
                    assert(0 <= m < j + 1 && op_uses(ops@[m], s));
                }
            }
        }
        j = j + 1;
    }
    let ghost before = used@;
    let list: Vec<u32> = taps.list();
    proof {
        assert forall|i: int| 0 <= i < list@.len() implies #[trigger] list@[i] < n_slots by {
            if 1 <= i && i < 5 {
                assert(list@[i] == taps.final_mux@[i - 1]);
            } else if 5 <= i && i < 9 {
                assert(list@[i] == taps.inject_right@[i - 5]);
            } else if 9 <= i && i < 13 {
                assert(list@[i] == taps.inject@[i - 9]);
            } else if 13 <= i && i < 29 {
                assert(list@[i] == taps.bank47@[i - 13]);
            }
        }
    }
    set_flags(&mut used, list.as_slice(), true);
    let ghost after = used@;
    used.set(n_slots - 1, true);
    proof {
        assert forall|s: int| 0 <= s < n_slots implies #[trigger] used@[s] == (slot_used(
            ops@,
            *taps,
            s,
        ) || s == n_slots - 1) by {
            if s != n_slots - 1 {
                assert(used@[s] == after[s]);
                assert(before[s] == before[s]);
            }
        }
    }
    used
}

/// `new_of` renumbers every used slot so that it keeps its cell.
pub open spec fn renumbers(
    new_of: Seq<u32>,
    used: Seq<bool>,
    touched: Seq<u32>,
    new_touched: Seq<u32>,
) -> bool {
    &&& new_of.len() == touched.len() + 1
    &&& used.len() == touched.len() + 1
    &&& new_of[touched.len() as int] == new_touched.len()
    &&& forall|s: int|
        0 <= s < touched.len() && used[s] ==> #[trigger] new_of[s] < new_touched.len()
            && new_touched[new_of[s] as int] == touched[s]
}

/// Number the used slots densely, in order; the zero row's slot stays last.
fn renumber(used: &Vec<bool>, touched: &Vec<u32>) -> (r: (Vec<u32>, Vec<u32>))
    requires
        used@.len() == touched@.len() + 1,
        touched@.len() < u32::MAX,
    ensures
        r.1@ == select(touched@, used@),
        r.1@.len() <= touched@.len(),
        renumbers(r.0@, used@, touched@, r.1@),
{
    let n: usize = touched.len();
    let mut new_of: Vec<u32> = vec![u32::MAX;n + 1];
    let mut new_touched: Vec<u32> = Vec::new();
    let mut i: usize = 0;
    assert(touched@.take(0) =~= Seq::<u32>::empty());
    while i < n
        invariant
            i <= n,
            n == touched@.len(),
            n < u32::MAX,
            used@.len() == n + 1,
            new_of@.len() == n + 1,
            new_touched@.len() <= i,
            new_touched@ == select(touched@.take(i as int), used@),
            forall|s: int|
                0 <= s < i && used@[s] ==> #[trigger] new_of@[s] < new_touched@.len()
                    && new_touched@[new_of@[s] as int] == touched@[s],
        decreases n - i,
    {
        assert(touched@.take(i + 1).drop_last() =~= touched@.take(i as int));
        let ghost before = new_touched@;
        let ghost of_before = new_of@;
        if used[i] {
            new_of.set(i, new_touched.len() as u32);
            new_touched.push(touched[i]);
        }
        proof {
            assert forall|s: int| 0 <= s < i + 1 && used@[s] implies #[trigger] new_of@[s]
                < new_touched@.len() && new_touched@[new_of@[s] as int] == touched@[s] by {
                if s < i {
                    assert(new_of@[s] == of_before[s]);
                    assert(new_touched@[new_of@[s] as int] == before[new_of@[s] as int]);
                }
            }
        }
        i = i + 1;
    }
    assert(touched@.take(n as int) =~= touched@);
    new_of.set(n, new_touched.len() as u32);
    (new_of, new_touched)
}

proof fn lemma_select_distinct(touched: Seq<u32>, used: Seq<bool>)
    requires
        distinct(touched),
        used.len() >= touched.len(),
    ensures
        distinct(select(touched, used)),
    decreases touched.len(),
{
    if touched.len() > 0 {
        let init = touched.drop_last();
        let earlier = select(init, used);
        assert(distinct(init)) by {
            assert forall|i: int, j: int|
                0 <= i < init.len() && 0 <= j < init.len() && #[trigger] init[i]
                    == #[trigger] init[j] implies i == j by {
                assert(touched[i] == touched[j]);
            }
        }
        lemma_select_distinct(init, used);
        if used[touched.len() - 1] {
            let v = earlier.push(touched.last());
            assert forall|i: int, j: int|
                0 <= i < v.len() && 0 <= j < v.len() && #[trigger] v[i] == #[trigger] v[j] implies i
                == j by {
                if i < earlier.len() && j < earlier.len() {
                    assert(earlier[i] == earlier[j]);
                } else if i < earlier.len() {
                    assert(earlier.contains(earlier[i]));
                    let k = lemma_select_all(init, used, earlier[i]);
                    assert(touched[k] == touched[touched.len() - 1]);
                } else if j < earlier.len() {
                    assert(earlier.contains(earlier[j]));
                    let k = lemma_select_all(init, used, earlier[j]);
                    assert(touched[k] == touched[touched.len() - 1]);
                }
            }
        }
    }
}

proof fn lemma_renamed(
    new_of: Seq<u32>,
    used: Seq<bool>,
    touched: Seq<u32>,
    new_touched: Seq<u32>,
    s: u32,
)
    requires
        renumbers(new_of, used, touched, new_touched),
        touched.len() < u32::MAX,
        new_touched.len() <= touched.len(),
        s <= touched.len(),
        used[s as int],
    ensures
        slot_name(new_touched, new_touched.len() as u32, new_of[s as int]) == slot_name(
            touched,
            touched.len() as u32,
            s,
        ),
        s < touched.len() ==> new_of[s as int] < new_touched.len(),
        s == touched.len() ==> new_of[s as int] == new_touched.len(),
{
}

/// Renumber the slots of every op.
fn rename_ops(
    ops: &Vec<DeviceOp>,
    new_of: &Vec<u32>,
    Ghost(used): Ghost<Seq<bool>>,
    Ghost(touched): Ghost<Seq<u32>>,
    Ghost(new_touched): Ghost<Seq<u32>>,
) -> (r: Vec<DeviceOp>)
    requires
        touched.len() < u32::MAX,
        new_touched.len() <= touched.len(),
        renumbers(new_of@, used, touched, new_touched),
        ops_in_range(ops@, touched.len(), touched.len() as u32),
        forall|j: int, s: int|
            0 <= j < ops@.len() && 0 <= s <= touched.len() && #[trigger] op_uses(ops@[j], s)
                ==> used[s],
    ensures
        r@.len() == ops@.len(),
        ops_in_range(r@, new_touched.len(), new_touched.len() as u32),
        named_ops(r@, new_touched, new_touched.len() as u32) == named_ops(
            ops@,
            touched,
            touched.len() as u32,
        ),
{
    let mut r: Vec<DeviceOp> = Vec::new();
    let n: usize = ops.len();
    let mut j: usize = 0;
    while j < n
        invariant
            j <= n,
            n == ops@.len(),
            r@.len() == j,
            touched.len() < u32::MAX,
            new_touched.len() <= touched.len(),
            renumbers(new_of@, used, touched, new_touched),
            ops_in_range(ops@, touched.len(), touched.len() as u32),
            forall|m: int, s: int|
                0 <= m < ops@.len() && 0 <= s <= touched.len() && #[trigger] op_uses(ops@[m], s)
                    ==> used[s],
            forall|m: int|
                0 <= m < j ==> (#[trigger] r@[m]).in_range(
                    new_touched.len(),
                    new_touched.len() as u32,
                ) && r@[m].named(new_touched, new_touched.len() as u32) == ops@[m].named(
                    touched,
                    touched.len() as u32,
                ),
        decreases n - j,
    {
        let mut op = ops[j];
        let ghost orig = op;
        assert(ops@[j as int].in_range(touched.len(), touched.len() as u32));
        assert(op_uses(ops@[j as int], op.out as int));
        proof {
            lemma_renamed(new_of@, used, touched, new_touched, op.out);
        }
        op.out = new_of[op.out as usize];
        let mut k: usize = 0;
        while k < 7
            invariant
                k <= 7,
                j < n,
                n == ops@.len(),
                orig == ops@[j as int],
                touched.len() < u32::MAX,
                new_touched.len() <= touched.len(),
                renumbers(new_of@, used, touched, new_touched),
                orig.in_range(touched.len(), touched.len() as u32),
                forall|m: int, s: int|
                    0 <= m < ops@.len() && 0 <= s <= touched.len() && #[trigger] op_uses(ops@[m], s)
                        ==> used[s],
                op.code == orig.code && op.threshold == orig.threshold && op.shift == orig.shift
                    && op.mask == orig.mask,
                op.out == new_of@[orig.out as int],
                forall|m: int|
                    0 <= m < k ==> #[trigger] op.ins@[m] == new_of@[orig.ins@[m] as int],
                forall|m: int| k <= m < 7 ==> #[trigger] op.ins@[m] == orig.ins@[m],
            decreases 7 - k,
        {
            assert(orig.ins@[k as int] == touched.len() as u32 || orig.ins@[k as int]
                < touched.len());
            op.ins[k] = new_of[op.ins[k] as usize];
            k = k + 1;
        }
        proof {
            let zero = touched.len() as u32;
            let new_zero = new_touched.len() as u32;
            assert forall|m: int| 0 <= m < 7 implies slot_name(
                new_touched,
                new_zero,
                #[trigger] op.ins@[m],
            ) == slot_name(touched, zero, orig.ins@[m]) && (op.ins@[m] == new_zero || op.ins@[m]
                < new_touched.len()) by {
                assert(orig.ins@[m] == zero || orig.ins@[m] < touched.len());
                assert(op_uses(ops@[j as int], orig.ins@[m] as int));
                lemma_renamed(new_of@, used, touched, new_touched, orig.ins@[m]);
            }
            assert(op.named(new_touched, new_zero).ins =~= orig.named(touched, zero).ins);
        }
        r.push(op);
        j = j + 1;
    }
    assert(named_ops(r@, new_touched, new_touched.len() as u32) =~= named_ops(
        ops@,
        touched,
        touched.len() as u32,
    ));
    r
}

/// Renumber the slots of the taps.
fn rename_taps(
    taps: &TapSlots,
    new_of: &Vec<u32>,
    Ghost(used): Ghost<Seq<bool>>,
    Ghost(touched): Ghost<Seq<u32>>,
    Ghost(new_touched): Ghost<Seq<u32>>,
) -> (r: TapSlots)
    requires
        touched.len() < u32::MAX,
        new_touched.len() <= touched.len(),
        renumbers(new_of@, used, touched, new_touched),
        taps.below(touched.len()),
        forall|i: int| 0 <= i < 32 ==> used[#[trigger] taps.slots()[i] as int],
    ensures
        r.below(new_touched.len()),
        r.named(new_touched, new_touched.len() as u32) == taps.named(
            touched,
            touched.len() as u32,
        ),
{
    let list: Vec<u32> = taps.list();
    proof {
        lemma_tap_slots(*taps, touched);
    }
    let mut m: Vec<u32> = Vec::new();
    let mut i: usize = 0;
    while i < 32
        invariant
            i <= 32,
            list@ == taps.slots(),
            list@.len() == 32,
            touched.len() < u32::MAX,
            new_touched.len() <= touched.len(),
            renumbers(new_of@, used, touched, new_touched),
            forall|k: int|
                0 <= k < 32 ==> #[trigger] taps.slots()[k] < touched.len()
                    && used[taps.slots()[k] as int],
            m@.len() == i,
            forall|k: int|
                0 <= k < i ==> #[trigger] m@[k] < new_touched.len() && slot_name(
                    new_touched,
                    new_touched.len() as u32,
                    m@[k],
                ) == slot_name(touched, touched.len() as u32, list@[k]),
        decreases 32 - i,
    {
        assert(taps.slots()[i as int] < touched.len() && used[taps.slots()[i as int] as int]);
        proof {
            lemma_renamed(new_of@, used, touched, new_touched, list@[i as int]);
        }
        m.push(new_of[list[i] as usize]);
        i = i + 1;
    }
    let r = TapSlots {
        pc: m[0],
        final_mux: [m[1], m[2], m[3], m[4]],
        inject_right: [m[5], m[6], m[7], m[8]],
        inject: [m[9], m[10], m[11], m[12]],
        bank47: [
            m[13],
            m[14],
            m[15],
            m[16],
            m[17],
            m[18],
            m[19],
            m[20],
            m[21],
            m[22],
            m[23],
            m[24],
            m[25],
            m[26],
            m[27],
            m[28],
        ],
        a_term: m[29],
        b_term: m[30],
        root: m[31],
    };
    proof {
        let zero = touched.len() as u32;
        let new_zero = new_touched.len() as u32;
        let a = r.named(new_touched, new_zero);
        let b = taps.named(touched, zero);
        assert forall|k: int| 0 <= k < 4 implies #[trigger] r.final_mux@[k] == m@[1 + k]
            && taps.final_mux@[k] == list@[1 + k] by {}
        assert forall|k: int| 0 <= k < 4 implies #[trigger] r.inject_right@[k] == m@[5 + k]
            && taps.inject_right@[k] == list@[5 + k] by {}
        assert forall|k: int| 0 <= k < 4 implies #[trigger] r.inject@[k] == m@[9 + k]
            && taps.inject@[k] == list@[9 + k] by {}
        assert forall|k: int| 0 <= k < 16 implies #[trigger] r.bank47@[k] == m@[13 + k]
            && taps.bank47@[k] == list@[13 + k] by {}
        assert(taps.pc == list@[0] && taps.a_term == list@[29] && taps.b_term == list@[30]
            && taps.root == list@[31]);
        assert(a.final_mux =~= b.final_mux);
        assert(a.inject_right =~= b.inject_right);
        assert(a.inject =~= b.inject);
        assert forall|bk: int| 0 <= bk < 4 implies a.bank47[bk] == b.bank47[bk] by {
            assert forall|k: int| 0 <= k < 4 implies a.bank47[bk][k] == b.bank47[bk][k] by {
                assert(r.bank47@[4 * bk + k] == m@[13 + (4 * bk + k)]);
            }
            assert(a.bank47[bk] =~= b.bank47[bk]);
        }
        assert(a.bank47 =~= b.bank47);
    }
    r
}

proof fn lemma_op_mentions(op: DeviceOp, touched: Seq<u32>, s: int)
    requires
        distinct(touched),
        touched.len() < u32::MAX,
        op.in_range(touched.len(), touched.len() as u32),
        0 <= s < touched.len(),
    ensures
        op_uses(op, s) == op_cells(op.named(touched, touched.len() as u32)).contains(
            touched[s] as int,
        ),
{
    let zero = touched.len() as u32;
    let nop = op.named(touched, zero);
    let cells = op_cells(nop);
    let c = touched[s] as int;
    assert(c == slot_name(touched, zero, s as u32));
    if op_uses(op, s) {
        if op.out == s {
            assert(cells[0] == c);
        } else {
            let k = choose|k: int| 0 <= k < 7 && #[trigger] op.ins@[k] == s;
            assert(cells[1 + k] == c);
        }
    }
    if cells.contains(c) {
        let i = choose|i: int| 0 <= i < cells.len() && cells[i] == c;
        if i == 0 {
            lemma_slot_name_injective(touched, s as u32, op.out);
        } else {
            assert(cells[i] == slot_name(touched, zero, op.ins@[i - 1]));
            assert(op.ins@[i - 1] == zero || op.ins@[i - 1] < touched.len());
            lemma_slot_name_injective(touched, s as u32, op.ins@[i - 1]);
            assert(op.ins@[i - 1] == s);
        }
    }
}

proof fn lemma_range_mentions(ops: Seq<DeviceOp>, touched: Seq<u32>, lo: int, hi: int, s: int)
    requires
        distinct(touched),
        touched.len() < u32::MAX,
        ops_in_range(ops, touched.len(), touched.len() as u32),
        0 <= lo <= hi <= ops.len(),
        0 <= s < touched.len(),
    ensures
        stream_mentions(named_range(ops, touched, lo, hi), touched[s] as int) == exists|j: int|
            lo <= j < hi && op_uses(#[trigger] ops[j], s),
{
    let r = named_range(ops, touched, lo, hi);
    let c = touched[s] as int;
    if stream_mentions(r, c) {
        let j = choose|j: int| 0 <= j < r.len() && op_cells(#[trigger] r[j]).contains(c);
        assert(ops[lo + j].in_range(touched.len(), touched.len() as u32));
        lemma_op_mentions(ops[lo + j], touched, s);
        assert(op_uses(ops[lo + j], s));
    }
    if exists|j: int| lo <= j < hi && op_uses(#[trigger] ops[j], s) {
        let j = choose|j: int| lo <= j < hi && op_uses(#[trigger] ops[j], s);
        assert(ops[j].in_range(touched.len(), touched.len() as u32));
        lemma_op_mentions(ops[j], touched, s);
        assert(r[j - lo] == ops[j].named(touched, touched.len() as u32));
        assert(op_cells(r[j - lo]).contains(c));
    }
}

proof fn lemma_used_mentions(
    ops: Seq<DeviceOp>,
    cone_end: int,
    settle_end: int,
    taps: TapSlots,
    touched: Seq<u32>,
    s: int,
)
    requires
        distinct(touched),
        touched.len() < u32::MAX,
        ops_in_range(ops, touched.len(), touched.len() as u32),
        taps.below(touched.len()),
        0 <= cone_end <= settle_end <= ops.len(),
        0 <= s < touched.len(),
    ensures
        slot_used(ops, taps, s) == mentions(
            spelled(ops, cone_end, settle_end, taps, touched),
            touched[s] as int,
        ),
{
    let c = touched[s] as int;
    lemma_range_mentions(ops, touched, 0, cone_end, s);
    lemma_range_mentions(ops, touched, cone_end, settle_end, s);
    lemma_range_mentions(ops, touched, settle_end, ops.len() as int, s);
    lemma_tap_slots(taps, touched);
    lemma_slot_in(
        taps.slots(),
        tap_cells(taps.named(touched, touched.len() as u32)),
        touched,
        s,
    );
    let any = exists|j: int| 0 <= j < ops.len() && op_uses(#[trigger] ops[j], s);
    if any {
        let j = choose|j: int| 0 <= j < ops.len() && op_uses(#[trigger] ops[j], s);
        assert(op_uses(ops[j], s));
        if j < cone_end {
            assert(exists|m: int| 0 <= m < cone_end && op_uses(#[trigger] ops[m], s));
        } else if j < settle_end {
            assert(exists|m: int| cone_end <= m < settle_end && op_uses(#[trigger] ops[m], s));
        } else {
            assert(exists|m: int| settle_end <= m < ops.len() && op_uses(#[trigger] ops[m], s));
        }
    }
}

proof fn lemma_names_select(touched: Seq<u32>, keep: Seq<bool>)
    ensures
        names(select(touched, keep)) == select(names(touched), keep),
    decreases touched.len(),
{
    if touched.len() > 0 {
        lemma_names_select(touched.drop_last(), keep);
        assert(names(touched).drop_last() =~= names(touched.drop_last()));
        let earlier = select(touched.drop_last(), keep);
        assert(names(earlier.push(touched.last())) =~= names(earlier).push(
            touched.last() as int,
        ));
    } else {
        assert(names(select(touched, keep)) =~= select(names(touched), keep));
    }
}

/// A device ALU program: the op streams of a plan over one dense slot universe.
///
/// The ops are one list: `[0, cone_end)` is the cone, `[cone_end, settle_end)` the settle
/// stream, the rest the trunk. The last slot is the constant-zero row's.
pub struct DeviceAluProgram {
    /// The tile of each slot, the zero row's slot left out.
    pub touched: Vec<u32>,
    pub n_slots: usize,
    pub ops: Vec<DeviceOp>,
    pub cone_end: usize,
    pub settle_end: usize,
    pub taps: TapSlots,
}

/// Whether every slot of a list is below `n`.
fn slots_below(slots: &[u32], n: u32) -> (r: bool)
    ensures
        r == forall|i: int| 0 <= i < slots@.len() ==> #[trigger] slots@[i] < n,
{
    let mut i: usize = 0;
    while i < slots.len()
        invariant
            i <= slots@.len(),
            forall|k: int| 0 <= k < i ==> #[trigger] slots@[k] < n,
        decreases slots@.len() - i,
    {
        if slots[i] >= n {
            assert(!(slots@[i as int] < n));
            return false;
        }
        i = i + 1;
    }
    true
}

impl TapSlots {
    /// Whether every slot is below `n`.
    fn get_below(&self, n: u32) -> (r: bool)
        ensures
            r == self.below(n as nat),
    {
        self.pc < n && slots_below(self.final_mux.as_slice(), n) && slots_below(
            self.inject_right.as_slice(),
            n,
        ) && slots_below(self.inject.as_slice(), n) && slots_below(self.bank47.as_slice(), n)
            && self.a_term < n && self.b_term < n && self.root < n
    }
}

impl DeviceOp {
    /// Whether every slot is at most `zero`, and the shift is valid.
    fn get_in_range(&self, zero: u32) -> (r: bool)
        ensures
            r == self.in_range(zero as nat, zero),
    {
        let mut k: usize = 0;
        while k < 7
            invariant
                k <= 7,
                forall|j: int| 0 <= j < k ==> #[trigger] self.ins@[j] == zero || self.ins@[j] < zero,
            decreases 7 - k,
        {
            if self.ins[k] > zero {
                assert(!(self.ins@[k as int] == zero || self.ins@[k as int] < zero));
                return false;
            }
            k = k + 1;
        }
        self.out <= zero && self.shift < 64
    }
}

/// Whether nothing is listed twice.
fn get_distinct(touched: &Vec<u32>) -> (r: bool)
    ensures
        r == distinct(touched@),
{
    let n: usize = touched.len();
    let mut i: usize = 0;
    while i < n
        invariant
            i <= n,
            n == touched@.len(),
            forall|a: int, b: int|
                0 <= a < i && 0 <= b < i && #[trigger] touched@[a] == #[trigger] touched@[b] ==> a
                    == b,
        decreases n - i,
    {
        let mut j: usize = 0;
        while j < i
            invariant
                j <= i < n,
                n == touched@.len(),
                forall|a: int| 0 <= a < j ==> #[trigger] touched@[a] != touched@[i as int],
            decreases i - j,
        {
            if touched[j] == touched[i] {
                assert(touched@[j as int] == touched@[i as int]);
                return false;
            }
            j = j + 1;
        }
        i = i + 1;
    }
    true
}

impl DeviceAluProgram {
    /// Whether the program is well formed.
    pub fn get_wf(&self) -> (r: bool)
        ensures
            r == self.wf(),
    {
        let n: usize = self.touched.len();
        if n >= u32::MAX as usize || self.n_slots != n + 1 || self.cone_end > self.settle_end
            || self.settle_end > self.ops.len() {
            return false;
        }
        let zero: u32 = n as u32;
        let mut j: usize = 0;
        while j < self.ops.len()
            invariant
                j <= self.ops@.len(),
                n == self.touched@.len(),
                n < u32::MAX,
                zero == n,
                forall|k: int| 0 <= k < j ==> (#[trigger] self.ops@[k]).in_range(n as nat, zero),
            decreases self.ops@.len() - j,
        {
            if !self.ops[j].get_in_range(zero) {
                assert(!self.ops@[j as int].in_range(n as nat, zero));
                return false;
            }
            j = j + 1;
        }
        self.taps.get_below(zero) && get_distinct(&self.touched)
    }

    /// The slot of the zero row.
    pub open spec fn zero(self) -> u32 {
        self.touched@.len() as u32
    }

    /// The phases are in order, every slot is numbered, and no tile has two slots.
    pub open spec fn wf(self) -> bool {
        &&& self.cone_end <= self.settle_end <= self.ops@.len()
        &&& self.touched@.len() < u32::MAX
        &&& self.n_slots == self.touched@.len() + 1
        &&& distinct(self.touched@)
        &&& ops_in_range(self.ops@, self.touched@.len(), self.zero())
        &&& self.taps.below(self.touched@.len())
    }

    /// The program over named cells.
    pub open spec fn program(self) -> NamedProgram {
        spelled(
            self.ops@,
            self.cone_end as int,
            self.settle_end as int,
            self.taps,
            self.touched@,
        )
    }

    /// Build the program of a plan, with ops that cannot reach the ALU result left out.
    pub fn from_plan(plan: &DeviceCyclePlan) -> (r: Self)
        requires
            plan.valid(),
        ensures
            r.wf(),
            r.program() == built_program(*plan, true),
            names(r.touched@) == built_slots(*plan, true),
    {
        Self::from_plan_opt(plan, true)
    }

    /// Build the program of a plan. With `prune`, ops that cannot reach the ALU result are
    /// left out and the slots that only they used with them.
    pub fn from_plan_opt(plan: &DeviceCyclePlan, prune: bool) -> (r: Self)
        requires
            plan.valid(),
        ensures
            r.wf(),
            r.program() == built_program(*plan, prune),
            names(r.touched@) == built_slots(*plan, prune),
    {
        let raw = Self::whole(plan);
        if !prune {
            return raw;
        }
        let ghost p0 = raw.program();
        let dead: (Vec<DeviceOp>, usize, usize) = drop_dead(
            &raw.ops,
            raw.cone_end,
            raw.settle_end,
            &raw.taps,
            raw.n_slots,
            Ghost(raw.touched@),
        );
        let ops: Vec<DeviceOp> = dead.0;
        let used: Vec<bool> = used_slots(&ops, &raw.taps, raw.n_slots);
        let renamed: (Vec<u32>, Vec<u32>) = renumber(&used, &raw.touched);
        let new_of: Vec<u32> = renamed.0;
        let touched: Vec<u32> = renamed.1;
        proof {
            lemma_tap_slots(raw.taps, raw.touched@);
            assert forall|j: int, s: int|
                0 <= j < ops@.len() && 0 <= s <= raw.touched@.len() && #[trigger] op_uses(
                    ops@[j],
                    s,
                ) implies used@[s] by {
                assert(slot_used(ops@, raw.taps, s));
            }
            assert forall|i: int| 0 <= i < 32 implies used@[#[trigger] raw.taps.slots()[
                i
            ] as int] by {
                assert(raw.taps.slots()[i] < raw.touched@.len());
                assert(slot_used(ops@, raw.taps, raw.taps.slots()[i] as int));
            }
        }
        let new_ops: Vec<DeviceOp> = rename_ops(
            &ops,
            &new_of,
            Ghost(used@),
            Ghost(raw.touched@),
            Ghost(touched@),
        );
        let taps = rename_taps(
            &raw.taps,
            &new_of,
            Ghost(used@),
            Ghost(raw.touched@),
            Ghost(touched@),
        );
        let n_slots: usize = touched.len() + 1;
        proof {
            lemma_select_distinct(raw.touched@, used@);
            let flags = Seq::new(
                names(raw.touched@).len(),
                |i: int| mentions(pruned(p0), names(raw.touched@)[i]),
            );
            assert forall|i: int| 0 <= i < names(raw.touched@).len() implies used@[i]
                == #[trigger] flags[i] by {
                lemma_used_mentions(
                    ops@,
                    dead.1 as int,
                    dead.2 as int,
                    raw.taps,
                    raw.touched@,
                    i,
                );
            }
            lemma_select_prefix(names(raw.touched@), used@, flags);
            lemma_names_select(raw.touched@, used@);
            assert(flags =~= Seq::new(
                mention_order(plan.program()).len(),
                |i: int| mentions(pruned(plan.program()), mention_order(plan.program())[i]),
            ));
        }
        DeviceAluProgram {
            touched,
            n_slots,
            ops: new_ops,
            cone_end: dead.1,
            settle_end: dead.2,
            taps,
        }
    }

    /// Number every cell of a plan and spell its streams and taps over the slots.
    fn whole(plan: &DeviceCyclePlan) -> (r: Self)
        requires
            plan.valid(),
        ensures
            r.wf(),
            r.program() == plan.program(),
            names(r.touched@) == mention_order(plan.program()),
    {
        let zero_row: u32 = plan.cone.tile_count;
        let mut slot_of: HashMap<u32, u32> = HashMap::new();
        let mut touched: Vec<u32> = Vec::new();
        let mut ops: Vec<DeviceOp> = Vec::new();
        let ghost p = plan.program();
        assert(names(touched@) =~= Seq::<int>::empty());
        assert(named_ops(ops@, touched@, u32::MAX) + p.cone =~= p.cone);
        append_kernel(&plan.cone, zero_row, &mut slot_of, &mut touched, &mut ops);
        let cone_end: usize = ops.len();
        append_kernel(&plan.settle, zero_row, &mut slot_of, &mut touched, &mut ops);
        let settle_end: usize = ops.len();
        append_kernel(&plan.trunk, zero_row, &mut slot_of, &mut touched, &mut ops);
        let ghost before = touched@;
        let taps = number_taps(&plan.layout, &mut slot_of, &mut touched);
        proof {
            lemma_extend_named(ops@, before, touched@, u32::MAX);
        }
        let zero: u32 = touched.len() as u32;
        let n_slots: usize = touched.len() + 1;
        let ghost raw = ops@;
        patch_zero(&mut ops, zero, Ghost(touched@));
        let r = DeviceAluProgram { touched, n_slots, ops, cone_end, settle_end, taps };
        proof {
            let all = named_ops(r.ops@, r.touched@, zero);
            assert(all == p.cone + p.settle + p.trunk);
            assert(all.len() == r.ops@.len());
            assert(named_ops(raw, r.touched@, u32::MAX).len() == raw.len());
            assert(r.program().cone =~= p.cone);
            assert(r.program().settle =~= p.settle);
            assert(r.program().trunk =~= p.trunk);
        }
        r
    }
}

} // verus!
