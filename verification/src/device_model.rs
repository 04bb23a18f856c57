//! The mathematical model of a device ALU program.
//!
//! A program is three op streams (`cone`, `settle`, `trunk`) over named cells, plus the
//! cells the surrounding cycle writes and reads between the streams. Cells are named by
//! integers: a tile by its index, the constant-zero row by [`zero_cell`].
use vstd::prelude::*;

use crate::cop;

verus! {

/// The name of the constant-zero row.
pub open spec fn zero_cell() -> int {
    -1
}

/// The contents of every cell.
pub type Store = spec_fn(int) -> u64;

/// One op over named cells. `ins` holds `in0`, `in1`, `in2` and the four neighbours.
pub struct NamedOp {
    pub code: u8,
    pub out: int,
    pub ins: Seq<int>,
    pub threshold: u8,
    pub shift: u8,
    pub mask: u64,
}

/// The cells that the device cycle writes and reads around the op streams.
pub struct Taps {
    pub pc: int,
    pub final_mux: Seq<int>,
    pub inject_right: Seq<int>,
    pub inject: Seq<int>,
    pub bank47: Seq<Seq<int>>,
    pub a_term: int,
    pub b_term: int,
    pub root: int,
}

/// A device ALU program over named cells.
pub struct NamedProgram {
    pub cone: Seq<NamedOp>,
    pub settle: Seq<NamedOp>,
    pub trunk: Seq<NamedOp>,
    pub taps: Taps,
}

/// `st` with cell `k` set to `v`.
pub open spec fn put(st: Store, k: int, v: u64) -> Store {
    |s: int|
        if s == k {
            v
        } else {
            st(s)
        }
}

/// The values of an op's seven inputs.
pub open spec fn in_values(op: NamedOp, st: Store) -> Seq<u64> {
    Seq::new(7, |k: int| st(op.ins[k]))
}

/// What an op writes to its output cell.
pub open spec fn result_of(op: NamedOp, st: Store) -> u64 {
    cop::op_value(op.code, in_values(op, st), st(op.out), op.threshold, op.shift, op.mask)
}

/// The store after one op.
pub open spec fn step(op: NamedOp, st: Store) -> Store {
    put(st, op.out, result_of(op, st))
}

/// The store after the ops of `ops`, first to last.
pub open spec fn run(ops: Seq<NamedOp>, st: Store) -> Store
    decreases ops.len(),
{
    if ops.len() == 0 {
        st
    } else {
        step(ops.last(), run(ops.drop_last(), st))
    }
}

/// The store after lane `i` of the super-mux bridge: the right input takes the final mux of
/// banks 0 to 3, the left input the bank-`bw` mux of banks 4 to 7.
pub open spec fn bridge_lane(t: Taps, bw: int, i: int, st: Store) -> Store {
    let right = put(st, t.inject_right[i], st(t.final_mux[i]));
    put(right, t.inject[i], right(t.bank47[bw][i]))
}

/// The store after the first `n` lanes of the super-mux bridge.
pub open spec fn bridge(t: Taps, bw: int, n: nat, st: Store) -> Store
    decreases n,
{
    if n == 0 {
        st
    } else {
        bridge_lane(t, bw, n - 1, bridge(t, bw, (n - 1) as nat, st))
    }
}

/// The bank within its group that a program counter selects.
pub open spec fn bank_within(pc: int) -> int {
    (pc / 16) % 4
}

/// The store after the decode half of a device cycle: inject the program counter, run
/// `cone`, bridge the super mux, run `settle`.
pub open spec fn decode(p: NamedProgram, pc: u64, st: Store) -> Store {
    let fetched = run(p.cone, put(st, p.taps.pc, pc));
    run(p.settle, bridge(p.taps, bank_within(pc as int), 4, fetched))
}

/// The store after the execute half: inject the operands, run `trunk`.
pub open spec fn execute(p: NamedProgram, a: u64, b: u64, st: Store) -> Store {
    run(p.trunk, put(put(st, p.taps.a_term, a), p.taps.b_term, b))
}

/// The ALU result of one device cycle.
pub open spec fn alu_result(p: NamedProgram, pc: u64, a: u64, b: u64, st: Store) -> u64 {
    execute(p, a, b, decode(p, pc, st))(p.taps.root)
}

/// Every op of the program is one whose value the liveness analysis accounts for.
pub open spec fn all_known(ops: Seq<NamedOp>) -> bool {
    forall|j: int|
        0 <= j < ops.len() ==> cop::is_combinational((#[trigger] ops[j]).code) || ops[j].code
            == cop::COP_RAM
}

/// The taps have their four lanes and four banks.
pub open spec fn taps_shaped(t: Taps) -> bool {
    &&& t.final_mux.len() == 4
    &&& t.inject_right.len() == 4
    &&& t.inject.len() == 4
    &&& t.bank47.len() == 4
    &&& forall|b: int| 0 <= b < 4 ==> (#[trigger] t.bank47[b]).len() == 4
}

// ---- Dead-op elimination ----

/// The cells an op consumes when it is kept.
pub open spec fn consumed(op: NamedOp) -> Set<int> {
    let ins = Set::new(|c: int| exists|k: int| 0 <= k < 7 && #[trigger] op.ins[k] == c);
    if op.code == cop::COP_RAM {
        ins.insert(op.out)
    } else {
        ins
    }
}

/// The cells live before an op, given the cells live after it.
pub open spec fn live_step(op: NamedOp, live: Set<int>) -> Set<int> {
    if live.contains(op.out) {
        live.remove(op.out).union(consumed(op))
    } else {
        live
    }
}

/// The cells live before `ops`, given the cells live after them.
pub open spec fn live_before(ops: Seq<NamedOp>, live: Set<int>) -> Set<int>
    decreases ops.len(),
{
    if ops.len() == 0 {
        live
    } else {
        live_before(ops.drop_last(), live_step(ops.last(), live))
    }
}

/// The ops of `ops` that write a live cell, in order.
pub open spec fn kept(ops: Seq<NamedOp>, live: Set<int>) -> Seq<NamedOp>
    decreases ops.len(),
{
    if ops.len() == 0 {
        ops
    } else {
        let earlier = kept(ops.drop_last(), live_step(ops.last(), live));
        if live.contains(ops.last().out) {
            earlier.push(ops.last())
        } else {
            earlier
        }
    }
}

/// The cells live before the operand injection.
pub open spec fn live_at_inject(t: Taps, live: Set<int>) -> Set<int> {
    live.remove(t.a_term).remove(t.b_term)
}

/// The cells live before the super-mux bridge.
pub open spec fn live_at_bridge(t: Taps, live: Set<int>) -> Set<int> {
    Set::new(
        |c: int|
            (live.contains(c) && !t.inject_right.contains(c) && !t.inject.contains(c))
                || t.final_mux.contains(c) || exists|b: int|
                0 <= b < 4 && (#[trigger] t.bank47[b]).contains(c),
    )
}

/// The live cells after `trunk`: the ALU root alone.
pub open spec fn live_after_trunk(p: NamedProgram) -> Set<int> {
    set![p.taps.root]
}

/// The live cells after `settle`.
pub open spec fn live_after_settle(p: NamedProgram) -> Set<int> {
    live_at_inject(p.taps, live_before(p.trunk, live_after_trunk(p)))
}

/// The live cells after `cone`.
pub open spec fn live_after_cone(p: NamedProgram) -> Set<int> {
    live_at_bridge(p.taps, live_before(p.settle, live_after_settle(p)))
}

/// The program with every op dropped that cannot reach the ALU root.
pub open spec fn pruned(p: NamedProgram) -> NamedProgram {
    NamedProgram {
        cone: kept(p.cone, live_after_cone(p)),
        settle: kept(p.settle, live_after_settle(p)),
        trunk: kept(p.trunk, live_after_trunk(p)),
        taps: p.taps,
    }
}

/// Two stores agree on a set of cells.
pub open spec fn agree(cells: Set<int>, s: Store, t: Store) -> bool {
    forall|c: int| cells.contains(c) ==> #[trigger] s(c) == t(c)
}

/// The cells that the dropped ops of a stream write.
pub open spec fn dropped_cells(ops: Seq<NamedOp>, live: Set<int>) -> Set<int>
    decreases ops.len(),
{
    if ops.len() == 0 {
        Set::empty()
    } else {
        let earlier = dropped_cells(ops.drop_last(), live_step(ops.last(), live));
        if live.contains(ops.last().out) {
            earlier
        } else {
            earlier.insert(ops.last().out)
        }
    }
}

/// The cells whose value at the start of a cycle can reach the ALU root.
pub open spec fn live_at_start(p: NamedProgram) -> Set<int> {
    live_before(p.cone, live_after_cone(p)).remove(p.taps.pc)
}

/// No op that pruning drops writes one of these cells.
pub open spec fn spares(p: NamedProgram, held: Set<int>) -> bool {
    &&& held.disjoint(dropped_cells(p.cone, live_after_cone(p)))
    &&& held.disjoint(dropped_cells(p.settle, live_after_settle(p)))
    &&& held.disjoint(dropped_cells(p.trunk, live_after_trunk(p)))
}

proof fn lemma_step_agree(op: NamedOp, live: Set<int>, held: Set<int>, s: Store, t: Store)
    requires
        cop::is_combinational(op.code) || op.code == cop::COP_RAM,
        agree(live_step(op, live).union(held), s, t),
        live.contains(op.out),
    ensures
        agree(live.union(held), step(op, s), step(op, t)),
{
    let before = live_step(op, live).union(held);
    assert forall|k: int| 0 <= k < 7 implies in_values(op, s)[k] == in_values(op, t)[k] by {
        assert(consumed(op).contains(op.ins[k]));
        assert(before.contains(op.ins[k]));
        assert(s(op.ins[k]) == t(op.ins[k]));
    }
    if op.code == cop::COP_RAM {
        assert(before.contains(op.out));
        assert(s(op.out) == t(op.out));
    }
    cop::lemma_op_value_reads(
        op.code,
        in_values(op, s),
        in_values(op, t),
        s(op.out),
        t(op.out),
        op.threshold,
        op.shift,
        op.mask,
    );
    assert forall|c: int| live.union(held).contains(c) implies #[trigger] step(op, s)(c) == step(
        op,
        t,
    )(c) by {
        if c != op.out {
            assert(before.contains(c));
            assert(s(c) == t(c));
        }
    }
}

/// Running the kept ops of a stream gives every live cell the value that the whole stream
/// gives it, and every other cell of `held`, which no dropped op writes.
proof fn lemma_kept_agree(
    ops: Seq<NamedOp>,
    live: Set<int>,
    held: Set<int>,
    s: Store,
    t: Store,
)
    requires
        all_known(ops),
        held.disjoint(dropped_cells(ops, live)),
        agree(live_before(ops, live).union(held), s, t),
    ensures
        agree(live.union(held), run(ops, s), run(kept(ops, live), t)),
    decreases ops.len(),
{
    if ops.len() > 0 {
        let op = ops.last();
        let init = ops.drop_last();
        let before = live_step(op, live);
        assert(op == ops[ops.len() - 1]);
        assert forall|j: int| 0 <= j < init.len() implies cop::is_combinational(
            (#[trigger] init[j]).code,
        ) || init[j].code == cop::COP_RAM by {
            assert(init[j] == ops[j]);
        }
        assert(held.disjoint(dropped_cells(init, before))) by {
            assert forall|c: int| held.contains(c) implies !dropped_cells(init, before).contains(
                c,
            ) by {
                assert(!dropped_cells(ops, live).contains(c));
            }
        }
        lemma_kept_agree(init, before, held, s, t);
        let rest = kept(init, before);
        if live.contains(op.out) {
            assert(rest.push(op).drop_last() =~= rest);
            assert(rest.push(op).last() == op);
            lemma_step_agree(op, live, held, run(init, s), run(rest, t));
        } else {
            assert(dropped_cells(ops, live).contains(op.out));
            assert forall|c: int| live.union(held).contains(c) implies #[trigger] run(ops, s)(c)
                == run(rest, t)(c) by {
                assert(c != op.out);
                assert(before.union(held).contains(c));
                assert(run(init, s)(c) == run(rest, t)(c));
            }
        }
    }
}

proof fn lemma_bridge_agree(t: Taps, bw: int, n: nat, live: Set<int>, s: Store, u: Store)
    requires
        taps_shaped(t),
        0 <= bw < 4,
        n <= 4,
        agree(live_at_bridge(t, live), s, u),
    ensures
        agree(live_at_bridge(t, live), bridge(t, bw, n, s), bridge(t, bw, n, u)),
        forall|i: int|
            0 <= i < n ==> bridge(t, bw, n, s)(#[trigger] t.inject_right[i]) == bridge(
                t,
                bw,
                n,
                u,
            )(t.inject_right[i]),
        forall|i: int|
            0 <= i < n ==> bridge(t, bw, n, s)(#[trigger] t.inject[i]) == bridge(t, bw, n, u)(
                t.inject[i],
            ),
    decreases n,
{
    if n > 0 {
        let m = (n - 1) as nat;
        lemma_bridge_agree(t, bw, m, live, s, u);
        let s1 = bridge(t, bw, m, s);
        let u1 = bridge(t, bw, m, u);
        assert(t.final_mux.contains(t.final_mux[m as int]));
        assert(live_at_bridge(t, live).contains(t.final_mux[m as int]));
        assert(s1(t.final_mux[m as int]) == u1(t.final_mux[m as int]));
        assert(t.bank47[bw].contains(t.bank47[bw][m as int]));
        assert(live_at_bridge(t, live).contains(t.bank47[bw][m as int]));
        assert(s1(t.bank47[bw][m as int]) == u1(t.bank47[bw][m as int]));
        assert forall|c: int| live_at_bridge(t, live).contains(c) implies #[trigger] bridge(
            t,
            bw,
            n,
            s,
        )(c) == bridge(t, bw, n, u)(c) by {
            assert(s1(c) == u1(c));
        }
    }
}

/// Where two stores agree on what a cycle starts from, and on cells that no dropped op writes,
/// they still agree on those cells after the whole program has run on one and the pruned program
/// on the other, and on the ALU root.
proof fn lemma_cycle_agree(
    p: NamedProgram,
    held: Set<int>,
    pc: u64,
    a: u64,
    b: u64,
    s: Store,
    u: Store,
)
    requires
        taps_shaped(p.taps),
        all_known(p.cone),
        all_known(p.settle),
        all_known(p.trunk),
        spares(p, held),
        agree(live_at_start(p).union(held), s, u),
    ensures
        agree(
            live_after_trunk(p).union(held),
            execute(p, a, b, decode(p, pc, s)),
            execute(pruned(p), a, b, decode(pruned(p), pc, u)),
        ),
{
    let q = pruned(p);
    let t = p.taps;
    let bw = bank_within(pc as int);
    let s0 = put(s, t.pc, pc);
    let u0 = put(u, t.pc, pc);
    let live0 = live_before(p.cone, live_after_cone(p));
    assert forall|c: int| live0.union(held).contains(c) implies #[trigger] s0(c) == u0(c) by {
        if c != t.pc {
            assert(live_at_start(p).union(held).contains(c));
            assert(s(c) == u(c));
        }
    }
    lemma_kept_agree(p.cone, live_after_cone(p), held, s0, u0);
    let s1 = run(p.cone, s0);
    let u1 = run(q.cone, u0);
    let live2 = live_before(p.settle, live_after_settle(p)).union(held);
    assert(agree(live_at_bridge(t, live2), s1, u1)) by {
        assert forall|c: int| live_at_bridge(t, live2).contains(c) implies #[trigger] s1(c) == u1(
            c,
        ) by {
            assert(live_after_cone(p).union(held).contains(c));
        }
    }
    lemma_bridge_agree(t, bw, 4, live2, s1, u1);
    let s2 = bridge(t, bw, 4, s1);
    let u2 = bridge(t, bw, 4, u1);
    assert(agree(live2, s2, u2)) by {
        assert forall|c: int| live2.contains(c) implies #[trigger] s2(c) == u2(c) by {
            if t.inject_right.contains(c) {
                let i = choose|i: int| 0 <= i < 4 && t.inject_right[i] == c;
                assert(s2(t.inject_right[i]) == u2(t.inject_right[i]));
            } else if t.inject.contains(c) {
                let i = choose|i: int| 0 <= i < 4 && t.inject[i] == c;
                assert(s2(t.inject[i]) == u2(t.inject[i]));
            } else {
                assert(live_at_bridge(t, live2).contains(c));
            }
        }
    }
    lemma_kept_agree(p.settle, live_after_settle(p), held, s2, u2);
    let s3 = run(p.settle, s2);
    let u3 = run(q.settle, u2);
    let s4 = put(put(s3, t.a_term, a), t.b_term, b);
    let u4 = put(put(u3, t.a_term, a), t.b_term, b);
    let live4 = live_before(p.trunk, live_after_trunk(p));
    assert(agree(live4.union(held), s4, u4)) by {
        assert forall|c: int| live4.union(held).contains(c) implies #[trigger] s4(c) == u4(c) by {
            if c != t.a_term && c != t.b_term {
                assert(live_at_inject(t, live4).union(held).contains(c));
                assert(s3(c) == u3(c));
            }
        }
    }
    lemma_kept_agree(p.trunk, live_after_trunk(p), held, s4, u4);
}

/// Dead-op elimination is exact: the pruned program gives the same ALU result as the whole
/// program, for every program counter, every pair of operands and every store.
pub proof fn law_pruning_is_exact(p: NamedProgram, pc: u64, a: u64, b: u64, st: Store)
    requires
        taps_shaped(p.taps),
        all_known(p.cone),
        all_known(p.settle),
        all_known(p.trunk),
    ensures
        alu_result(pruned(p), pc, a, b, st) == alu_result(p, pc, a, b, st),
{
    lemma_cycle_agree(p, Set::empty(), pc, a, b, st, st);
    assert(live_after_trunk(p).union(Set::empty()).contains(p.taps.root));
    assert(execute(p, a, b, decode(p, pc, st))(p.taps.root) == execute(
        pruned(p),
        a,
        b,
        decode(pruned(p), pc, st),
    )(p.taps.root));
}

/// What is handed to a cycle, given the results of the cycles before it: the program counter and
/// the two operands.
pub type Driver = spec_fn(Seq<u64>) -> (u64, u64, u64);

/// The results of the first `n` cycles that a driver makes, and the store after them. The store
/// stays from one cycle to the next.
pub open spec fn cycles(p: NamedProgram, next: Driver, st: Store, n: nat) -> (Seq<u64>, Store)
    decreases n,
{
    if n == 0 {
        (Seq::empty(), st)
    } else {
        let (results, before) = cycles(p, next, st, (n - 1) as nat);
        let (pc, a, b) = next(results);
        let after = execute(p, a, b, decode(p, pc, before));
        (results.push(after(p.taps.root)), after)
    }
}

/// Dead-op elimination is exact over whole runs, however the results of earlier cycles determine
/// the later ones: where no dropped op writes a cell that a cycle can read before it writes it,
/// the pruned program gives the same results as the whole program.
pub proof fn law_pruning_is_exact_over_runs(p: NamedProgram, next: Driver, st: Store, n: nat)
    requires
        taps_shaped(p.taps),
        all_known(p.cone),
        all_known(p.settle),
        all_known(p.trunk),
        spares(p, live_at_start(p)),
    ensures
        cycles(pruned(p), next, st, n).0 == cycles(p, next, st, n).0,
        agree(live_at_start(p), cycles(p, next, st, n).1, cycles(pruned(p), next, st, n).1),
    decreases n,
{
    if n > 0 {
        law_pruning_is_exact_over_runs(p, next, st, (n - 1) as nat);
        let (r, s) = cycles(p, next, st, (n - 1) as nat);
        let u = cycles(pruned(p), next, st, (n - 1) as nat).1;
        let (pc, a, b) = next(r);
        let held = live_at_start(p);
        lemma_cycle_agree(p, held, pc, a, b, s, u);
        let all = live_after_trunk(p).union(held);
        let s1 = execute(p, a, b, decode(p, pc, s));
        let u1 = execute(pruned(p), a, b, decode(pruned(p), pc, u));
        assert(all.contains(p.taps.root));
        assert(s1(p.taps.root) == u1(p.taps.root));
        assert forall|c: int| held.contains(c) implies #[trigger] s1(c) == u1(c) by {
            assert(all.contains(c));
        }
    }
}

/// Pruning adds no op to a stream.
pub proof fn law_pruning_only_drops(ops: Seq<NamedOp>, live: Set<int>)
    ensures
        kept(ops, live).len() <= ops.len(),
    decreases ops.len(),
{
    if ops.len() > 0 {
        law_pruning_only_drops(ops.drop_last(), live_step(ops.last(), live));
    }
}

} // verus!
