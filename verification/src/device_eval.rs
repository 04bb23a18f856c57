//! Host evaluation of device ALU programs on one row of slot values.
use vstd::prelude::*;

use crate::cop;
use crate::device_alu::{named_range, DeviceAluProgram, DeviceOp};
use crate::device_model::{self, alu_result, bank_within, in_values, put, result_of, NamedOp, Store};
use crate::slots::slot_name;

verus! {

/// The values of an op's seven inputs.
pub open spec fn slot_inputs(op: DeviceOp, vals: Seq<u64>) -> Seq<u64> {
    Seq::new(7, |k: int| vals[op.ins@[k] as int])
}

/// The row after one op.
pub open spec fn slot_step(op: DeviceOp, vals: Seq<u64>) -> Seq<u64> {
    vals.update(
        op.out as int,
        cop::op_value(
            op.code,
            slot_inputs(op, vals),
            vals[op.out as int],
            op.threshold,
            op.shift,
            op.mask,
        ),
    )
}

/// The row after the ops of `ops`, first to last.
pub open spec fn run_slots(ops: Seq<DeviceOp>, vals: Seq<u64>) -> Seq<u64>
    decreases ops.len(),
{
    if ops.len() == 0 {
        vals
    } else {
        slot_step(ops.last(), run_slots(ops.drop_last(), vals))
    }
}

/// The row after the first `n` lanes of the super-mux bridge.
pub open spec fn bridge_slots(p: DeviceAluProgram, bw: int, n: nat, vals: Seq<u64>) -> Seq<u64>
    decreases n,
{
    if n == 0 {
        vals
    } else {
        let i = n - 1;
        let before = bridge_slots(p, bw, (n - 1) as nat, vals);
        let right = before.update(
            p.taps.inject_right@[i] as int,
            before[p.taps.final_mux@[i] as int],
        );
        right.update(p.taps.inject@[i] as int, right[p.taps.bank47@[4 * bw + i] as int])
    }
}

/// The row after the decode half of a device cycle.
pub open spec fn decode_slots(p: DeviceAluProgram, pc: u64, vals: Seq<u64>) -> Seq<u64> {
    let fetched = run_slots(
        p.ops@.subrange(0, p.cone_end as int),
        vals.update(p.taps.pc as int, pc),
    );
    run_slots(
        p.ops@.subrange(p.cone_end as int, p.settle_end as int),
        bridge_slots(p, bank_within(pc as int), 4, fetched),
    )
}

/// The row after the execute half of a device cycle.
pub open spec fn execute_slots(p: DeviceAluProgram, a: u64, b: u64, vals: Seq<u64>) -> Seq<u64> {
    run_slots(
        p.ops@.subrange(p.settle_end as int, p.ops@.len() as int),
        vals.update(p.taps.a_term as int, a).update(p.taps.b_term as int, b),
    )
}

/// The ALU result of one device cycle on a row.
pub open spec fn alu_slots(p: DeviceAluProgram, pc: u64, a: u64, b: u64, vals: Seq<u64>) -> u64 {
    execute_slots(p, a, b, decode_slots(p, pc, vals))[p.taps.root as int]
}

/// The row holds, slot by slot, what the store holds in the slots' cells.
pub open spec fn represents(p: DeviceAluProgram, vals: Seq<u64>, st: Store) -> bool {
    &&& vals.len() == p.n_slots
    &&& forall|s: int|
        0 <= s < p.n_slots ==> #[trigger] vals[s] == st(slot_name(p.touched@, p.zero(), s as u32))
}

proof fn lemma_update_represents(
    p: DeviceAluProgram,
    vals: Seq<u64>,
    st: Store,
    s: u32,
    v: u64,
)
    requires
        p.wf(),
        represents(p, vals, st),
        s < p.n_slots,
    ensures
        represents(
            p,
            vals.update(s as int, v),
            put(st, slot_name(p.touched@, p.zero(), s), v),
        ),
{
    let c = slot_name(p.touched@, p.zero(), s);
    let st2 = put(st, c, v);
    let vals2 = vals.update(s as int, v);
    assert forall|t: int| 0 <= t < p.n_slots implies #[trigger] vals2[t] == st2(
        slot_name(p.touched@, p.zero(), t as u32),
    ) by {
        assert(vals[t] == st(slot_name(p.touched@, p.zero(), t as u32)));
        if t != s && slot_name(p.touched@, p.zero(), t as u32) == c {
            if t < p.touched@.len() && s < p.touched@.len() {
                assert(p.touched@[t] == p.touched@[s as int]);
            }
        }
    }
}

proof fn lemma_run_represents(p: DeviceAluProgram, lo: int, hi: int, vals: Seq<u64>, st: Store)
    requires
        p.wf(),
        0 <= lo <= hi <= p.ops@.len(),
        represents(p, vals, st),
    ensures
        represents(
            p,
            run_slots(p.ops@.subrange(lo, hi), vals),
            device_model::run(named_range(p.ops@, p.touched@, lo, hi), st),
        ),
    decreases hi - lo,
{
    let ops = p.ops@.subrange(lo, hi);
    let named = named_range(p.ops@, p.touched@, lo, hi);
    if lo < hi {
        lemma_run_represents(p, lo, hi - 1, vals, st);
        assert(ops.drop_last() =~= p.ops@.subrange(lo, hi - 1));
        assert(named.drop_last() =~= named_range(p.ops@, p.touched@, lo, hi - 1));
        let op = p.ops@[hi - 1];
        let nop = op.named(p.touched@, p.zero());
        assert(ops.last() == op && named.last() == nop);
        let v1 = run_slots(ops.drop_last(), vals);
        let s1 = device_model::run(named.drop_last(), st);
        assert(op.in_range(p.touched@.len(), p.zero()));
        assert(slot_inputs(op, v1) =~= in_values(nop, s1)) by {
            assert forall|k: int| 0 <= k < 7 implies slot_inputs(op, v1)[k] == in_values(
                nop,
                s1,
            )[k] by {
                assert(op.ins@[k] == p.zero() || op.ins@[k] < p.touched@.len());
                assert(v1[op.ins@[k] as int] == s1(
                    slot_name(p.touched@, p.zero(), op.ins@[k]),
                ));
            }
        }
        assert(v1[op.out as int] == s1(slot_name(p.touched@, p.zero(), op.out)));
        lemma_update_represents(p, v1, s1, op.out, result_of(nop, s1));
    } else {
        assert(ops =~= Seq::<DeviceOp>::empty());
        assert(named =~= Seq::<NamedOp>::empty());
    }
}

proof fn lemma_bridge_represents(
    p: DeviceAluProgram,
    bw: int,
    n: nat,
    vals: Seq<u64>,
    st: Store,
)
    requires
        p.wf(),
        0 <= bw < 4,
        n <= 4,
        represents(p, vals, st),
    ensures
        represents(
            p,
            bridge_slots(p, bw, n, vals),
            device_model::bridge(p.program().taps, bw, n, st),
        ),
    decreases n,
{
    if n > 0 {
        let i = n - 1;
        lemma_bridge_represents(p, bw, (n - 1) as nat, vals, st);
        let t = p.program().taps;
        let v0 = bridge_slots(p, bw, (n - 1) as nat, vals);
        let s0 = device_model::bridge(t, bw, (n - 1) as nat, st);
        assert(p.taps.final_mux@[i] < p.touched@.len());
        assert(p.taps.inject_right@[i] < p.touched@.len());
        assert(p.taps.inject@[i] < p.touched@.len());
        assert(p.taps.bank47@[4 * bw + i] < p.touched@.len());
        let x = v0[p.taps.final_mux@[i] as int];
        lemma_update_represents(p, v0, s0, p.taps.inject_right@[i], x);
        let v1 = v0.update(p.taps.inject_right@[i] as int, x);
        let s1 = put(s0, t.inject_right[i], s0(t.final_mux[i]));
        assert(represents(p, v1, s1));
        let y = v1[p.taps.bank47@[4 * bw + i] as int];
        assert(t.bank47[bw][i] == slot_name(p.touched@, p.zero(), p.taps.bank47@[4 * bw + i]));
        lemma_update_represents(p, v1, s1, p.taps.inject@[i], y);
    }
}

/// Evaluating on slots is evaluating on cells: a row that holds what a store holds gives the
/// same ALU result, for every program counter and every pair of operands.
pub proof fn law_slots_match_cells(
    p: DeviceAluProgram,
    pc: u64,
    a: u64,
    b: u64,
    vals: Seq<u64>,
    st: Store,
)
    requires
        p.wf(),
        represents(p, vals, st),
    ensures
        represents(p, decode_slots(p, pc, vals), device_model::decode(p.program(), pc, st)),
        represents(
            p,
            execute_slots(p, a, b, decode_slots(p, pc, vals)),
            device_model::execute(
                p.program(),
                a,
                b,
                device_model::decode(p.program(), pc, st),
            ),
        ),
        alu_slots(p, pc, a, b, vals) == alu_result(p.program(), pc, a, b, st),
{
    let t = p.program().taps;
    let bw = bank_within(pc as int);
    lemma_update_represents(p, vals, st, p.taps.pc, pc);
    let v0 = vals.update(p.taps.pc as int, pc);
    let s0 = put(st, t.pc, pc);
    lemma_run_represents(p, 0, p.cone_end as int, v0, s0);
    let v1 = run_slots(p.ops@.subrange(0, p.cone_end as int), v0);
    let s1 = device_model::run(p.program().cone, s0);
    lemma_bridge_represents(p, bw, 4, v1, s1);
    let v2 = bridge_slots(p, bw, 4, v1);
    let s2 = device_model::bridge(t, bw, 4, s1);
    lemma_run_represents(p, p.cone_end as int, p.settle_end as int, v2, s2);
    let v3 = decode_slots(p, pc, vals);
    let s3 = device_model::decode(p.program(), pc, st);
    lemma_update_represents(p, v3, s3, p.taps.a_term, a);
    let v4 = v3.update(p.taps.a_term as int, a);
    let s4 = put(s3, t.a_term, a);
    lemma_update_represents(p, v4, s4, p.taps.b_term, b);
    let v5 = v4.update(p.taps.b_term as int, b);
    let s5 = put(s4, t.b_term, b);
    lemma_run_represents(p, p.settle_end as int, p.ops@.len() as int, v5, s5);
    let v6 = execute_slots(p, a, b, v3);
    assert(v6[p.taps.root as int] == device_model::execute(p.program(), a, b, s3)(
        slot_name(p.touched@, p.zero(), p.taps.root),
    ));
}

impl DeviceAluProgram {
    /// Evaluate the ops `[lo, hi)` in order on one row of slot values.
    pub fn host_eval_range(&self, vals: &mut Vec<u64>, lo: usize, hi: usize)
        requires
            self.wf(),
            lo <= hi <= self.ops@.len(),
            old(vals)@.len() == self.n_slots,
        ensures
            final(vals)@ == run_slots(self.ops@.subrange(lo as int, hi as int), old(vals)@),
            final(vals)@.len() == self.n_slots,
    {
        let mut j: usize = lo;
        assert(self.ops@.subrange(lo as int, lo as int) =~= Seq::<DeviceOp>::empty());
        while j < hi
            invariant
                self.wf(),
                lo <= j <= hi <= self.ops@.len(),
                vals@.len() == self.n_slots,
                vals@ == run_slots(self.ops@.subrange(lo as int, j as int), old(vals)@),
            decreases hi - j,
        {
            let op = self.ops[j];
            let ghost before = vals@;
            assert(op.in_range(self.touched@.len(), self.zero()));
            assert forall|k: int| 0 <= k < 7 implies #[trigger] op.ins@[k] < self.n_slots by {
                assert(op.ins@[k] == self.zero() || op.ins@[k] < self.touched@.len());
            }
            let out: usize = op.out as usize;
            let r: u64 = cop::eval_op(
                op.code,
                vals[op.ins[0] as usize],
                vals[op.ins[1] as usize],
                vals[op.ins[2] as usize],
                vals[op.ins[3] as usize],
                vals[op.ins[4] as usize],
                vals[op.ins[5] as usize],
                vals[op.ins[6] as usize],
                vals[out],
                op.threshold,
                op.shift,
                op.mask,
            );
            vals.set(out, r);
            proof {
                let inputs = slot_inputs(op, before);
                assert(inputs =~= seq![
                    inputs[0],
                    inputs[1],
                    inputs[2],
                    inputs[3],
                    inputs[4],
                    inputs[5],
                    inputs[6],
                ]);
                let next = self.ops@.subrange(lo as int, j + 1);
                assert(next.drop_last() =~= self.ops@.subrange(lo as int, j as int));
                assert(next.last() == op);
            }
            j = j + 1;
        }
    }

    /// Evaluate the decode half of a device cycle on one row of slot values.
    pub fn host_decode(&self, vals: &mut Vec<u64>, pc: u64)
        requires
            self.wf(),
            old(vals)@.len() == self.n_slots,
        ensures
            final(vals)@ == decode_slots(*self, pc, old(vals)@),
            final(vals)@.len() == self.n_slots,
    {
        vals.set(self.taps.pc as usize, pc);
        self.host_eval_range(vals, 0, self.cone_end);
        let bw: usize = ((pc / 16) % 4) as usize;
        let ghost fetched = vals@;
        let mut i: usize = 0;
        while i < 4
            invariant
                self.wf(),
                i <= 4,
                bw < 4,
                bw == bank_within(pc as int),
                vals@.len() == self.n_slots,
                vals@ == bridge_slots(*self, bw as int, i as nat, fetched),
            decreases 4 - i,
        {
            assert(self.taps.final_mux@[i as int] < self.touched@.len());
            assert(self.taps.inject_right@[i as int] < self.touched@.len());
            assert(self.taps.inject@[i as int] < self.touched@.len());
            assert(self.taps.bank47@[4 * bw + i] < self.touched@.len());
            let right: u64 = vals[self.taps.final_mux[i] as usize];
            vals.set(self.taps.inject_right[i] as usize, right);
            let left: u64 = vals[self.taps.bank47[4 * bw + i] as usize];
            vals.set(self.taps.inject[i] as usize, left);
            i = i + 1;
        }
        self.host_eval_range(vals, self.cone_end, self.settle_end);
    }
}

} // verus!
