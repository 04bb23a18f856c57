//! Host-side tables of a device ALU program: seeded lane buffers and the decode table.
use vstd::prelude::*;

use crate::device_alu::DeviceAluProgram;
use crate::device_eval::{
    alu_slots, bridge_slots, decode_slots, law_slots_match_cells, represents, run_slots,
};
use crate::device_model::{all_known, bank_within, law_pruning_is_exact, taps_shaped, zero_cell, Store};
use crate::device_plan::DeviceCyclePlan;
use crate::simulation::Simulation;
use crate::slots::slot_name;
use crate::warp_decode::law_decode_is_pure;

verus! {

/// Every tile of the program is a tile of the grid.
pub open spec fn covers(sim: Simulation, p: DeviceAluProgram) -> bool {
    forall|s: int| 0 <= s < p.touched@.len() ==> #[trigger] p.touched@[s] < sim.len()
}

/// What slot `s` is seeded with: its tile's value, or zero for the zero row.
pub open spec fn seed_of(p: DeviceAluProgram, sim: Simulation, s: int) -> u64 {
    if s < p.touched@.len() {
        sim.values@[p.touched@[s] as int]
    } else {
        0
    }
}

/// One row of slots seeded from a grid.
pub open spec fn seed_row(p: DeviceAluProgram, sim: Simulation) -> Seq<u64> {
    Seq::new(p.n_slots as nat, |s: int| seed_of(p, sim, s))
}

/// The cells as a grid seeds them.
pub open spec fn grid_store(sim: Simulation) -> Store {
    |c: int|
        if c == zero_cell() {
            0
        } else {
            sim.values@[c]
        }
}

/// The row after decoding the program counters `0 .. n` one after another.
pub open spec fn row_after(p: DeviceAluProgram, seed: Seq<u64>, n: nat) -> Seq<u64>
    decreases n,
{
    if n == 0 {
        seed
    } else {
        decode_slots(p, (n - 1) as u64, row_after(p, seed, (n - 1) as nat))
    }
}

/// The interface values of the program counters `0 .. n`, one program counter after another.
pub open spec fn interface_rows(
    p: DeviceAluProgram,
    seed: Seq<u64>,
    slots: Seq<u32>,
    n: nat,
) -> Seq<u64>
    decreases n,
{
    if n == 0 {
        Seq::empty()
    } else {
        interface_rows(p, seed, slots, (n - 1) as nat) + Seq::new(
            slots.len(),
            |t: int| row_after(p, seed, n)[slots[t] as int],
        )
    }
}

proof fn lemma_row_index(s: int, lanes: int, lane: int, n: int)
    requires
        0 <= s < n,
        0 <= lane < lanes,
    ensures
        0 <= s * lanes + lane < n * lanes,
        (s * lanes + lane) / lanes == s,
{
    assert(s * lanes + lane < n * lanes && 0 <= s * lanes) by (nonlinear_arith)
        requires
            0 <= s < n,
            0 <= lane < lanes,
    ;
    vstd::arithmetic::div_mod::lemma_fundamental_div_mod_converse(
        s * lanes + lane,
        lanes,
        s,
        lane,
    );
}

impl DeviceAluProgram {
    /// A lane buffer seeded from a grid, every lane alike: slot `s` of lane `l` is entry
    /// `s * lanes + l`, and the zero row's slot stays zero.
    pub fn seed_from_sim(&self, sim: &Simulation, lanes: usize) -> (r: Vec<u64>)
        requires
            self.wf(),
            sim.wf(),
            covers(*sim, *self),
            self.n_slots * lanes <= usize::MAX,
        ensures
            r@.len() == self.n_slots * lanes,
            forall|s: int, lane: int|
                0 <= s < self.n_slots && 0 <= lane < lanes ==> #[trigger] r@[s * lanes + lane]
                    == seed_of(*self, *sim, s),
            lanes == 1 ==> r@ == seed_row(*self, *sim),
    {
        let total: usize = self.n_slots * lanes;
        let mut r: Vec<u64> = Vec::new();
        let mut i: usize = 0;
        while i < total
            invariant
                self.wf(),
                sim.wf(),
                covers(*sim, *self),
                total == self.n_slots * lanes,
                i <= total,
                i > 0 ==> lanes > 0,
                r@.len() == i,
                forall|k: int| 0 <= k < i ==> #[trigger] r@[k] == seed_of(*self, *sim, k / lanes as int),
            decreases total - i,
        {
            assert(lanes > 0) by (nonlinear_arith)
                requires
                    0 <= i < self.n_slots * lanes,
            ;
            let s: usize = i / lanes;
            let v: u64 = if s < self.touched.len() {
                let tile: usize = self.touched[s] as usize;
                sim.get_logic_value_by_idx(tile)
            } else {
                0
            };
            r.push(v);
            i = i + 1;
        }
        proof {
            assert forall|s: int, lane: int|
                0 <= s < self.n_slots && 0 <= lane < lanes implies #[trigger] r@[s * lanes + lane]
                == seed_of(*self, *sim, s) by {
                lemma_row_index(s, lanes as int, lane, self.n_slots as int);
            }
            if lanes == 1 {
                assert forall|s: int| 0 <= s < self.n_slots implies r@[s] == seed_row(
                    *self,
                    *sim,
                )[s] by {
                    assert(r@[s * lanes + 0] == seed_of(*self, *sim, s));
                }
                assert(r@ =~= seed_row(*self, *sim));
            }
        }
        r
    }

    /// The decode table of a program: the interface slots, and for each program counter
    /// their values after it is decoded, on one row seeded from the grid and reused.
    pub fn decode_interface_table(
        &self,
        sim: &Simulation,
        prog_len: usize,
    ) -> (r: Result<(Vec<u32>, Vec<u64>), String>)
        requires
            self.wf(),
            sim.wf(),
            covers(*sim, *self),
        ensures
            match r {
                Ok(t) => {
                    &&& self.broadcast_is(t.0@)
                    &&& t.1@ == interface_rows(*self, seed_row(*self, *sim), t.0@, prog_len as nat)
                },
                Err(e) => self.broadcast_fails(e@),
            },
    {
        match self.warpdecode_broadcast_slots() {
            Err(e) => Err(e),
            Ok(slots) => {
                let mut vals: Vec<u64> = self.seed_from_sim(sim, 1);
                let ghost seed = vals@;
                let mut table: Vec<u64> = Vec::new();
                let mut pc: usize = 0;
                while pc < prog_len
                    invariant
                        self.wf(),
                        pc <= prog_len,
                        self.broadcast_is(slots@),
                        vals@.len() == self.n_slots,
                        vals@ == row_after(*self, seed, pc as nat),
                        table@ == interface_rows(*self, seed, slots@, pc as nat),
                    decreases prog_len - pc,
                {
                    self.host_decode(&mut vals, pc as u64);
                    let ghost before = table@;
                    let ghost row = Seq::new(slots@.len(), |t: int| vals@[slots@[t] as int]);
                    let mut t: usize = 0;
                    assert(before + row.take(0) =~= before);
                    while t < slots.len()
                        invariant
                            self.wf(),
                            self.broadcast_is(slots@),
                            t <= slots@.len(),
                            vals@.len() == self.n_slots,
                            row == Seq::new(slots@.len(), |k: int| vals@[slots@[k] as int]),
                            table@ == before + row.take(t as int),
                        decreases slots@.len() - t,
                    {
                        proof {
                            self.lemma_interface_below(slots@[t as int], slots@);
                            assert(row.take(t + 1) =~= row.take(t as int).push(row[t as int]));
                            assert(before + row.take(t + 1) =~= (before + row.take(t as int)).push(
                                row[t as int],
                            ));
                        }
                        table.push(vals[slots[t] as usize]);
                        t = t + 1;
                    }
                    assert(row.take(t as int) =~= row);
                    proof {
                        assert(row_after(*self, seed, (pc + 1) as nat) == vals@);
                        assert(row =~= Seq::new(
                            slots@.len(),
                            |k: int| row_after(*self, seed, (pc + 1) as nat)[slots@[k] as int],
                        ));
                    }
                    pc = pc + 1;
                }
                Ok((slots, table))
            },
        }
    }

    proof fn lemma_interface_below(self, s: u32, v: Seq<u32>)
        requires
            self.wf(),
            self.broadcast_is(v),
            v.contains(s),
        ensures
            s < self.n_slots,
    {
        assert(self.is_interface(s));
        let m = choose|m: int|
            self.settle_end <= m < self.ops@.len() && crate::warp_decode::read_slots(
                #[trigger] self.ops@[m],
            ).contains(s);
        crate::warp_decode::lemma_reads_below(self, m);
        let reads = crate::warp_decode::read_slots(self.ops@[m]);
        let i = choose|i: int| 0 <= i < reads.len() && reads[i] == s;
        assert(reads[i] < self.n_slots);
    }
}

proof fn lemma_run_frame(p: DeviceAluProgram, lo: int, hi: int, v: Seq<u64>, s: int)
    requires
        p.wf(),
        0 <= lo <= hi <= p.ops@.len(),
        v.len() == p.n_slots,
        0 <= s < p.n_slots,
        !p.range_writes(lo, hi, s),
    ensures
        run_slots(p.ops@.subrange(lo, hi), v).len() == p.n_slots,
        run_slots(p.ops@.subrange(lo, hi), v)[s] == v[s],
    decreases hi - lo,
{
    let ops = p.ops@.subrange(lo, hi);
    if lo < hi {
        assert(!p.range_writes(lo, hi - 1, s)) by {
            if p.range_writes(lo, hi - 1, s) {
                let m = choose|m: int| lo <= m < hi - 1 && (#[trigger] p.ops@[m]).out == s;
                assert(p.ops@[m].out == s);
            }
        }
        lemma_run_frame(p, lo, hi - 1, v, s);
        assert(ops.drop_last() =~= p.ops@.subrange(lo, hi - 1));
        assert(p.ops@[hi - 1].out != s);
    }
}

proof fn lemma_bridge_frame(p: DeviceAluProgram, bw: int, n: nat, v: Seq<u64>, s: int)
    requires
        p.wf(),
        n <= 4,
        v.len() == p.n_slots,
        0 <= s < p.n_slots,
        !p.bridge_writes(s),
    ensures
        bridge_slots(p, bw, n, v).len() == p.n_slots,
        bridge_slots(p, bw, n, v)[s] == v[s],
    decreases n,
{
    if n > 0 {
        lemma_bridge_frame(p, bw, (n - 1) as nat, v, s);
        let i = n - 1;
        assert(p.taps.inject_right@.contains(p.taps.inject_right@[i]));
        assert(p.taps.inject@.contains(p.taps.inject@[i]));
    }
}

/// Decoding leaves every slot alone that it does not write.
pub proof fn lemma_decode_frame(p: DeviceAluProgram, pc: u64, v: Seq<u64>, s: int)
    requires
        p.wf(),
        v.len() == p.n_slots,
        0 <= s < p.n_slots,
        !p.decode_writes(s),
    ensures
        decode_slots(p, pc, v).len() == p.n_slots,
        decode_slots(p, pc, v)[s] == v[s],
{
    let v0 = v.update(p.taps.pc as int, pc);
    assert(!p.range_writes(0, p.cone_end as int, s) && !p.range_writes(
        p.cone_end as int,
        p.settle_end as int,
        s,
    )) by {
        if p.range_writes(0, p.cone_end as int, s) {
            let m = choose|m: int| 0 <= m < p.cone_end && (#[trigger] p.ops@[m]).out == s;
            assert(p.ops@[m].out == s);
        }
        if p.range_writes(p.cone_end as int, p.settle_end as int, s) {
            let m = choose|m: int|
                p.cone_end <= m < p.settle_end && (#[trigger] p.ops@[m]).out == s;
            assert(p.ops@[m].out == s);
        }
    }
    lemma_run_frame(p, 0, p.cone_end as int, v0, s);
    let v1 = run_slots(p.ops@.subrange(0, p.cone_end as int), v0);
    lemma_bridge_frame(p, bank_within(pc as int), 4, v1, s);
    let v2 = bridge_slots(p, bank_within(pc as int), 4, v1);
    lemma_run_frame(p, p.cone_end as int, p.settle_end as int, v2, s);
}

proof fn lemma_rows_keep_static(p: DeviceAluProgram, seed: Seq<u64>, n: nat)
    requires
        p.wf(),
        seed.len() == p.n_slots,
    ensures
        row_after(p, seed, n).len() == p.n_slots,
        forall|s: int|
            0 <= s < p.n_slots && p.is_static(s) ==> #[trigger] row_after(p, seed, n)[s] == seed[s],
    decreases n,
{
    if n > 0 {
        lemma_rows_keep_static(p, seed, (n - 1) as nat);
        let before = row_after(p, seed, (n - 1) as nat);
        lemma_decode_len(p, (n - 1) as u64, before);
        assert forall|s: int| 0 <= s < p.n_slots && p.is_static(s) implies #[trigger] row_after(
            p,
            seed,
            n,
        )[s] == seed[s] by {
            lemma_decode_frame(p, (n - 1) as u64, before, s);
            assert(before[s] == seed[s]);
        }
    }
}

proof fn lemma_run_len(p: DeviceAluProgram, lo: int, hi: int, v: Seq<u64>)
    requires
        p.wf(),
        0 <= lo <= hi <= p.ops@.len(),
        v.len() == p.n_slots,
    ensures
        run_slots(p.ops@.subrange(lo, hi), v).len() == p.n_slots,
    decreases hi - lo,
{
    let ops = p.ops@.subrange(lo, hi);
    if lo < hi {
        lemma_run_len(p, lo, hi - 1, v);
        assert(ops.drop_last() =~= p.ops@.subrange(lo, hi - 1));
        assert(p.ops@[hi - 1].in_range(p.touched@.len(), p.zero()));
    }
}

proof fn lemma_bridge_len(p: DeviceAluProgram, bw: int, n: nat, v: Seq<u64>)
    requires
        p.wf(),
        n <= 4,
        v.len() == p.n_slots,
    ensures
        bridge_slots(p, bw, n, v).len() == p.n_slots,
    decreases n,
{
    if n > 0 {
        lemma_bridge_len(p, bw, (n - 1) as nat, v);
        assert(p.taps.inject_right@[n - 1] < p.n_slots);
        assert(p.taps.inject@[n - 1] < p.n_slots);
    }
}

proof fn lemma_decode_len(p: DeviceAluProgram, pc: u64, v: Seq<u64>)
    requires
        p.wf(),
        v.len() == p.n_slots,
    ensures
        decode_slots(p, pc, v).len() == p.n_slots,
{
    let v0 = v.update(p.taps.pc as int, pc);
    lemma_run_len(p, 0, p.cone_end as int, v0);
    let v1 = run_slots(p.ops@.subrange(0, p.cone_end as int), v0);
    lemma_bridge_len(p, bank_within(pc as int), 4, v1);
    lemma_run_len(
        p,
        p.cone_end as int,
        p.settle_end as int,
        bridge_slots(p, bank_within(pc as int), 4, v1),
    );
}

proof fn lemma_interface_entry(
    p: DeviceAluProgram,
    seed: Seq<u64>,
    slots: Seq<u32>,
    n: nat,
    pc: nat,
    t: int,
)
    requires
        pc < n,
        0 <= t < slots.len(),
    ensures
        interface_rows(p, seed, slots, n).len() == n * slots.len(),
        0 <= pc * slots.len() + t < n * slots.len(),
        interface_rows(p, seed, slots, n)[(pc * slots.len() + t) as int] == row_after(
            p,
            seed,
            pc + 1,
        )[slots[t] as int],
    decreases n,
{
    let b = slots.len();
    lemma_row_index(pc as int, b as int, t, n as int);
    assert(n * b == (n - 1) * b + b) by (nonlinear_arith)
        requires
            n >= 1,
    ;
    let m = (n - 1) as nat;
    if pc < m {
        lemma_interface_entry(p, seed, slots, m, pc, t);
        lemma_row_index(pc as int, b as int, t, m as int);
    } else {
        lemma_interface_len(p, seed, slots, m);
    }
}

proof fn lemma_interface_len(p: DeviceAluProgram, seed: Seq<u64>, slots: Seq<u32>, n: nat)
    ensures
        interface_rows(p, seed, slots, n).len() == n * slots.len(),
    decreases n,
{
    if n > 0 {
        lemma_interface_len(p, seed, slots, (n - 1) as nat);
        assert(n * slots.len() == (n - 1) * slots.len() + slots.len()) by (nonlinear_arith)
            requires
                n >= 1,
        ;
    } else {
        assert(0 * slots.len() == 0);
    }
}

/// The decode table is exact: entry `pc * slots.len() + t` is what any row with the grid's
/// seed in its static slots holds in slot `slots[t]` after decoding `pc`, so a table lookup
/// stands in for the decode ops whatever the row went through before.
pub proof fn law_table_is_exact(
    p: DeviceAluProgram,
    seed: Seq<u64>,
    slots: Seq<u32>,
    n: nat,
    pc: nat,
    t: int,
    row: Seq<u64>,
)
    requires
        p.wf(),
        p.decode_ordered(),
        p.broadcast_is(slots),
        seed.len() == p.n_slots,
        row.len() == p.n_slots,
        forall|s: int| 0 <= s < p.n_slots && p.is_static(s) ==> #[trigger] row[s] == seed[s],
        pc < n <= u64::MAX,
        0 <= t < slots.len(),
    ensures
        interface_rows(p, seed, slots, n)[(pc * slots.len() + t) as int] == decode_slots(
            p,
            pc as u64,
            row,
        )[slots[t] as int],
{
    lemma_interface_entry(p, seed, slots, n, pc, t);
    lemma_rows_keep_static(p, seed, pc);
    let before = row_after(p, seed, pc);
    assert forall|s: int| 0 <= s < p.n_slots && p.is_static(s) implies #[trigger] before[s]
        == row[s] by {
        assert(row[s] == seed[s]);
    }
    law_decode_is_pure(p, pc as u64, before, row);
    assert(slots.contains(slots[t]));
    p.lemma_interface_below(slots[t], slots);
    assert(p.is_interface(slots[t]));
    assert(p.decode_writes(slots[t] as int));
    assert(((pc + 1) - 1) as u64 == pc as u64);
}

/// A row seeded from a grid holds what the grid holds.
pub proof fn lemma_seed_represents(p: DeviceAluProgram, sim: Simulation)
    requires
        p.wf(),
        covers(sim, p),
    ensures
        represents(p, seed_row(p, sim), grid_store(sim)),
{
    let row = seed_row(p, sim);
    assert forall|s: int| 0 <= s < p.n_slots implies #[trigger] row[s] == grid_store(sim)(
        slot_name(p.touched@, p.zero(), s as u32),
    ) by {
        if s < p.touched@.len() {
            assert(p.touched@[s] < sim.len());
        }
    }
}

/// Building with and without dead-op elimination makes no difference to the ALU: seeded from
/// the same grid, both programs give the same result for every program counter and every
/// pair of operands.
pub proof fn law_built_programs_agree(
    plan: DeviceCyclePlan,
    full: DeviceAluProgram,
    lean: DeviceAluProgram,
    sim: Simulation,
    pc: u64,
    a: u64,
    b: u64,
)
    requires
        full.wf(),
        lean.wf(),
        full.program() == crate::device_alu::built_program(plan, false),
        lean.program() == crate::device_alu::built_program(plan, true),
        covers(sim, full),
        covers(sim, lean),
        all_known(plan.program().cone),
        all_known(plan.program().settle),
        all_known(plan.program().trunk),
    ensures
        alu_slots(lean, pc, a, b, seed_row(lean, sim)) == alu_slots(
            full,
            pc,
            a,
            b,
            seed_row(full, sim),
        ),
{
    let st = grid_store(sim);
    lemma_seed_represents(full, sim);
    lemma_seed_represents(lean, sim);
    law_slots_match_cells(full, pc, a, b, seed_row(full, sim), st);
    law_slots_match_cells(lean, pc, a, b, seed_row(lean, sim), st);
    assert(taps_shaped(plan.program().taps));
    law_pruning_is_exact(plan.program(), pc, a, b, st);
}

} // verus!
