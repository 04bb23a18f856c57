//! What is told of a run: traces, breakpoints, tick reports, summaries of pools and batches, lane
//! buffers; and what moving a state into the tiles leaves in them.
use vstd::prelude::*;

use crate::debug::{
    any_match, begun, events_of, first_match, matches_state, phase_after, ram_changes,
    reg_changes, TickPhase, V2DebugBreakpoint,
};
use crate::fast::{mixed, mixed_all, state_hash, with_ram};
use crate::lanes::{DeviceCycleState, LaneBuffers};
use crate::latch::{combined, work_fits, StageStats};
use crate::layout::V2CpuIndices;
use crate::pc_stage::{program_ext, with_pc};
use crate::pool::{
    capped_ns, folded, summary_of, totals_of, TileSimBatchJobResult, TileSimSnapshot,
};
use crate::simulation::Grid;
use crate::state::{ArchState, PipelineState};
use crate::writeback::with_regs;

verus! {

/// A trace lists a register exactly where the instruction changed it, with its new value, and the
/// registers in increasing order.
pub proof fn law_traces_list_the_changed_registers(
    before: Seq<u64>,
    after: Seq<u64>,
    n: nat,
    r: int,
    j: int,
)
    requires
        n <= 256,
        0 <= r < n,
    ensures
        before[r] != after[r] <==> exists|i: int|
            0 <= i < reg_changes(before, after, n).len() && (#[trigger] reg_changes(
                before,
                after,
                n,
            )[i]).reg == r,
        0 <= j < reg_changes(before, after, n).len() ==> {
            let e = reg_changes(before, after, n)[j];
            e.reg < n && before[e.reg as int] != after[e.reg as int] && e.value
                == after[e.reg as int]
        },
        0 < j < reg_changes(before, after, n).len() ==> reg_changes(before, after, n)[j - 1].reg
            < reg_changes(before, after, n)[j].reg,
    decreases n,
{
    let m = (n - 1) as nat;
    let earlier = reg_changes(before, after, m);
    let all = reg_changes(before, after, n);
    if m > 0 {
        let k = if r < m {
            r
        } else {
            0
        };
        law_traces_list_the_changed_registers(before, after, m, k, j);
        if j == earlier.len() && j > 0 {
            law_traces_list_the_changed_registers(before, after, m, 0, j - 1);
        }
        if r == m {
            assert forall|i: int| 0 <= i < earlier.len() implies (#[trigger] earlier[i]).reg
                != r by {
                law_traces_list_the_changed_registers(before, after, m, 0, i);
            }
        }
    }
    if before[m as int] != after[m as int] {
        assert(all == earlier.push(all.last()));
        assert(all[earlier.len() as int].reg == m);
        if r < m && before[r] != after[r] {
            let i = choose|i: int| 0 <= i < earlier.len() && (#[trigger] earlier[i]).reg == r;
            assert(all[i].reg == r);
        }
        if r < m && before[r] == after[r] {
            assert forall|i: int| 0 <= i < all.len() implies (#[trigger] all[i]).reg != r by {
                if i < earlier.len() {
                    assert(all[i] == earlier[i]);
                }
            }
        }
    }
}

/// A trace lists a scratchpad word exactly where the instruction changed it, with its new value.
pub proof fn law_traces_list_the_changed_words(
    before: Seq<u64>,
    after: Seq<u64>,
    n: nat,
    a: int,
    j: int,
)
    requires
        n <= 256,
        0 <= a < n,
    ensures
        before[a] != after[a] <==> exists|i: int|
            0 <= i < ram_changes(before, after, n).len() && (#[trigger] ram_changes(
                before,
                after,
                n,
            )[i]).addr == a,
        0 <= j < ram_changes(before, after, n).len() ==> {
            let e = ram_changes(before, after, n)[j];
            e.addr < n && before[e.addr as int] != after[e.addr as int] && e.value
                == after[e.addr as int]
        },
    decreases n,
{
    let m = (n - 1) as nat;
    let earlier = ram_changes(before, after, m);
    let all = ram_changes(before, after, n);
    if m > 0 {
        let k = if a < m {
            a
        } else {
            0
        };
        law_traces_list_the_changed_words(before, after, m, k, j);
        if a == m {
            assert forall|i: int| 0 <= i < earlier.len() implies (#[trigger] earlier[i]).addr
                != a by {
                law_traces_list_the_changed_words(before, after, m, 0, i);
            }
        }
    }
    if before[m as int] != after[m as int] {
        assert(all == earlier.push(all.last()));
        assert(all[earlier.len() as int].addr == m);
        if a < m && before[a] != after[a] {
            let i = choose|i: int| 0 <= i < earlier.len() && (#[trigger] earlier[i]).addr == a;
            assert(all[i].addr == a);
        }
        if a < m && before[a] == after[a] {
            assert forall|i: int| 0 <= i < all.len() implies (#[trigger] all[i]).addr != a by {
                if i < earlier.len() {
                    assert(all[i] == earlier[i]);
                }
            }
        }
    }
}

/// A trace tells the device accesses as they were logged, in order.
pub proof fn law_traces_tell_the_device_accesses(log: Seq<(u8, u64)>, i: int)
    requires
        0 <= i < log.len(),
    ensures
        events_of(log).len() == log.len(),
        events_of(log)[i].addr == log[i].0,
        events_of(log)[i].value == log[i].1,
{
}

/// When a breakpoint matches: at an address of which the low seven bits count, at a register's
/// value, at a halt. The first one that does is the one that every earlier one does not.
pub proof fn law_when_breakpoints_match(
    arch: ArchState,
    target: u8,
    reg: usize,
    value: u64,
    bps: Seq<V2DebugBreakpoint>,
    i: int,
    k: int,
)
    requires
        0 <= k < bps.len(),
    ensures
        matches_state(arch, V2DebugBreakpoint::Pc(target)) <==> arch.pc == target as int % 128,
        reg < 16 ==> (matches_state(arch, V2DebugBreakpoint::RegEquals { reg, value })
            <==> arch.regs@[reg as int] == value),
        reg >= 16 ==> !matches_state(arch, V2DebugBreakpoint::RegEquals { reg, value }),
        matches_state(arch, V2DebugBreakpoint::Halted) <==> arch.halted,
        first_match(arch, bps, i) && k < i ==> !matches_state(arch, bps[k]),
        first_match(arch, bps, i) ==> 0 <= i < bps.len() && matches_state(arch, bps[i]),
        !any_match(arch, bps) ==> !matches_state(arch, bps[k]),
{
}

/// The order of a tick: stage X where an instruction is latched, then stage F unless the CPU is
/// halted, then the end. An empty latch notes that no register changed.
pub proof fn law_order_of_a_tick(halted: bool, latched: bool, p: PipelineState)
    ensures
        latched ==> phase_after(halted, latched, TickPhase::Begun) is StageX,
        !latched && !halted ==> phase_after(halted, latched, TickPhase::Begun) is StageF,
        !latched && halted ==> phase_after(halted, latched, TickPhase::Begun) is Ended,
        !halted ==> phase_after(halted, latched, TickPhase::StageX) is StageF,
        halted ==> phase_after(halted, latched, TickPhase::StageX) is Ended,
        phase_after(halted, latched, TickPhase::StageF) is Ended,
        !p.latch.valid ==> begun(p).changed_regs_mask == 0,
        p.latch.valid ==> begun(p).changed_regs_mask == p.changed_regs_mask,
        begun(p).latch == p.latch,
{
}

/// A tick's critical path is the longer of its stages' combinational paths; its other work is the
/// sum of the stages' work, and it converged where both did.
pub proof fn law_reports_add_up(f: StageStats, x: StageStats)
    requires
        work_fits(f, x),
    ensures
        combined(f, x).critical_path_deltas >= f.comb_deltas,
        combined(f, x).critical_path_deltas >= x.comb_deltas,
        combined(f, x).critical_path_deltas == f.comb_deltas || combined(f, x).critical_path_deltas
            == x.comb_deltas,
        combined(f, x).total_deltas == f.comb_deltas + x.comb_deltas + x.clock_deltas,
        combined(f, x).tiles_evaluated == f.comb_eval + x.comb_eval + x.clock_eval,
        combined(f, x).tiles_switched == f.comb_switched + x.comb_switched + x.clock_switched,
        combined(f, x).glitches_detected == x.glitches,
        combined(f, x).converged == (f.converged && x.converged),
{
}

proof fn lemma_summary_of_more(
    snaps: Seq<Option<TileSimSnapshot>>,
    w: Option<TileSimSnapshot>,
    n: nat,
)
    requires
        n <= snaps.len() < usize::MAX,
    ensures
        summary_of(snaps.push(w), n).ready_workers == summary_of(snaps, n).ready_workers,
        summary_of(snaps.push(w), n).halted_workers == summary_of(snaps, n).halted_workers,
        summary_of(snaps.push(w), n).total_cycles == summary_of(snaps, n).total_cycles,
        summary_of(snaps.push(w), n).total_retired == summary_of(snaps, n).total_retired,
        summary_of(snaps.push(w), n).combined_hash == summary_of(snaps, n).combined_hash,
        summary_of(snaps.push(w), n).workers == snaps.len() + 1,
        summary_of(snaps, n).workers == snaps.len(),
        summary_of(snaps, n).ready_workers <= n,
        summary_of(snaps, n).halted_workers <= n,
    decreases n,
{
    if n > 0 {
        lemma_summary_of_more(snaps, w, (n - 1) as nat);
        assert(snaps.push(w)[n - 1] == snaps[n - 1]);
    }
}

/// A pool without workers has nothing to tell. One worker more counts as a worker; where it has
/// published a snapshot it counts as ready, as halted where its CPU is, and its cycles and
/// instructions are added, up to the largest number; its hash is folded in at its place.
pub proof fn law_summaries_add_up_workers(
    snaps: Seq<Option<TileSimSnapshot>>,
    w: TileSimSnapshot,
)
    requires
        snaps.len() < usize::MAX,
    ensures
        ({
            let none = summary_of(Seq::empty(), 0);
            &&& none.workers == 0
            &&& none.ready_workers == 0
            &&& none.halted_workers == 0
            &&& none.total_cycles == 0
            &&& none.total_retired == 0
            &&& none.combined_hash == 0xCBF2_9CE4_8422_2325
        }),
        ({
            let s = summary_of(snaps, snaps.len());
            let t = summary_of(snaps.push(Some(w)), snaps.len() + 1);
            &&& t.workers == s.workers + 1
            &&& t.ready_workers == s.ready_workers + 1
            &&& w.halted ==> t.halted_workers == s.halted_workers + 1
            &&& !w.halted ==> t.halted_workers == s.halted_workers
            &&& s.total_cycles + w.cycle_count <= u64::MAX ==> t.total_cycles == s.total_cycles
                + w.cycle_count
            &&& s.total_cycles + w.cycle_count > u64::MAX ==> t.total_cycles == u64::MAX
            &&& s.total_retired + w.retired_count <= u64::MAX ==> t.total_retired
                == s.total_retired + w.retired_count
            &&& s.total_retired + w.retired_count > u64::MAX ==> t.total_retired == u64::MAX
            &&& t.combined_hash == folded(s.combined_hash, w.hash, snaps.len() as int)
        }),
        ({
            let s = summary_of(snaps, snaps.len());
            let t = summary_of(snaps.push(None), snaps.len() + 1);
            &&& t.workers == s.workers + 1
            &&& t.ready_workers == s.ready_workers
            &&& t.halted_workers == s.halted_workers
            &&& t.total_cycles == s.total_cycles
            &&& t.total_retired == s.total_retired
            &&& t.combined_hash == s.combined_hash
        }),
{
    lemma_summary_of_more(snaps, Some(w), snaps.len());
    lemma_summary_of_more(snaps, None, snaps.len());
    assert(snaps.push(Some(w))[snaps.len() as int] == Some(w));
}

/// One job more adds its cycles, instructions and times to a batch's totals, up to the largest
/// number.
pub proof fn law_batches_add_up_jobs(jobs: Seq<TileSimBatchJobResult>, n: nat)
    requires
        n < jobs.len(),
    ensures
        ({
            let t = totals_of(jobs, n);
            let u = totals_of(jobs, n + 1);
            let j = jobs[n as int];
            &&& t.cycles + j.summary.total_cycles <= u64::MAX ==> u.cycles == t.cycles
                + j.summary.total_cycles
            &&& t.cycles + j.summary.total_cycles > u64::MAX ==> u.cycles == u64::MAX
            &&& t.retired + j.summary.total_retired <= u64::MAX ==> u.retired == t.retired
                + j.summary.total_retired
            &&& t.retired + j.summary.total_retired > u64::MAX ==> u.retired == u64::MAX
            &&& t.reset_ns + j.reset_ns <= u128::MAX ==> u.reset_ns == t.reset_ns + j.reset_ns
            &&& t.run_ns + j.run_ns <= u128::MAX ==> u.run_ns == t.run_ns + j.run_ns
        }),
        totals_of(jobs, 0).cycles == 0,
        totals_of(jobs, 0).retired == 0,
        totals_of(jobs, 0).reset_ns == 0,
        totals_of(jobs, 0).run_ns == 0,
{
}

/// Times add up, to the largest at most.
pub proof fn law_times_add_up(a: u128, b: u128)
    ensures
        a + b <= u128::MAX ==> capped_ns(a as int, b as int) == a + b,
        a + b > u128::MAX ==> capped_ns(a as int, b as int) == u128::MAX,
{
}

/// In the lane buffers the same word of neighbouring lanes lies side by side, and the next word of
/// a lane lies as many entries further as there are lanes. Flags are zero or one.
pub proof fn law_lanes_lie_side_by_side(
    b: LaneBuffers,
    lanes: int,
    lane: int,
    s: DeviceCycleState,
    t: DeviceCycleState,
    r: int,
    a: int,
)
    requires
        b.holds(lanes, lane, s),
        b.holds(lanes, lane + 1, t),
        0 <= r < 16,
        0 <= a < s.ram@.len(),
        a < t.ram@.len(),
    ensures
        b.regs@[r * lanes + lane] == s.regs@[r],
        b.regs@[r * lanes + lane + 1] == t.regs@[r],
        b.ram@[a * lanes + lane] == s.ram@[a],
        b.ram@[a * lanes + lane + 1] == t.ram@[a],
        b.pc@[lane] == s.pc,
        b.lr@[lane] == s.lr,
        b.retired@[lane] == s.retired,
        s.flag_z ==> b.flag_z@[lane] == 1,
        !s.flag_z ==> b.flag_z@[lane] == 0,
        s.flag_c ==> b.flag_c@[lane] == 1,
        !s.flag_c ==> b.flag_c@[lane] == 0,
        s.halted ==> b.halted@[lane] == 1,
        !s.halted ==> b.halted@[lane] == 0,
{
    assert(b.regs@[r * lanes + lane] == s.regs@[r]);
    assert(b.regs@[r * lanes + (lane + 1)] == t.regs@[r]);
    assert(b.ram@[a * lanes + lane] == s.ram@[a]);
    assert(b.ram@[a * lanes + (lane + 1)] == t.ram@[a]);
}

/// Above the tiles' program a halt is turned into one that names its own address, of which the low
/// byte is patched in; every other word is fetched as it is.
pub proof fn law_halts_name_themselves(program: Seq<u32>, i: int)
    requires
        0 <= i,
        128 + i < program.len() <= 256,
    ensures
        program_ext(program, 0xFF).len() == program.len() - 128,
        (program[128 + i] as int / 2048) % 32 == 1 ==> {
            &&& program_ext(program, 0xFF)[i] as int / 256 == program[128 + i] as int / 256
            &&& program_ext(program, 0xFF)[i] as int % 256 == 128 + i
        },
        (program[128 + i] as int / 2048) % 32 != 1 ==> program_ext(program, 0xFF)[i] == program[128
            + i],
{
    let w = program[128 + i];
    let addr = (128 + i) as u32;
    assert((((w / 256) * 256) as u32 | (addr & 0xFF)) / 256 == w / 256 && (((w / 256) * 256) as u32
        | (addr & 0xFF)) % 256 == addr) by (bit_vector)
        requires
            addr < 256,
    ;
}

/// Moving the program counter into the tiles puts it into its own tile, the one that feeds it and
/// the one between them.
pub proof fn law_program_counter_moves_into_three_tiles(idx: V2CpuIndices, v: u32, g: Grid, t: int)
    requires
        idx.pc_idx < g.values.len(),
        idx.pc_next_mux_idx < g.values.len(),
        idx.pc_ingress_idx < g.values.len(),
        0 <= t < g.values.len(),
    ensures
        with_pc(idx, v, g).values[idx.pc_idx as int] == v,
        with_pc(idx, v, g).values[idx.pc_next_mux_idx as int] == v,
        with_pc(idx, v, g).values[idx.pc_ingress_idx as int] == v,
        t != idx.pc_idx && t != idx.pc_next_mux_idx && t != idx.pc_ingress_idx ==> with_pc(
            idx,
            v,
            g,
        ).values[t] == g.values[t],
{
}

/// Moving the scratchpad into the tiles leaves each word in its own tile, where those are different.
pub proof fn law_words_move_into_their_tiles(
    idx: V2CpuIndices,
    ram: Seq<u64>,
    n: nat,
    g: Grid,
    a: int,
)
    requires
        n <= 128,
        0 <= a < n,
        forall|i: int| 0 <= i < 128 ==> #[trigger] idx.ram_indices@[i] < g.values.len(),
        forall|i: int, j: int|
            0 <= i < j < 128 ==> #[trigger] idx.ram_indices@[i] != #[trigger] idx.ram_indices@[j],
    ensures
        with_ram(idx, ram, n, g).values.len() == g.values.len(),
        with_ram(idx, ram, n, g).values[idx.ram_indices@[a] as int] == ram[a],
    decreases n,
{
    lemma_ram_len(idx, ram, (n - 1) as nat, g);
    assert(idx.ram_indices@[n - 1] < g.values.len());
    if a < n - 1 {
        law_words_move_into_their_tiles(idx, ram, (n - 1) as nat, g, a);
        assert(idx.ram_indices@[a] != idx.ram_indices@[n - 1]);
    }
}

proof fn lemma_ram_len(idx: V2CpuIndices, ram: Seq<u64>, n: nat, g: Grid)
    requires
        n <= 128,
        forall|i: int| 0 <= i < 128 ==> #[trigger] idx.ram_indices@[i] < g.values.len(),
    ensures
        with_ram(idx, ram, n, g).values.len() == g.values.len(),
    decreases n,
{
    if n > 0 {
        lemma_ram_len(idx, ram, (n - 1) as nat, g);
        assert(idx.ram_indices@[n - 1] < g.values.len());
    }
}

/// Moving the registers into the tiles leaves each register in its own tile, where those are
/// different.
pub proof fn law_registers_move_into_their_tiles(
    idx: V2CpuIndices,
    regs: Seq<u64>,
    n: nat,
    g: Grid,
    r: int,
)
    requires
        n <= 16,
        0 <= r < n,
        forall|i: int| 0 <= i < 16 ==> #[trigger] idx.reg_indices@[i] < g.values.len(),
        forall|i: int, j: int|
            0 <= i < j < 16 ==> #[trigger] idx.reg_indices@[i] != #[trigger] idx.reg_indices@[j],
    ensures
        with_regs(idx, regs, n, g).values.len() == g.values.len(),
        with_regs(idx, regs, n, g).values[idx.reg_indices@[r] as int] == regs[r],
    decreases n,
{
    lemma_regs_len(idx, regs, (n - 1) as nat, g);
    assert(idx.reg_indices@[n - 1] < g.values.len());
    if r < n - 1 {
        law_registers_move_into_their_tiles(idx, regs, (n - 1) as nat, g, r);
        assert(idx.reg_indices@[r] != idx.reg_indices@[n - 1]);
    }
}

proof fn lemma_regs_len(idx: V2CpuIndices, regs: Seq<u64>, n: nat, g: Grid)
    requires
        n <= 16,
        forall|i: int| 0 <= i < 16 ==> #[trigger] idx.reg_indices@[i] < g.values.len(),
    ensures
        with_regs(idx, regs, n, g).values.len() == g.values.len(),
    decreases n,
{
    if n > 0 {
        lemma_regs_len(idx, regs, (n - 1) as nat, g);
        assert(idx.reg_indices@[n - 1] < g.values.len());
    }
}

/// A state's hash takes in the program counter, the link register, the zero flag, the carry, the
/// halt, the registers and the scratchpad, in this order. A word is multiplied by an odd number,
/// laid over the hash so far, and the whole turned by 27 bits and multiplied by another.
pub proof fn law_state_hash_takes_in_word_by_word(
    pc: u32,
    lr: u32,
    z: bool,
    c: bool,
    halted: bool,
    regs: Seq<u64>,
    ram: Seq<u64>,
    acc: u64,
    v: u64,
    n: nat,
)
    ensures
        mixed_all(acc, regs, 0) == acc,
        mixed_all(acc, regs, n + 1) == mixed(mixed_all(acc, regs, n), regs[n as int]),
        state_hash(pc, lr, z, c, halted, regs, ram) == mixed_all(
            mixed_all(
                mixed(
                    mixed(
                        mixed(
                            mixed(mixed(0xCBF2_9CE4_8422_2325, pc as u64), lr as u64),
                            if z {
                                1
                            } else {
                                0
                            },
                        ),
                        if c {
                            1
                        } else {
                            0
                        },
                    ),
                    if halted {
                        1
                    } else {
                        0
                    },
                ),
                regs,
                16,
            ),
            ram,
            128,
        ),
        ({
            let x = acc ^ ((v * 0x9E37_79B9_7F4A_7C15) % 0x1_0000_0000_0000_0000) as u64;
            mixed(acc, v) == ((((x << 27u64) | (x >> 37u64)) * 0x94D0_49BB_1331_11EB)
                % 0x1_0000_0000_0000_0000) as u64
        }),
{
}

/// How a worker's hash is folded into its pool's: turned left by its place among 63 and one, laid
/// over the hash so far, and multiplied by a prime.
pub proof fn law_hashes_are_folded_by_place(acc: u64, hash: u64, i: int, k: u64)
    requires
        i >= 0,
        k == i % 63 + 1,
    ensures
        folded(acc, hash, i) == ((acc ^ ((hash << k) | (hash >> ((64 - k) as u64)))) * 1099511628211)
            % 0x1_0000_0000_0000_0000,
{
}

} // verus!
