//! Pools of independent CPUs: what a worker does with a dispatch, and how results are combined.
use vstd::prelude::*;

use crate::cpu::TileCpuV2;
use crate::fast::{hash_arch, state_hash, taken_from, V2FastCpu};
use crate::iss::{model_of, V2IssState};
use crate::latch::V2HybridAssistCounters;
use crate::simulation::Simulation;

verus! {

/// Tick a CPU up to `max_cycles` times, until it halts.
pub fn run_ticks(cpu: &mut V2FastCpu, max_cycles: u64)
    requires
        old(cpu).wf(),
        old(cpu).cycle_count + max_cycles <= u64::MAX,
        old(cpu).retired_count + max_cycles <= u64::MAX,
    ensures
        final(cpu)@ == old(cpu)@.ticks(max_cycles as nat),
        final(cpu).wf(),
{
    let mut i: u64 = 0;
    while i < max_cycles && !cpu.is_halted()
        invariant
            i <= max_cycles,
            cpu.wf(),
            cpu.cycle_count <= old(cpu).cycle_count + i,
            cpu.retired_count <= old(cpu).retired_count + i,
            old(cpu).cycle_count + max_cycles <= u64::MAX,
            old(cpu).retired_count + max_cycles <= u64::MAX,
            cpu@.ticks((max_cycles - i) as nat) == old(cpu)@.ticks(max_cycles as nat),
        decreases max_cycles - i,
    {
        let _r: crate::fast::V2FastTickResult = cpu.tick();
        i = i + 1;
    }
}

/// The state of a tile CPU that a worker publishes.
#[derive(Debug, Clone)]
pub struct TileSimSnapshot {
    pub pc: u32,
    pub lr: u32,
    pub flag_z: bool,
    pub flag_c: bool,
    pub halted: bool,
    pub cycle_count: u64,
    pub retired_count: u64,
    pub hash: u64,
    pub hybrid: V2HybridAssistCounters,
    pub regs: [u64; 16],
    pub ram: [u64; 128],
}

impl TileSimSnapshot {
    /// The architectural state with its hash, the cycle counts and the assist counters.
    pub fn capture(cpu: &TileCpuV2, sim: &Simulation) -> (s: Self)
        ensures
            s.pc == cpu.arch.pc,
            s.lr == cpu.arch.lr,
            s.flag_z == cpu.arch.flag_z,
            s.flag_c == cpu.arch.flag_c,
            s.halted == cpu.arch.halted,
            s.cycle_count == cpu.pipe.cycle_count,
            s.retired_count == cpu.pipe.retired_count,
            s.hash == state_hash(
                cpu.arch.pc,
                cpu.arch.lr,
                cpu.arch.flag_z,
                cpu.arch.flag_c,
                cpu.arch.halted,
                cpu.arch.regs@,
                cpu.mem.ram@,
            ),
            s.hybrid == cpu.hybrid,
            s.regs == cpu.arch.regs,
            s.ram == cpu.mem.ram,
    {
        TileSimSnapshot {
            pc: cpu.read_pc(sim),
            lr: cpu.read_lr(),
            flag_z: cpu.read_flag_z(sim),
            flag_c: cpu.read_flag_c(sim),
            halted: cpu.is_halted(),
            cycle_count: cpu.read_cycle_count(),
            retired_count: cpu.read_retired_count(),
            hash: hash_arch(
                cpu.read_pc(sim),
                cpu.read_lr(),
                cpu.read_flag_z(sim),
                cpu.read_flag_c(sim),
                cpu.is_halted(),
                &cpu.arch.regs,
                &cpu.mem.ram,
            ),
            hybrid: cpu.read_hybrid_assist_counters(),
            regs: cpu.arch.regs,
            ram: cpu.mem.ram,
        }
    }
}

/// A tile CPU and a simulator in the same state have the same hash.
pub proof fn law_equal_states_hash_alike(cpu: TileCpuV2, s: V2IssState)
    requires
        taken_from(cpu) == model_of(s, None),
    ensures
        state_hash(
            cpu.arch.pc,
            cpu.arch.lr,
            cpu.arch.flag_z,
            cpu.arch.flag_c,
            cpu.arch.halted,
            cpu.arch.regs@,
            cpu.mem.ram@,
        ) == state_hash(s.pc, s.lr, s.flag_z, s.flag_c, s.halted, s.regs@, s.mem.ram@),
{
}

/// The program and the memory sizes of one worker.
#[derive(Debug, Clone, Copy)]
pub struct TileSimProgramSpec<'a> {
    pub program: &'a [u32],
    pub rom_size: usize,
    pub ram_size: usize,
}

/// The same program for each of `n` workers, with the default memory sizes.
pub fn uniform_specs<'a>(program: &'a [u32], n: usize) -> (r: Vec<TileSimProgramSpec<'a>>)
    ensures
        r@ == Seq::new(
            n as nat,
            |i: int| TileSimProgramSpec { program, rom_size: 128, ram_size: 128 },
        ),
{
    let mut r: Vec<TileSimProgramSpec<'a>> = Vec::new();
    let mut i: usize = 0;
    while i < n
        invariant
            i <= n,
            r@.len() == i,
            forall|k: int|
                0 <= k < i ==> #[trigger] r@[k] == (TileSimProgramSpec {
                    program,
                    rom_size: 128,
                    ram_size: 128,
                }),
        decreases n - i,
    {
        r.push(TileSimProgramSpec { program, rom_size: 128, ram_size: 128 });
        i = i + 1;
    }
    r
}

/// What the workers of a pool published, taken together.
#[derive(Debug, Clone, Copy, Default, PartialEq, Eq, Structural)]
pub struct TileSimPoolSummary {
    pub workers: usize,
    pub ready_workers: usize,
    pub halted_workers: usize,
    pub total_cycles: u64,
    pub total_retired: u64,
    pub combined_hash: u64,
}

/// A sum that stops at the largest word.
pub open spec fn capped(a: int, b: int) -> u64 {
    if a + b > u64::MAX {
        u64::MAX
    } else {
        (a + b) as u64
    }
}

/// A time that stops at the largest one.
pub open spec fn capped_ns(a: int, b: int) -> u128 {
    if a + b > u128::MAX {
        u128::MAX
    } else {
        (a + b) as u128
    }
}

/// A combined hash with the `i`th one folded in, at its own rotation.
pub open spec fn folded(acc: u64, hash: u64, i: int) -> u64 {
    let k = ((i % 63) + 1) as u64;
    let turned = (hash << k) | (hash >> ((64 - k) as u64));
    (acc ^ turned).wrapping_mul(0x100_0000_01B3)
}

fn fold_hash(acc: u64, hash: u64, i: usize) -> (h: u64)
    ensures
        h == folded(acc, hash, i as int),
{
    let k: u64 = (i % 63) as u64 + 1;
    let turned: u64 = (hash << k) | (hash >> (64 - k));
    (acc ^ turned).wrapping_mul(0x100_0000_01B3)
}

/// The summary of the first `n` of a pool's snapshots.
pub open spec fn summary_of(snaps: Seq<Option<TileSimSnapshot>>, n: nat) -> TileSimPoolSummary
    decreases n,
{
    if n == 0 {
        TileSimPoolSummary {
            workers: snaps.len() as usize,
            ready_workers: 0,
            halted_workers: 0,
            total_cycles: 0,
            total_retired: 0,
            combined_hash: 0xCBF2_9CE4_8422_2325,
        }
    } else {
        let s = summary_of(snaps, (n - 1) as nat);
        match snaps[n - 1] {
            Some(w) => TileSimPoolSummary {
                workers: s.workers,
                ready_workers: (s.ready_workers + 1) as usize,
                halted_workers: (s.halted_workers + if w.halted {
                    1int
                } else {
                    0int
                }) as usize,
                total_cycles: capped(s.total_cycles as int, w.cycle_count as int),
                total_retired: capped(s.total_retired as int, w.retired_count as int),
                combined_hash: folded(s.combined_hash, w.hash, n - 1),
            },
            None => s,
        }
    }
}

/// Every worker published a halted CPU.
pub open spec fn published_halted(snaps: Seq<Option<TileSimSnapshot>>) -> bool {
    forall|i: int|
        0 <= i < snaps.len() ==> (#[trigger] snaps[i] matches Some(s) && s.halted)
}

/// A summary is ready when every worker published a snapshot, and halted when there is a worker
/// and every one published a halted CPU.
pub proof fn law_summary_counts_workers(snaps: Seq<Option<TileSimSnapshot>>)
    requires
        snaps.len() <= usize::MAX,
    ensures
        summary_of(snaps, snaps.len()).ready() <==> (forall|i: int|
            0 <= i < snaps.len() ==> (#[trigger] snaps[i]) is Some),
        summary_of(snaps, snaps.len()).halted() <==> snaps.len() > 0 && published_halted(snaps),
{
    lemma_summary_prefix(snaps, snaps.len());
}

proof fn lemma_summary_prefix(snaps: Seq<Option<TileSimSnapshot>>, n: nat)
    requires
        n <= snaps.len() <= usize::MAX,
    ensures
        summary_of(snaps, n).workers == snaps.len(),
        summary_of(snaps, n).halted_workers <= summary_of(snaps, n).ready_workers <= n,
        summary_of(snaps, n).ready_workers == n <==> (forall|i: int|
            0 <= i < n ==> (#[trigger] snaps[i]) is Some),
        summary_of(snaps, n).halted_workers == n <==> (forall|i: int|
            0 <= i < n ==> (#[trigger] snaps[i] matches Some(s) && s.halted)),
    decreases n,
{
    if n > 0 {
        let m = (n - 1) as nat;
        lemma_summary_prefix(snaps, m);
        let all = forall|i: int| 0 <= i < n ==> (#[trigger] snaps[i]) is Some;
        if all {
            assert(snaps[n - 1] is Some);
        }
        let stopped = forall|i: int|
            0 <= i < n ==> (#[trigger] snaps[i] matches Some(s) && s.halted);
        if stopped {
            assert(snaps[n - 1] matches Some(s) && s.halted);
        }
    }
}

impl TileSimPoolSummary {
    pub open spec fn ready(self) -> bool {
        self.ready_workers == self.workers
    }

    pub open spec fn halted(self) -> bool {
        self.workers > 0 && self.halted_workers == self.workers
    }

    /// Every worker published a snapshot.
    pub fn all_ready(&self) -> (b: bool)
        ensures
            b == self.ready(),
    {
        self.ready_workers == self.workers
    }

    /// Every worker of a pool that has one halted.
    pub fn all_halted(&self) -> (b: bool)
        ensures
            b == self.halted(),
    {
        self.workers > 0 && self.halted_workers == self.workers
    }
}

/// The summary of a pool's snapshots, in the order of the workers.
pub fn summarize(snaps: &Vec<Option<TileSimSnapshot>>) -> (s: TileSimPoolSummary)
    ensures
        s == summary_of(snaps@, snaps@.len()),
{
    let mut s: TileSimPoolSummary = TileSimPoolSummary {
        workers: snaps.len(),
        ready_workers: 0,
        halted_workers: 0,
        total_cycles: 0,
        total_retired: 0,
        combined_hash: 0xCBF2_9CE4_8422_2325,
    };
    let mut i: usize = 0;
    while i < snaps.len()
        invariant
            i <= snaps@.len(),
            s == summary_of(snaps@, i as nat),
        decreases snaps@.len() - i,
    {
        proof {
            lemma_summary_prefix(snaps@, i as nat);
        }
        match &snaps[i] {
            Some(w) => {
                s = TileSimPoolSummary {
                    workers: s.workers,
                    ready_workers: s.ready_workers + 1,
                    halted_workers: s.halted_workers + if w.halted {
                        1
                    } else {
                        0
                    },
                    total_cycles: s.total_cycles.saturating_add(w.cycle_count),
                    total_retired: s.total_retired.saturating_add(w.retired_count),
                    combined_hash: fold_hash(s.combined_hash, w.hash, i),
                };
            },
            None => {},
        }
        i = i + 1;
    }
    s
}

/// Every worker published a halted CPU.
pub fn all_published_halted(snaps: &Vec<Option<TileSimSnapshot>>) -> (b: bool)
    ensures
        b == published_halted(snaps@),
{
    let mut i: usize = 0;
    while i < snaps.len()
        invariant
            i <= snaps@.len(),
            forall|k: int| 0 <= k < i ==> (#[trigger] snaps@[k] matches Some(s) && s.halted),
        decreases snaps@.len() - i,
    {
        let ok: bool = match &snaps[i] {
            Some(s) => s.halted,
            None => false,
        };
        if !ok {
            return false;
        }
        i = i + 1;
    }
    true
}

/// One job of a batch.
#[derive(Debug, Clone, Copy)]
pub struct TileSimBatchJobSpec<'spec, 'program> {
    pub specs: &'spec [TileSimProgramSpec<'program>],
    pub max_cycles: u64,
}

/// What one job of a batch gave.
#[derive(Debug, Clone)]
pub struct TileSimBatchJobResult {
    pub job_index: usize,
    pub max_cycles: u64,
    pub reset_ns: u128,
    pub run_ns: u128,
    pub reset_summary: TileSimPoolSummary,
    pub summary: TileSimPoolSummary,
    pub snapshots: Vec<Option<TileSimSnapshot>>,
}

impl TileSimBatchJobResult {
    /// Reset and run together.
    pub fn wall_ns(&self) -> (t: u128)
        ensures
            t == capped_ns(self.reset_ns as int, self.run_ns as int),
    {
        self.reset_ns.saturating_add(self.run_ns)
    }
}

/// What a batch gave.
#[derive(Debug, Clone, Default)]
pub struct TileSimBatchReport {
    pub workers: usize,
    pub jobs: Vec<TileSimBatchJobResult>,
    pub total_cycles: u64,
    pub total_retired: u64,
    pub total_reset_ns: u128,
    pub total_run_ns: u128,
    pub combined_hash: u64,
}

/// The totals over the first `n` jobs of a batch.
#[verifier::ext_equal]
pub struct BatchTotals {
    pub cycles: u64,
    pub retired: u64,
    pub reset_ns: u128,
    pub run_ns: u128,
    pub hash: u64,
}

pub open spec fn totals_of(jobs: Seq<TileSimBatchJobResult>, n: nat) -> BatchTotals
    decreases n,
{
    if n == 0 {
        BatchTotals {
            cycles: 0,
            retired: 0,
            reset_ns: 0,
            run_ns: 0,
            hash: 0xCBF2_9CE4_8422_2325,
        }
    } else {
        let t = totals_of(jobs, (n - 1) as nat);
        let j = jobs[n - 1];
        BatchTotals {
            cycles: capped(t.cycles as int, j.summary.total_cycles as int),
            retired: capped(t.retired as int, j.summary.total_retired as int),
            reset_ns: capped_ns(t.reset_ns as int, j.reset_ns as int),
            run_ns: capped_ns(t.run_ns as int, j.run_ns as int),
            hash: folded(t.hash, j.summary.combined_hash, n - 1),
        }
    }
}

proof fn lemma_totals_of_prefix(
    a: Seq<TileSimBatchJobResult>,
    b: Seq<TileSimBatchJobResult>,
    n: nat,
)
    requires
        n <= a.len(),
        n <= b.len(),
        forall|i: int| 0 <= i < n ==> a[i] == b[i],
    ensures
        totals_of(a, n) == totals_of(b, n),
    decreases n,
{
    if n > 0 {
        lemma_totals_of_prefix(a, b, (n - 1) as nat);
    }
}

impl TileSimBatchReport {
    /// The totals are those of the jobs.
    pub open spec fn wf(self) -> bool {
        let t = totals_of(self.jobs@, self.jobs@.len());
        &&& self.total_cycles == t.cycles
        &&& self.total_retired == t.retired
        &&& self.total_reset_ns == t.reset_ns
        &&& self.total_run_ns == t.run_ns
        &&& self.combined_hash == t.hash
    }

    /// The report of a batch before its first job.
    pub fn start(workers: usize) -> (r: Self)
        ensures
            r.wf(),
            r.workers == workers,
            r.jobs@.len() == 0,
    {
        TileSimBatchReport {
            workers,
            jobs: Vec::new(),
            total_cycles: 0,
            total_retired: 0,
            total_reset_ns: 0,
            total_run_ns: 0,
            combined_hash: 0xCBF2_9CE4_8422_2325,
        }
    }

    /// Add the next job, made of what the pool published before and after it and of the time
    /// that both steps took.
    pub fn add_job(
        &mut self,
        max_cycles: u64,
        reset_ns: u128,
        run_ns: u128,
        reset_summary: TileSimPoolSummary,
        summary: TileSimPoolSummary,
        snapshots: Vec<Option<TileSimSnapshot>>,
    )
        requires
            old(self).wf(),
        ensures
            final(self).wf(),
            final(self).workers == old(self).workers,
            final(self).jobs@ == old(self).jobs@.push(
                (TileSimBatchJobResult {
                    job_index: old(self).jobs@.len() as usize,
                    max_cycles,
                    reset_ns,
                    run_ns,
                    reset_summary,
                    summary,
                    snapshots,
                }),
            ),
    {
        let job_index: usize = self.jobs.len();
        self.total_cycles = self.total_cycles.saturating_add(summary.total_cycles);
        self.total_retired = self.total_retired.saturating_add(summary.total_retired);
        self.total_reset_ns = self.total_reset_ns.saturating_add(reset_ns);
        self.total_run_ns = self.total_run_ns.saturating_add(run_ns);
        self.combined_hash = fold_hash(self.combined_hash, summary.combined_hash, job_index);
        self.jobs.push(
            TileSimBatchJobResult {
                job_index,
                max_cycles,
                reset_ns,
                run_ns,
                reset_summary,
                summary,
                snapshots,
            },
        );
        proof {
            lemma_totals_of_prefix(old(self).jobs@, self.jobs@, job_index as nat);
        }
    }

    /// There is a job, and before each one every worker was ready.
    pub fn all_ready(&self) -> (b: bool)
        ensures
            b == (self.jobs@.len() > 0 && forall|i: int|
                0 <= i < self.jobs@.len() ==> (#[trigger] self.jobs@[i]).reset_summary.ready()),
    {
        let mut i: usize = 0;
        while i < self.jobs.len()
            invariant
                i <= self.jobs@.len(),
                forall|k: int| 0 <= k < i ==> (#[trigger] self.jobs@[k]).reset_summary.ready(),
            decreases self.jobs@.len() - i,
        {
            if !self.jobs[i].reset_summary.all_ready() {
                assert(!self.jobs@[i as int].reset_summary.ready());
                return false;
            }
            i = i + 1;
        }
        self.jobs.len() > 0
    }

    /// There is a job, and after each one every worker was halted.
    pub fn all_halted(&self) -> (b: bool)
        ensures
            b == (self.jobs@.len() > 0 && forall|i: int|
                0 <= i < self.jobs@.len() ==> (#[trigger] self.jobs@[i]).summary.halted()),
    {
        let mut i: usize = 0;
        while i < self.jobs.len()
            invariant
                i <= self.jobs@.len(),
                forall|k: int| 0 <= k < i ==> (#[trigger] self.jobs@[k]).summary.halted(),
            decreases self.jobs@.len() - i,
        {
            if !self.jobs[i].summary.all_halted() {
                assert(!self.jobs@[i as int].summary.halted());
                return false;
            }
            i = i + 1;
        }
        self.jobs.len() > 0
    }

    /// Reset and run together, over all jobs.
    pub fn wall_ns(&self) -> (t: u128)
        ensures
            t == capped_ns(self.total_reset_ns as int, self.total_run_ns as int),
    {
        self.total_reset_ns.saturating_add(self.total_run_ns)
    }
}

} // verus!
