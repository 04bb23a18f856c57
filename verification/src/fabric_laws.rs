//! What holds of linked CPUs over whole runs, and that worker threads do the same.
use vstd::prelude::*;

use crate::alu::is_store;
use crate::fabric::{
    delivered, epoch, epoch_ticks, epochs, halted_all, law_parallel_is_sequential,
    mailboxes_synced, received, received_by, receiving, routed, sends_cleared, sent, sent_by, unsent,
    worker_epochs, V2FastFabricTopology,
};
use crate::fast::{in_send, out_send, run_count, FastModel};
use crate::fast_laws::law_batch_stops_at_its_limit_or_a_halt;
use crate::instruction_laws::law_what_a_step_leaves_alone;
use crate::iss::{access_at, latch_of, quiet_ports, stepped, steps, word_at, IssModel};
use crate::memory::is_pow2;
use crate::memory_laws::law_device_addresses;

verus! {

/// After a run of epochs of at least one cycle each, every CPU has run for all the cycles given or
/// is halted. One that was halted has run for none.
pub proof fn law_epochs_run_to_the_limit_or_a_halt(
    topology: V2FastFabricTopology,
    cpus: Seq<FastModel>,
    max: nat,
    size: nat,
    i: int,
)
    requires
        0 <= i < cpus.len(),
    ensures
        epochs(topology, cpus, max, size).len() == cpus.len(),
        size == 0 ==> epochs(topology, cpus, max, size) == cpus,
        ({
            let after = epochs(topology, cpus, max, size)[i];
            &&& cpus[i].cycles <= after.cycles <= cpus[i].cycles + max
            &&& cpus[i].halted ==> after.cycles == cpus[i].cycles && after.halted
            &&& size > 0 ==> after.halted || after.cycles == cpus[i].cycles + max
        }),
    decreases max,
{
    if max > 0 && size > 0 && !halted_all(cpus) {
        let t = epoch_ticks(max, size);
        let next = epoch(topology, cpus, t);
        let ready = sends_cleared(mailboxes_synced(topology, cpus))[i];
        assert(next[i] == ready.batch(t));
        law_batch_stops_at_its_limit_or_a_halt(ready, t);
        law_epochs_run_to_the_limit_or_a_halt(topology, next, (max - t) as nat, size, i);
    } else if halted_all(cpus) {
        assert(cpus[i].halted);
    }
}

/// The next instruction of a simulator sends to a neighbour: it stores to one of the two mailbox
/// addresses.
pub open spec fn about_to_send(m: IssModel, program: Seq<u32>) -> bool {
    let l = latch_of(word_at(program, m.pc), m.pc, m.regs);
    &&& !m.halted
    &&& is_store(l.opcode)
    &&& access_at(m, l) == 60 || access_at(m, l) == 61
}

/// None of the first `n` steps sends to a neighbour.
pub open spec fn sends_nothing(m: IssModel, program: Seq<u32>, mask: u32, n: nat) -> bool {
    forall|k: nat| k < n ==> !about_to_send(#[trigger] steps(m, program, mask, k), program)
}

proof fn lemma_steps_keep_sends(m: IssModel, program: Seq<u32>, mask: u32, n: nat)
    requires
        sends_nothing(m, program, mask, n),
    ensures
        in_send(steps(m, program, mask, n)) == in_send(m),
        out_send(steps(m, program, mask, n)) == out_send(m),
    decreases n,
{
    if n > 0 {
        lemma_steps_keep_sends(m, program, mask, (n - 1) as nat);
        assert(!about_to_send(steps(m, program, mask, (n - 1) as nat), program));
    }
}

/// A CPU that sends nothing in an epoch has nothing sent after it, whatever it sent before: what
/// is sent in one epoch is delivered once.
pub proof fn law_sends_last_one_epoch(
    topology: V2FastFabricTopology,
    cpus: Seq<FastModel>,
    ticks: nat,
    i: int,
)
    requires
        0 <= i < cpus.len(),
        ({
            let ready = sends_cleared(mailboxes_synced(topology, cpus))[i];
            ready.halted || sends_nothing(ready.iss, ready.program, ready.mask, ticks)
        }),
    ensures
        sent(epoch(topology, cpus, ticks)[i]) == (0u64, 0u64),
{
    let f = sends_cleared(mailboxes_synced(topology, cpus))[i];
    if !f.halted {
        let n = run_count(f.iss, f.program, f.mask, ticks);
        crate::fast_laws::lemma_short_run_halts(f.iss, f.program, f.mask, ticks);
        lemma_steps_keep_sends(f.iss, f.program, f.mask, n);
        if ticks > 0 {
            let k = (ticks - 1) as nat;
            crate::fast_laws::lemma_short_run_halts(f.iss, f.program, f.mask, k);
            lemma_steps_keep_sends(
                f.iss,
                f.program,
                f.mask,
                run_count(f.iss, f.program, f.mask, k),
            );
        }
    }
}

/// CPUs that run on worker threads, with the values that are shared between them: what each last
/// sent and received, and whether it is halted.
#[verifier::ext_equal]
pub struct WorkerModel {
    pub cpus: Seq<FastModel>,
    pub sends: Seq<(u64, u64)>,
    pub recvs: Seq<(u64, u64)>,
    pub halted: Seq<bool>,
}

/// Whether each CPU is halted.
pub open spec fn halted_by(cpus: Seq<FastModel>) -> Seq<bool> {
    Seq::new(cpus.len(), |i: int| cpus[i].halted)
}

impl WorkerModel {
    /// Workers at reset, one for each program; nothing is sent or received yet.
    pub open spec fn at_reset(programs: Seq<Seq<u32>>) -> WorkerModel {
        WorkerModel {
            cpus: fabric_at_reset(programs),
            sends: Seq::new(programs.len(), |i: int| (0u64, 0u64)),
            recvs: Seq::new(programs.len(), |i: int| (0u64, 0u64)),
            halted: Seq::new(programs.len(), |i: int| false),
        }
    }

    /// The workers after an epoch: the sent values are delivered between the shared buffers, and
    /// every worker runs on what it finds there and tells what it sent and whether it is halted.
    pub open spec fn epoch(self, topology: V2FastFabricTopology, ticks: nat) -> WorkerModel {
        let recvs = delivered(topology, self.sends, self.recvs);
        let cpus = worker_epochs(self.cpus, recvs, ticks);
        WorkerModel { cpus, sends: sent_by(cpus), recvs, halted: halted_by(cpus) }
    }

    /// Every worker has told that it is halted.
    pub open spec fn all_halted(self) -> bool {
        forall|i: int| 0 <= i < self.halted.len() ==> #[trigger] self.halted[i]
    }

    /// The workers after epochs of up to `size` cycles, `left` cycles in all, until every one is
    /// halted.
    pub open spec fn epochs(
        self,
        topology: V2FastFabricTopology,
        left: nat,
        size: nat,
    ) -> WorkerModel
        decreases left,
    {
        if left == 0 || size == 0 || self.all_halted() {
            self
        } else {
            let t = epoch_ticks(left, size);
            self.epoch(topology, t).epochs(topology, (left - t) as nat, size)
        }
    }

    /// The workers after a sequence of runs, each of so many cycles in epochs of such a size.
    pub open spec fn runs(
        self,
        topology: V2FastFabricTopology,
        calls: Seq<(nat, nat)>,
    ) -> WorkerModel
        decreases calls.len(),
    {
        if calls.len() == 0 {
            self
        } else {
            self.runs(topology, calls.drop_last()).epochs(
                topology,
                calls.last().0,
                calls.last().1,
            )
        }
    }

    /// The shared values are those of the CPUs.
    pub open spec fn told(self) -> bool {
        &&& self.sends == sent_by(self.cpus)
        &&& self.recvs == received_by(self.cpus)
        &&& self.halted == halted_by(self.cpus)
        &&& forall|i: int|
            0 <= i < self.cpus.len() ==> (#[trigger] self.cpus[i]).iss.ports is Some
    }
}

/// CPUs at reset, one for each program, with a device window.
pub open spec fn fabric_at_reset(programs: Seq<Seq<u32>>) -> Seq<FastModel> {
    Seq::new(
        programs.len(),
        |i: int| FastModel::at_reset(programs[i], Some(quiet_ports())),
    )
}

/// The CPUs after a sequence of runs, each of so many cycles in epochs of such a size.
pub open spec fn fabric_runs(
    topology: V2FastFabricTopology,
    cpus: Seq<FastModel>,
    calls: Seq<(nat, nat)>,
) -> Seq<FastModel>
    decreases calls.len(),
{
    if calls.len() == 0 {
        cpus
    } else {
        epochs(
            topology,
            fabric_runs(topology, cpus, calls.drop_last()),
            calls.last().0,
            calls.last().1,
        )
    }
}

/// What a simulator received, if it has mailboxes.
pub open spec fn inbox(m: IssModel) -> Option<(u64, u64)> {
    match m.ports {
        Some(p) => Some((p.in_recv, p.out_recv)),
        None => None,
    }
}

proof fn lemma_steps_keep_inbox(m: IssModel, program: Seq<u32>, mask: u32, n: nat)
    ensures
        inbox(steps(m, program, mask, n)) == inbox(m),
    decreases n,
{
    if n > 0 {
        lemma_steps_keep_inbox(m, program, mask, (n - 1) as nat);
    }
}

/// No CPU changes what it has received.
pub proof fn law_batch_keeps_what_was_received(f: FastModel, n: nat)
    ensures
        inbox(f.batch(n).iss) == inbox(f.iss),
{
    lemma_steps_keep_inbox(f.iss, f.program, f.mask, run_count(f.iss, f.program, f.mask, n));
    if n > 0 {
        let k = (n - 1) as nat;
        lemma_steps_keep_inbox(f.iss, f.program, f.mask, run_count(f.iss, f.program, f.mask, k));
    }
}

/// One epoch of the workers is one of the CPUs, and what is shared is told again.
proof fn lemma_worker_epoch(w: WorkerModel, topology: V2FastFabricTopology, ticks: nat)
    requires
        w.told(),
    ensures
        w.epoch(topology, ticks).told(),
        w.epoch(topology, ticks).cpus == epoch(topology, w.cpus, ticks),
{
    law_parallel_is_sequential(topology, w.cpus, w.sends, w.recvs, ticks);
    let next = w.epoch(topology, ticks);
    let recvs = delivered(topology, w.sends, w.recvs);
    assert forall|i: int| 0 <= i < w.cpus.len() implies received(next.cpus[i]) == recvs[i]
        && (#[trigger] next.cpus[i]).iss.ports is Some by {
        assert(w.cpus[i].iss.ports is Some);
        law_batch_keeps_what_was_received(unsent(receiving(w.cpus[i], recvs[i])), ticks);
    }
    assert(next.recvs =~= received_by(next.cpus));
}

proof fn lemma_worker_epochs(
    w: WorkerModel,
    topology: V2FastFabricTopology,
    left: nat,
    size: nat,
)
    requires
        w.told(),
    ensures
        w.epochs(topology, left, size).told(),
        w.epochs(topology, left, size).cpus == epochs(topology, w.cpus, left, size),
    decreases left,
{
    assert(w.all_halted() == halted_all(w.cpus)) by {
        if w.all_halted() {
            assert forall|i: int| 0 <= i < w.cpus.len() implies (#[trigger] w.cpus[i]).halted by {
                assert(w.halted[i]);
            }
        }
        if halted_all(w.cpus) {
            assert forall|i: int| 0 <= i < w.halted.len() implies #[trigger] w.halted[i] by {
                assert(w.cpus[i].halted);
            }
        }
    }
    if left > 0 && size > 0 && !w.all_halted() {
        let t = epoch_ticks(left, size);
        lemma_worker_epoch(w, topology, t);
        lemma_worker_epochs(w.epoch(topology, t), topology, (left - t) as nat, size);
    }
}

/// From reset on, and over any sequence of runs, CPUs on worker threads are in the state in which
/// the same CPUs are that run one after another.
pub proof fn law_worker_runs_are_sequential_runs(
    topology: V2FastFabricTopology,
    programs: Seq<Seq<u32>>,
    calls: Seq<(nat, nat)>,
)
    ensures
        WorkerModel::at_reset(programs).runs(topology, calls).cpus == fabric_runs(
            topology,
            fabric_at_reset(programs),
            calls,
        ),
        WorkerModel::at_reset(programs).runs(topology, calls).told(),
    decreases calls.len(),
{
    let w = WorkerModel::at_reset(programs);
    if calls.len() == 0 {
        assert(w.sends =~= sent_by(w.cpus));
        assert(w.recvs =~= received_by(w.cpus));
        assert(w.halted =~= halted_by(w.cpus));
    } else {
        law_worker_runs_are_sequential_runs(topology, programs, calls.drop_last());
        lemma_worker_epochs(
            w.runs(topology, calls.drop_last()),
            topology,
            calls.last().0,
            calls.last().1,
        );
    }
}

/// A state's memory and device window are as large as they were made.
pub open spec fn is_sized(m: IssModel) -> bool {
    &&& m.regs.len() == 16
    &&& m.ram.len() == 128
    &&& m.mem_addr_mask == 127 + m.main_mem.len()
    &&& is_pow2(m.mem_addr_mask + 1)
    &&& m.mem_addr_mask < usize::MAX
    &&& m.ports is Some
    &&& m.ports->0.input.len() == 23
    &&& m.ports->0.output.len() == 23
}

proof fn lemma_steps_keep_sizes(m: IssModel, program: Seq<u32>, mask: u32, n: nat)
    requires
        is_sized(m),
    ensures
        is_sized(steps(m, program, mask, n)),
    decreases n,
{
    if n > 0 {
        lemma_steps_keep_sizes(m, program, mask, (n - 1) as nat);
    }
}

/// A CPU that executes a load from address 61 in an epoch finds there what its right neighbour had
/// sent to the left when the epoch before ended, and one that loads from address 60 finds what its
/// left neighbour had sent to the right. `j` counts the instructions that the CPU executed in the
/// epoch before the load.
pub proof fn law_loads_find_what_the_neighbours_sent(
    topology: V2FastFabricTopology,
    cpus: Seq<FastModel>,
    i: int,
    f: FastModel,
    j: nat,
    w: u32,
    rd: int,
)
    requires
        0 <= i,
        i + 1 < cpus.len(),
        cpus[i].iss.ports is Some,
        cpus[i + 1].iss.ports is Some,
        is_sized(f.iss),
        !steps(f.iss, f.program, f.mask, j).halted,
        steps(f.iss, f.program, f.mask, j).pc < f.program.len(),
        w == f.program[steps(f.iss, f.program, f.mask, j).pc as int],
        (w as int / 2048) % 32 == 0x18,
        (w as int / 524288) % 2 == 0,
        rd == (w as int / 256) % 8 + 8 * ((w as int / 65536) % 2),
    ensures
        f == sends_cleared(mailboxes_synced(topology, cpus))[i] && w % 256 == 61 ==> steps(
            f.iss,
            f.program,
            f.mask,
            j + 1,
        ).regs[rd] == cpus[i + 1].iss.ports->0.in_send,
        f == sends_cleared(mailboxes_synced(topology, cpus))[i + 1] && w % 256 == 60 ==> steps(
            f.iss,
            f.program,
            f.mask,
            j + 1,
        ).regs[rd] == cpus[i].iss.ports->0.out_send,
{
    let s = steps(f.iss, f.program, f.mask, j);
    lemma_steps_keep_sizes(f.iss, f.program, f.mask, j);
    lemma_steps_keep_inbox(f.iss, f.program, f.mask, j);
    let recvs = delivered(topology, sent_by(cpus), received_by(cpus));
    assert(recvs[i + 1] == routed(topology, sent_by(cpus), received_by(cpus), i + 1));
    assert(recvs[i] == routed(topology, sent_by(cpus), received_by(cpus), i));
    let rs = (w as int / 32) % 8 + 8 * ((w as int / 131072) % 2);
    let addr = (w as int % 256) % (s.mem_addr_mask + 1);
    if w % 256 == 61 || w % 256 == 60 {
        assert(addr == w % 256) by {
            vstd::arithmetic::div_mod::lemma_small_mod(
                (w % 256) as nat,
                (s.mem_addr_mask + 1) as nat,
            );
        }
        law_device_addresses(
            s,
            f.program,
            f.mask,
            stepped(s, f.program, f.mask),
            w,
            rd,
            rs,
            addr,
        );
    }
}

/// What a CPU stores to address 60 it has sent to the left when its run ends, and what it stores
/// to address 61 to the right, unless it stores again. `j` counts the instructions before the
/// store and `n` all of the run.
pub proof fn law_stores_are_what_was_sent(
    m: IssModel,
    program: Seq<u32>,
    mask: u32,
    j: nat,
    n: nat,
    w: u32,
    rd: int,
)
    requires
        is_sized(m),
        j < n,
        !steps(m, program, mask, j).halted,
        steps(m, program, mask, j).pc < program.len(),
        w == program[steps(m, program, mask, j).pc as int],
        (w as int / 2048) % 32 == 0x19,
        (w as int / 524288) % 2 == 0,
        rd == (w as int / 256) % 8 + 8 * ((w as int / 65536) % 2),
        forall|k: nat|
            j < k < n && (#[trigger] steps(m, program, mask, k)).pc < program.len() ==> (program[
                steps(m, program, mask, k).pc as int
            ] / 2048) % 32 != 0x17 && (program[steps(m, program, mask, k).pc as int] / 2048) % 32
                != 0x19,
    ensures
        w % 256 == 60 ==> steps(m, program, mask, n).ports->0.in_send == steps(
            m,
            program,
            mask,
            j,
        ).regs[rd],
        w % 256 == 61 ==> steps(m, program, mask, n).ports->0.out_send == steps(
            m,
            program,
            mask,
            j,
        ).regs[rd],
    decreases n,
{
    let s = steps(m, program, mask, j);
    lemma_steps_keep_sizes(m, program, mask, j);
    lemma_steps_keep_sizes(m, program, mask, n);
    if n == j + 1 {
        let rs = (w as int / 32) % 8 + 8 * ((w as int / 131072) % 2);
        let addr = (w as int % 256) % (s.mem_addr_mask + 1);
        if w % 256 == 61 || w % 256 == 60 {
            assert(addr == w % 256) by {
                vstd::arithmetic::div_mod::lemma_small_mod(
                    (w % 256) as nat,
                    (s.mem_addr_mask + 1) as nat,
                );
            }
            law_device_addresses(s, program, mask, stepped(s, program, mask), w, rd, rs, addr);
        }
    } else {
        let k = (n - 1) as nat;
        law_stores_are_what_was_sent(m, program, mask, j, k, w, rd);
        lemma_steps_keep_sizes(m, program, mask, k);
        let t = steps(m, program, mask, k);
        assert(t == steps(m, program, mask, k));
        if !t.halted && t.pc < program.len() {
            let v = program[t.pc as int];
            law_what_a_step_leaves_alone(
                t,
                program,
                mask,
                stepped(t, program, mask),
                v,
                (v as int / 256) % 8 + 8 * ((v as int / 65536) % 2),
                0,
            );
        }
    }
}

} // verus!
