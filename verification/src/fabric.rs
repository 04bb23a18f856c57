//! Mailbox-coupled CPUs that run in epochs: what a CPU sends in one epoch its neighbour receives
//! in the next.
use vstd::prelude::*;

use crate::fabric_laws::fabric_at_reset;
use crate::fast::{hash_arch, in_send, out_send, state_hash, FastModel, V2FastCpu};
use crate::iss::{quiet_ports, with_in_recv, with_out_recv, without_sends};

verus! {

/// How the CPUs are linked.
#[derive(Debug, Clone, Copy, PartialEq, Eq, Structural)]
pub enum V2FastFabricTopology {
    /// Each CPU with the next one.
    Linear,
    /// Each CPU with the next one, and the last with the first.
    Ring,
}

/// The left neighbour of a CPU among `n`.
pub open spec fn left_of(topology: V2FastFabricTopology, n: nat, i: int) -> Option<int> {
    if i > 0 {
        Some(i - 1)
    } else if topology is Ring {
        Some(n - 1)
    } else {
        None
    }
}

/// The right neighbour of a CPU among `n`.
pub open spec fn right_of(topology: V2FastFabricTopology, n: nat, i: int) -> Option<int> {
    if i + 1 < n {
        Some(i + 1)
    } else if topology is Ring {
        Some(0int)
    } else {
        None
    }
}

/// What CPU `i` has received before the next epoch: what each neighbour last sent towards it, and
/// what it had received before where it has no neighbour.
pub open spec fn routed(
    topology: V2FastFabricTopology,
    sends: Seq<(u64, u64)>,
    recvs: Seq<(u64, u64)>,
    i: int,
) -> (u64, u64) {
    let n = sends.len();
    (
        match left_of(topology, n, i) {
            Some(l) => sends[l].1,
            None => recvs[i].0,
        },
        match right_of(topology, n, i) {
            Some(r) => sends[r].0,
            None => recvs[i].1,
        },
    )
}

/// The buffers of received values once the sent ones are delivered. A lone CPU has no links.
pub open spec fn delivered(
    topology: V2FastFabricTopology,
    sends: Seq<(u64, u64)>,
    recvs: Seq<(u64, u64)>,
) -> Seq<(u64, u64)> {
    if sends.len() < 2 {
        recvs
    } else {
        Seq::new(sends.len(), |i: int| routed(topology, sends, recvs, i))
    }
}

/// What a CPU last sent to the left and to the right.
pub open spec fn sent(c: FastModel) -> (u64, u64) {
    (in_send(c.iss), out_send(c.iss))
}

/// What a CPU last received from the left and from the right.
pub open spec fn received(c: FastModel) -> (u64, u64) {
    match c.iss.ports {
        Some(p) => (p.in_recv, p.out_recv),
        None => (0, 0),
    }
}

/// The CPU with what it received replaced.
pub open spec fn receiving(c: FastModel, v: (u64, u64)) -> FastModel {
    FastModel { iss: with_out_recv(with_in_recv(c.iss, v.0), v.1), ..c }
}

pub open spec fn sent_by(cpus: Seq<FastModel>) -> Seq<(u64, u64)> {
    Seq::new(cpus.len(), |i: int| sent(cpus[i]))
}

pub open spec fn received_by(cpus: Seq<FastModel>) -> Seq<(u64, u64)> {
    Seq::new(cpus.len(), |i: int| received(cpus[i]))
}

/// The CPUs with the sent values delivered.
pub open spec fn mailboxes_synced(
    topology: V2FastFabricTopology,
    cpus: Seq<FastModel>,
) -> Seq<FastModel> {
    let recvs = delivered(topology, sent_by(cpus), received_by(cpus));
    Seq::new(cpus.len(), |i: int| receiving(cpus[i], recvs[i]))
}

/// The CPU with nothing sent to either neighbour.
pub open spec fn unsent(c: FastModel) -> FastModel {
    FastModel { iss: without_sends(c.iss), ..c }
}

pub open spec fn sends_cleared(cpus: Seq<FastModel>) -> Seq<FastModel> {
    Seq::new(cpus.len(), |i: int| unsent(cpus[i]))
}

/// The CPUs after an epoch: deliver what was sent, clear it, then run each on its own.
pub open spec fn epoch(
    topology: V2FastFabricTopology,
    cpus: Seq<FastModel>,
    ticks: nat,
) -> Seq<FastModel> {
    let ready = sends_cleared(mailboxes_synced(topology, cpus));
    Seq::new(cpus.len(), |i: int| ready[i].batch(ticks))
}

/// Every CPU is halted.
pub open spec fn halted_all(cpus: Seq<FastModel>) -> bool {
    forall|i: int| 0 <= i < cpus.len() ==> (#[trigger] cpus[i]).halted
}

/// The length of the next epoch.
pub open spec fn epoch_ticks(left: nat, size: nat) -> nat {
    if size < left {
        size
    } else {
        left
    }
}

/// The CPUs after epochs of up to `size` cycles, `left` cycles in all, until every CPU is halted.
pub open spec fn epochs(
    topology: V2FastFabricTopology,
    cpus: Seq<FastModel>,
    left: nat,
    size: nat,
) -> Seq<FastModel>
    decreases left,
{
    if left == 0 || size == 0 || halted_all(cpus) {
        cpus
    } else {
        let t = epoch_ticks(left, size);
        epochs(topology, epoch(topology, cpus, t), (left - t) as nat, size)
    }
}

/// A CPU among `n` that is linked on a side.
pub open spec fn linked(topology: V2FastFabricTopology, n: nat, i: int, j: int) -> bool {
    left_of(topology, n, i) == Some(j) || right_of(topology, n, i) == Some(j)
}

/// Within an epoch a CPU depends on its own state and on what its neighbours had sent before the
/// epoch, and on nothing that another CPU does in it.
pub proof fn law_epoch_hides_new_sends(
    topology: V2FastFabricTopology,
    a: Seq<FastModel>,
    b: Seq<FastModel>,
    ticks: nat,
    i: int,
)
    requires
        a.len() == b.len(),
        0 <= i < a.len(),
        a[i] == b[i],
        forall|j: int|
            0 <= j < a.len() && linked(topology, a.len(), i, j) ==> sent(#[trigger] a[j]) == sent(
                b[j],
            ),
    ensures
        epoch(topology, a, ticks)[i] == epoch(topology, b, ticks)[i],
{
    if a.len() >= 2 {
        match left_of(topology, a.len(), i) {
            Some(l) => {
                assert(sent(a[l]) == sent(b[l]));
            },
            None => {},
        }
        match right_of(topology, a.len(), i) {
            Some(r) => {
                assert(sent(a[r]) == sent(b[r]));
            },
            None => {},
        }
    }
    assert(mailboxes_synced(topology, a)[i] == mailboxes_synced(topology, b)[i]);
}

/// What two linked CPUs sent by the end of an epoch is what the other holds when the next one
/// starts.
pub proof fn law_sends_arrive_next_epoch(
    topology: V2FastFabricTopology,
    cpus: Seq<FastModel>,
    ticks: nat,
    i: int,
)
    requires
        0 <= i,
        i + 1 < cpus.len(),
        epoch(topology, cpus, ticks)[i].iss.ports is Some,
        epoch(topology, cpus, ticks)[i + 1].iss.ports is Some,
    ensures
        received(mailboxes_synced(topology, epoch(topology, cpus, ticks))[i + 1]).0 == sent(
            epoch(topology, cpus, ticks)[i],
        ).1,
        received(mailboxes_synced(topology, epoch(topology, cpus, ticks))[i]).1 == sent(
            epoch(topology, cpus, ticks)[i + 1],
        ).0,
{
    let e = epoch(topology, cpus, ticks);
    let recvs = delivered(topology, sent_by(e), received_by(e));
    assert(recvs[i + 1] == routed(topology, sent_by(e), received_by(e), i + 1));
    assert(recvs[i] == routed(topology, sent_by(e), received_by(e), i));
}

/// In a ring the last CPU and the first are neighbours too.
pub proof fn law_ring_closes(cpus: Seq<FastModel>)
    requires
        cpus.len() >= 2,
        cpus[0].iss.ports is Some,
        cpus[cpus.len() - 1].iss.ports is Some,
    ensures
        received(mailboxes_synced(V2FastFabricTopology::Ring, cpus)[0]).0 == sent(
            cpus[cpus.len() - 1],
        ).1,
        received(mailboxes_synced(V2FastFabricTopology::Ring, cpus)[cpus.len() - 1]).1 == sent(
            cpus[0],
        ).0,
{
    let ring = V2FastFabricTopology::Ring;
    let n = cpus.len() as int;
    let recvs = delivered(ring, sent_by(cpus), received_by(cpus));
    assert(recvs[0] == routed(ring, sent_by(cpus), received_by(cpus), 0));
    assert(recvs[n - 1] == routed(ring, sent_by(cpus), received_by(cpus), n - 1));
}

/// The CPUs after an epoch in which every worker takes what it receives from a shared buffer.
pub open spec fn worker_epochs(
    cpus: Seq<FastModel>,
    recvs: Seq<(u64, u64)>,
    ticks: nat,
) -> Seq<FastModel> {
    Seq::new(cpus.len(), |i: int| unsent(receiving(cpus[i], recvs[i])).batch(ticks))
}

/// Workers that exchange values through shared buffers do what the CPUs do one after another,
/// when the buffers hold what the CPUs last sent and received.
pub proof fn law_parallel_is_sequential(
    topology: V2FastFabricTopology,
    cpus: Seq<FastModel>,
    sends: Seq<(u64, u64)>,
    recvs: Seq<(u64, u64)>,
    ticks: nat,
)
    requires
        sends == sent_by(cpus),
        recvs == received_by(cpus),
    ensures
        worker_epochs(cpus, delivered(topology, sends, recvs), ticks) == epoch(
            topology,
            cpus,
            ticks,
        ),
{
    assert(worker_epochs(cpus, delivered(topology, sends, recvs), ticks) =~= epoch(
        topology,
        cpus,
        ticks,
    ));
}

fn left_index(topology: V2FastFabricTopology, n: usize, i: usize) -> (r: Option<usize>)
    requires
        i < n,
    ensures
        match r {
            Some(l) => l < n && left_of(topology, n as nat, i as int) == Some(l as int),
            None => left_of(topology, n as nat, i as int) is None,
        },
{
    if i > 0 {
        Some(i - 1)
    } else {
        match topology {
            V2FastFabricTopology::Ring => Some(n - 1),
            V2FastFabricTopology::Linear => None,
        }
    }
}

fn right_index(topology: V2FastFabricTopology, n: usize, i: usize) -> (r: Option<usize>)
    requires
        i < n,
    ensures
        match r {
            Some(l) => l < n && right_of(topology, n as nat, i as int) == Some(l as int),
            None => right_of(topology, n as nat, i as int) is None,
        },
{
    if i < n - 1 {
        Some(i + 1)
    } else {
        match topology {
            V2FastFabricTopology::Ring => Some(0),
            V2FastFabricTopology::Linear => None,
        }
    }
}

/// Deliver what was sent into the buffers of received values.
pub fn deliver(
    topology: V2FastFabricTopology,
    sends: &Vec<(u64, u64)>,
    recvs: &mut Vec<(u64, u64)>,
)
    requires
        sends@.len() == old(recvs)@.len(),
    ensures
        final(recvs)@ == delivered(topology, sends@, old(recvs)@),
{
    let n: usize = sends.len();
    if n < 2 {
        return;
    }
    let mut i: usize = 0;
    while i < n
        invariant
            i <= n,
            n == sends@.len(),
            recvs@.len() == n,
            forall|k: int| 0 <= k < i ==> #[trigger] recvs@[k] == routed(
                topology,
                sends@,
                old(recvs)@,
                k,
            ),
            forall|k: int| i <= k < n ==> #[trigger] recvs@[k] == old(recvs)@[k],
        decreases n - i,
    {
        let mut pair: (u64, u64) = recvs[i];
        if let Some(l) = left_index(topology, n, i) {
            pair = (sends[l].1, pair.1);
        }
        if let Some(r) = right_index(topology, n, i) {
            pair = (pair.0, sends[r].0);
        }
        recvs.set(i, pair);
        i = i + 1;
    }
    assert(recvs@ =~= delivered(topology, sends@, old(recvs)@));
}

/// What a worker tells of its CPU after an epoch.
#[derive(Debug, Clone, Copy, PartialEq, Eq, Structural)]
pub struct WorkerReport {
    pub in_send: u64,
    pub out_send: u64,
    pub halted: bool,
    pub cycle_count: u64,
}

/// Run one epoch of a worker's own CPU on what it received. What it reports as sent was sent in
/// this epoch.
pub fn run_worker_epoch(cpu: &mut V2FastCpu, recv: (u64, u64), ticks: u64) -> (r: WorkerReport)
    requires
        old(cpu).wf(),
        old(cpu).cycle_count + ticks <= u64::MAX,
        old(cpu).retired_count + ticks <= u64::MAX,
    ensures
        final(cpu).wf(),
        final(cpu)@ == unsent(receiving(old(cpu)@, recv)).batch(ticks as nat),
        r == (WorkerReport {
            in_send: in_send(final(cpu)@.iss),
            out_send: out_send(final(cpu)@.iss),
            halted: final(cpu).halted,
            cycle_count: final(cpu).cycle_count,
        }),
{
    cpu.set_mailbox_in_recv(recv.0);
    cpu.set_mailbox_out_recv(recv.1);
    cpu.clear_mailbox_sends();
    let _used: u64 = cpu.run_batch(ticks);
    WorkerReport {
        in_send: cpu.mailbox_in_send(),
        out_send: cpu.mailbox_out_send(),
        halted: cpu.is_halted(),
        cycle_count: cpu.cycle_count(),
    }
}

/// The length of the next epoch, given the cycles used so far; `None` when no cycle is left.
pub fn next_epoch(used: u64, max_cycles: u64, epoch_size: u64) -> (t: Option<u64>)
    ensures
        t == if epoch_size == 0 || used >= max_cycles {
            None::<u64>
        } else {
            Some(epoch_ticks((max_cycles - used) as nat, epoch_size as nat) as u64)
        },
{
    if epoch_size == 0 || used >= max_cycles {
        None
    } else {
        let left: u64 = max_cycles - used;
        Some(if epoch_size < left {
            epoch_size
        } else {
            left
        })
    }
}

/// Mailbox-coupled CPUs that run one after another within an epoch.
pub struct V2FastFabric {
    pub cpus: Vec<V2FastCpu>,
    pub topology: V2FastFabricTopology,
}

impl View for V2FastFabric {
    type V = Seq<FastModel>;

    open spec fn view(&self) -> Seq<FastModel> {
        Seq::new(self.cpus@.len(), |i: int| self.cpus@[i]@)
    }
}

impl V2FastFabric {
    pub open spec fn wf(self) -> bool {
        forall|i: int| 0 <= i < self.cpus@.len() ==> (#[trigger] self.cpus@[i]).wf()
    }

    /// Every counter has room for `n` more cycles.
    pub open spec fn room(self, n: int) -> bool {
        forall|i: int|
            0 <= i < self.cpus@.len() ==> (#[trigger] self.cpus@[i]).cycle_count + n <= u64::MAX
                && self.cpus@[i].retired_count + n <= u64::MAX
    }

    /// A CPU at reset for each program, with a device window.
    pub fn new(programs: &Vec<Vec<u32>>, topology: V2FastFabricTopology) -> (f: Self)
        ensures
            f.wf(),
            f.topology == topology,
            f@ == fabric_at_reset(Seq::new(programs@.len(), |i: int| programs@[i]@)),
            forall|i: int|
                0 <= i < f.cpus@.len() ==> (#[trigger] f.cpus@[i]).iss.state.math_is_clear(),
    {
        let mut cpus: Vec<V2FastCpu> = Vec::new();
        let mut i: usize = 0;
        while i < programs.len()
            invariant
                i <= programs@.len(),
                cpus@.len() == i,
                forall|k: int|
                    0 <= k < i ==> (#[trigger] cpus@[k]).wf()
                        && cpus@[k].iss.state.math_is_clear() && cpus@[k]@ == FastModel::at_reset(
                        programs@[k]@,
                        Some(quiet_ports()),
                    ),
            decreases programs@.len() - i,
        {
            cpus.push(V2FastCpu::from_program_with_mmio(&programs[i]));
            i = i + 1;
        }
        let f: V2FastFabric = V2FastFabric { cpus, topology };
        assert(f@ =~= fabric_at_reset(Seq::new(programs@.len(), |i: int| programs@[i]@)));
        f
    }

    /// Run epochs of up to `epoch_size` cycles until `max_cycles` are used or every CPU is halted.
    /// Each epoch delivers what was sent in the one before, clears what every CPU has sent, and
    /// runs the CPUs one after another.
    pub fn run_epochs(&mut self, max_cycles: u64, epoch_size: u64)
        requires
            old(self).wf(),
            old(self).room(max_cycles as int),
        ensures
            final(self)@ == epochs(
                old(self).topology,
                old(self)@,
                max_cycles as nat,
                epoch_size as nat,
            ),
            final(self).wf(),
            final(self).topology == old(self).topology,
    {
        let ghost all = epochs(self.topology, self@, max_cycles as nat, epoch_size as nat);
        let mut used: u64 = 0;
        let mut done: bool = self.all_halted();
        while used < max_cycles && epoch_size > 0 && !done
            invariant
                used <= max_cycles,
                self.wf(),
                self.room(max_cycles - used),
                self.topology == old(self).topology,
                done == halted_all(self@),
                all == epochs(
                    self.topology,
                    self@,
                    (max_cycles - used) as nat,
                    epoch_size as nat,
                ),
            decreases max_cycles - used,
        {
            let left: u64 = max_cycles - used;
            let ticks: u64 = if epoch_size < left {
                epoch_size
            } else {
                left
            };
            self.sync_mailboxes();
            self.clear_sends();
            self.step_all(ticks);
            used = used + ticks;
            done = self.all_halted();
        }
    }

    fn sync_mailboxes(&mut self)
        requires
            old(self).wf(),
        ensures
            final(self)@ == mailboxes_synced(old(self).topology, old(self)@),
            final(self).wf(),
            final(self).topology == old(self).topology,
            forall|n: int| old(self).room(n) ==> final(self).room(n),
    {
        let n: usize = self.cpus.len();
        let ghost g = self@;
        if n < 2 {
            assert forall|i: int| 0 <= i < n implies #[trigger] receiving(
                g[i],
                received(g[i]),
            ) == g[i] by {
                assert(receiving(g[i], received(g[i])) =~= g[i]);
            }
            assert(self@ =~= mailboxes_synced(self.topology, g));
            return;
        }
        let mut sends: Vec<(u64, u64)> = Vec::new();
        let mut k: usize = 0;
        while k < n
            invariant
                k <= n,
                n == self.cpus@.len(),
                *self == *old(self),
                g == self@,
                sends@.len() == k,
                forall|j: int| 0 <= j < k ==> #[trigger] sends@[j] == sent(g[j]),
            decreases n - k,
        {
            sends.push((self.cpus[k].mailbox_in_send(), self.cpus[k].mailbox_out_send()));
            k = k + 1;
        }
        assert(sends@ =~= sent_by(g));
        let ghost recvs = delivered(self.topology, sends@, received_by(g));
        let mut i: usize = 0;
        while i < n
            invariant
                2 <= n,
                i <= n,
                n == self.cpus@.len(),
                n == g.len(),
                g == old(self)@,
                self.wf(),
                self.topology == old(self).topology,
                sends@ == sent_by(g),
                recvs == delivered(self.topology, sends@, received_by(g)),
                forall|j: int| 0 <= j < i ==> (#[trigger] self.cpus@[j])@ == receiving(
                    g[j],
                    recvs[j],
                ),
                forall|j: int| i <= j < n ==> (#[trigger] self.cpus@[j])@ == g[j],
            decreases n - i,
        {
            if let Some(l) = left_index(self.topology, n, i) {
                self.cpus[i].set_mailbox_in_recv(sends[l].1);
            }
            if let Some(r) = right_index(self.topology, n, i) {
                self.cpus[i].set_mailbox_out_recv(sends[r].0);
            }
            assert(recvs[i as int] == routed(self.topology, sends@, received_by(g), i as int));
            assert(self.cpus@[i as int]@ =~= receiving(g[i as int], recvs[i as int]));
            i = i + 1;
        }
        assert(self@ =~= mailboxes_synced(self.topology, g));
        assert forall|m: int| old(self).room(m) implies self.room(m) by {
            assert forall|j: int| 0 <= j < n implies (#[trigger] self.cpus@[j]).cycle_count + m
                <= u64::MAX && self.cpus@[j].retired_count + m <= u64::MAX by {
                assert(self.cpus@[j]@.cycles == old(self).cpus@[j]@.cycles);
            }
        }
    }

    fn clear_sends(&mut self)
        requires
            old(self).wf(),
        ensures
            final(self)@ == sends_cleared(old(self)@),
            final(self).wf(),
            final(self).topology == old(self).topology,
            forall|n: int| old(self).room(n) ==> final(self).room(n),
    {
        let n: usize = self.cpus.len();
        let ghost g = self@;
        let mut i: usize = 0;
        while i < n
            invariant
                i <= n,
                n == self.cpus@.len(),
                n == g.len(),
                g == old(self)@,
                self.wf(),
                self.topology == old(self).topology,
                forall|j: int| 0 <= j < i ==> (#[trigger] self.cpus@[j])@ == unsent(g[j]),
                forall|j: int| i <= j < n ==> (#[trigger] self.cpus@[j])@ == g[j],
            decreases n - i,
        {
            self.cpus[i].clear_mailbox_sends();
            i = i + 1;
        }
        assert(self@ =~= sends_cleared(g));
        assert forall|m: int| old(self).room(m) implies self.room(m) by {
            assert forall|j: int| 0 <= j < n implies (#[trigger] self.cpus@[j]).cycle_count + m
                <= u64::MAX && self.cpus@[j].retired_count + m <= u64::MAX by {
                assert(self.cpus@[j]@.cycles == old(self).cpus@[j]@.cycles);
            }
        }
    }

    fn step_all(&mut self, ticks: u64)
        requires
            old(self).wf(),
            old(self).room(ticks as int),
        ensures
            final(self)@ == Seq::new(
                old(self)@.len(),
                |i: int| old(self)@[i].batch(ticks as nat),
            ),
            final(self).wf(),
            final(self).topology == old(self).topology,
            forall|n: int| old(self).room(n) ==> final(self).room(n - ticks),
    {
        let n: usize = self.cpus.len();
        let ghost g = self@;
        let mut i: usize = 0;
        while i < n
            invariant
                i <= n,
                n == self.cpus@.len(),
                n == g.len(),
                g == old(self)@,
                n == old(self).cpus@.len(),
                self.wf(),
                old(self).room(ticks as int),
                self.topology == old(self).topology,
                forall|j: int|
                    0 <= j < i ==> (#[trigger] self.cpus@[j])@ == g[j].batch(ticks as nat)
                        && self.cpus@[j].cycle_count <= old(self).cpus@[j].cycle_count + ticks
                        && self.cpus@[j].retired_count <= old(self).cpus@[j].retired_count + ticks,
                forall|j: int|
                    i <= j < n ==> #[trigger] self.cpus@[j] == old(self).cpus@[j],
            decreases n - i,
        {
            assert(self.cpus@[i as int] == old(self).cpus@[i as int]);
            proof {
                crate::fast::lemma_batch_bound(g[i as int], ticks as nat);
            }
            let _used: u64 = self.cpus[i].run_batch(ticks);
            i = i + 1;
        }
        assert(self@ =~= Seq::new(g.len(), |i: int| g[i].batch(ticks as nat)));
        assert forall|m: int| old(self).room(m) implies self.room(m - ticks) by {
            assert forall|j: int| 0 <= j < n implies (#[trigger] self.cpus@[j]).cycle_count + (m
                - ticks) <= u64::MAX && self.cpus@[j].retired_count + (m - ticks) <= u64::MAX by {
                assert(old(self).cpus@[j].cycle_count + m <= u64::MAX);
            }
        }
    }

    pub fn cpu(&self, i: usize) -> (r: &V2FastCpu)
        requires
            i < self.cpus@.len(),
        ensures
            *r == self.cpus@[i as int],
    {
        &self.cpus[i]
    }

    pub fn cpu_mut(&mut self, i: usize) -> (r: &mut V2FastCpu)
        requires
            i < old(self).cpus@.len(),
        ensures
            *r == old(self).cpus@[i as int],
            final(self).cpus@ == old(self).cpus@.update(i as int, *final(r)),
            final(self).topology == old(self).topology,
    {
        &mut self.cpus[i]
    }

    pub fn num_cpus(&self) -> (n: usize)
        ensures
            n == self@.len(),
    {
        self.cpus.len()
    }

    pub fn all_halted(&self) -> (b: bool)
        ensures
            b == halted_all(self@),
    {
        let mut i: usize = 0;
        while i < self.cpus.len()
            invariant
                i <= self.cpus@.len(),
                forall|k: int| 0 <= k < i ==> (#[trigger] self@[k]).halted,
            decreases self.cpus@.len() - i,
        {
            if !self.cpus[i].is_halted() {
                assert(!self@[i as int].halted);
                return false;
            }
            assert(self@[i as int].halted);
            i = i + 1;
        }
        true
    }
}

/// The observable state of a CPU.
#[derive(Debug, Clone)]
pub struct CpuSnapshot {
    pub pc: u32,
    pub lr: u32,
    pub flag_z: bool,
    pub flag_c: bool,
    pub halted: bool,
    pub cycle_count: u64,
    pub retired_count: u64,
    pub regs: [u64; 16],
    pub ram: [u64; 128],
}

impl CpuSnapshot {
    /// The snapshot shows a CPU in this state.
    pub open spec fn shows(self, c: FastModel) -> bool {
        &&& self.pc == c.iss.pc
        &&& self.lr == c.iss.lr
        &&& self.flag_z == c.iss.flag_z
        &&& self.flag_c == c.iss.flag_c
        &&& self.halted == c.halted
        &&& self.cycle_count == c.cycles
        &&& self.retired_count == c.retired
        &&& self.regs@ == c.iss.regs
        &&& self.ram@ == c.iss.ram
    }

    pub fn from_cpu(cpu: &V2FastCpu) -> (s: Self)
        ensures
            s.shows(cpu@),
    {
        CpuSnapshot {
            pc: cpu.iss.state.pc,
            lr: cpu.iss.state.lr,
            flag_z: cpu.iss.state.flag_z,
            flag_c: cpu.iss.state.flag_c,
            halted: cpu.is_halted(),
            cycle_count: cpu.cycle_count(),
            retired_count: cpu.retired_count(),
            regs: cpu.iss.state.regs,
            ram: cpu.iss.state.mem.ram,
        }
    }

    /// The hash of the state shown, as of a simulator state.
    pub fn hash(&self) -> (h: u64)
        ensures
            h == state_hash(
                self.pc,
                self.lr,
                self.flag_z,
                self.flag_c,
                self.halted,
                self.regs@,
                self.ram@,
            ),
    {
        hash_arch(
            self.pc,
            self.lr,
            self.flag_z,
            self.flag_c,
            self.halted,
            &self.regs,
            &self.ram,
        )
    }
}

} // verus!
