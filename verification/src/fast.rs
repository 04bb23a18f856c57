//! The fast CPU: the simulator behind the cycle accounting of the two-stage pipeline.
use vstd::prelude::*;

use crate::cpu::TileCpuV2;
use crate::fast_laws::law_batch_stops_at_its_limit_or_a_halt;
use crate::iss::{
    quiet_ports, stepped, steps, with_in_recv, with_out_recv, without_sends,
    IssModel, V2Iss, V2IssState,
};
use crate::layout::V2CpuIndices;
use crate::pc_stage::with_pc;
use crate::simulation::{Grid, Simulation};
use crate::state::{ArchState, PipelineState};
use crate::writeback::with_regs;

verus! {

/// What one tick did.
#[derive(Debug, Clone, Copy, PartialEq, Eq, Structural)]
pub struct V2FastTickResult {
    /// An instruction was retired.
    pub retired: bool,
    /// Cycles so far, this one counted.
    pub cycle_count: u64,
}

/// A CPU that executes an instruction per cycle once its pipeline is filled, which takes one
/// cycle.
pub struct V2FastCpu {
    pub iss: V2Iss,
    pub program_words: Vec<u32>,
    pub cycle_count: u64,
    pub retired_count: u64,
    pub last_stage_x_valid: bool,
    pub pipeline_filled: bool,
    pub halted: bool,
    pub uses_mmio: bool,
}

/// The fast CPU, as mathematical values.
#[verifier::ext_equal]
pub struct FastModel {
    pub iss: IssModel,
    pub program: Seq<u32>,
    pub mask: u32,
    pub cycles: int,
    pub retired: int,
    pub valid: bool,
    pub filled: bool,
    pub halted: bool,
}

impl View for V2FastCpu {
    type V = FastModel;

    open spec fn view(&self) -> FastModel {
        FastModel {
            iss: self.iss@,
            program: self.iss.program@,
            mask: self.iss.pc_mask,
            cycles: self.cycle_count as int,
            retired: self.retired_count as int,
            valid: self.last_stage_x_valid,
            filled: self.pipeline_filled,
            halted: self.halted,
        }
    }
}

impl FastModel {
    /// The simulator after `n` more steps.
    pub open spec fn after_steps(self, n: nat) -> IssModel {
        steps(self.iss, self.program, self.mask, n)
    }

    /// The CPU after the cycle that fills the pipeline.
    pub open spec fn fill(self) -> FastModel {
        FastModel { cycles: self.cycles + 1, filled: true, valid: false, ..self }
    }

    /// The CPU after one tick.
    pub open spec fn tick(self) -> FastModel {
        if self.halted {
            FastModel { valid: false, ..self }
        } else if !self.filled {
            self.fill()
        } else {
            let ran = !self.iss.halted;
            let next = stepped(self.iss, self.program, self.mask);
            FastModel {
                iss: next,
                cycles: self.cycles + 1,
                retired: self.retired + if ran {
                    1int
                } else {
                    0int
                },
                valid: ran,
                halted: next.halted,
                ..self
            }
        }
    }

    /// The CPU after ticking up to `n` times, until it halts.
    pub open spec fn ticks(self, n: nat) -> FastModel
        decreases n,
    {
        if n == 0 || self.halted {
            self
        } else {
            self.tick().ticks((n - 1) as nat)
        }
    }

    /// The CPU after executing up to `n` instructions, until it halts.
    pub open spec fn instructions(self, n: nat) -> FastModel {
        let count = run_count(self.iss, self.program, self.mask, n);
        let next = self.after_steps(count);
        FastModel {
            iss: next,
            cycles: self.cycles + count,
            retired: self.retired + count,
            valid: count > 0,
            halted: next.halted,
            ..self
        }
    }

    /// The CPU after a batch of up to `n` cycles.
    pub open spec fn batch(self, n: nat) -> FastModel {
        if self.halted || n == 0 {
            self
        } else if self.filled {
            self.instructions(n)
        } else if n == 1 {
            self.fill()
        } else {
            self.fill().instructions((n - 1) as nat)
        }
    }
}

/// How many of up to `n` steps a state takes before it halts.
pub open spec fn run_count(m: IssModel, program: Seq<u32>, mask: u32, n: nat) -> nat
    decreases n,
{
    if n == 0 || m.halted {
        0
    } else {
        1 + run_count(stepped(m, program, mask), program, mask, (n - 1) as nat)
    }
}

/// Stepping once and then `n` times is stepping `n + 1` times.
pub(crate) proof fn lemma_steps_from_front(m: IssModel, program: Seq<u32>, mask: u32, n: nat)
    ensures
        steps(stepped(m, program, mask), program, mask, n) == steps(m, program, mask, n + 1),
    decreases n,
{
    if n > 0 {
        lemma_steps_from_front(m, program, mask, (n - 1) as nat);
        assert(steps(m, program, mask, n + 1) == stepped(
            steps(m, program, mask, n),
            program,
            mask,
        ));
    } else {
        reveal_with_fuel(steps, 2);
    }
}

proof fn lemma_run_count_bound(m: IssModel, program: Seq<u32>, mask: u32, n: nat)
    ensures
        run_count(m, program, mask, n) <= n,
    decreases n,
{
    if n > 0 && !m.halted {
        lemma_run_count_bound(stepped(m, program, mask), program, mask, (n - 1) as nat);
    }
}

/// A batch of `n` cycles counts at most `n` cycles and `n` instructions.
pub proof fn lemma_batch_bound(f: FastModel, n: nat)
    ensures
        f.cycles <= f.batch(n).cycles <= f.cycles + n,
        f.retired <= f.batch(n).retired <= f.retired + n,
{
    lemma_run_count_bound(f.iss, f.program, f.mask, n);
    if n > 0 {
        lemma_run_count_bound(f.iss, f.program, f.mask, (n - 1) as nat);
    }
}

/// A batch of cycles is that many ticks, when the CPU and its simulator agree on whether they
/// are halted.
pub proof fn law_batch_is_ticks(f: FastModel, n: nat)
    requires
        f.halted == f.iss.halted,
    ensures
        f.batch(n) == f.ticks(n),
    decreases n,
{
    if n > 0 && !f.halted {
        let t = f.tick();
        if !f.filled {
            reveal_with_fuel(FastModel::ticks, 2);
            if n > 1 {
                law_batch_is_ticks(t, (n - 1) as nat);
            }
        } else {
            law_batch_is_ticks(t, (n - 1) as nat);
            let rest = (n - 1) as nat;
            let next = stepped(f.iss, f.program, f.mask);
            let count = run_count(next, f.program, f.mask, rest);
            lemma_steps_from_front(f.iss, f.program, f.mask, count);
            if rest == 0 || next.halted {
                assert(count == 0);
                reveal_with_fuel(steps, 2);
                assert(f.batch(n) =~= t);
                if rest > 0 {
                    assert(t.ticks(rest) == t);
                }
            } else {
                assert(t.batch(rest) =~= f.batch(n));
            }
        }
    }
}

/// Every cycle but the one that fills the pipeline retires an instruction, whatever is executed.
pub proof fn law_cycles_follow_instructions(f: FastModel, n: nat)
    requires
        f.halted == f.iss.halted,
        f.cycles == f.retired + if f.filled {
            1int
        } else {
            0int
        },
    ensures
        f.ticks(n).cycles == f.ticks(n).retired + if f.ticks(n).filled {
            1int
        } else {
            0int
        },
        f.ticks(n).halted == f.ticks(n).iss.halted,
    decreases n,
{
    if n > 0 && !f.halted {
        law_cycles_follow_instructions(f.tick(), (n - 1) as nat);
    }
}

/// The simulator state that a tile CPU stands for, without devices or main memory.
pub open spec fn taken_from(cpu: TileCpuV2) -> IssModel {
    IssModel {
        pc: cpu.arch.pc,
        lr: cpu.arch.lr,
        flag_z: cpu.arch.flag_z,
        flag_c: cpu.arch.flag_c,
        halted: cpu.arch.halted,
        regs: cpu.arch.regs@,
        ram: cpu.mem.ram@,
        main_mem: Seq::empty(),
        mem_addr_mask: 127,
        ports: None,
    }
}

/// The grid with the first `n` scratchpad tiles holding the given words.
pub open spec fn with_ram(idx: V2CpuIndices, ram: Seq<u64>, n: nat, g: Grid) -> Grid
    decreases n,
{
    if n == 0 {
        g
    } else {
        with_ram(idx, ram, (n - 1) as nat, g).put(idx.ram_indices@[n - 1] as int, ram[n - 1])
    }
}

/// The tile CPU has taken over a simulator state.
pub open spec fn synced(before: TileCpuV2, after: TileCpuV2, s: V2IssState) -> bool {
    let mask = before.mode.pc_phys_mask;
    &&& after.arch.regs@ == s.regs@
    &&& after.arch == (ArchState {
        regs: after.arch.regs,
        pc: s.pc & mask,
        lr: s.lr & mask,
        flag_z: s.flag_z,
        flag_c: s.flag_c,
        halted: s.halted,
    })
    &&& after.mem.ram@ == s.mem.ram@
    &&& after.mem.main_mem@ == before.mem.main_mem@
    &&& after.mem.mem_addr_mask == before.mem.mem_addr_mask
    &&& after == (TileCpuV2 {
        arch: after.arch,
        mem: after.mem,
        pipe: PipelineState { force_full_dirty: true, ..before.pipe },
        ..before
    })
}

/// The grid after a tile CPU has taken over a simulator state.
pub open spec fn with_state(cpu: TileCpuV2, s: V2IssState, g: Grid) -> Grid {
    let r = with_ram(cpu.idx, s.mem.ram@, 128, with_regs(cpu.idx, s.regs@, 16, g));
    with_pc(cpu.idx, s.pc & cpu.mode.pc_phys_mask, r).put(
        cpu.idx.flag_z_idx as int,
        if s.flag_z {
            1
        } else {
            0
        },
    ).put(
        cpu.idx.flag_c_idx as int,
        if s.flag_c {
            1
        } else {
            0
        },
    )
}

impl V2FastCpu {
    /// The simulator is well formed and runs the program the CPU was made with.
    pub open spec fn wf(self) -> bool {
        &&& self.iss.wf()
        &&& self.iss.program@ == self.program_words@
        &&& self.uses_mmio == (self.iss.ports is Some)
    }

    fn new_inner(iss: V2Iss, program: &Vec<u32>, uses_mmio: bool) -> (c: Self)
        requires
            iss.wf(),
            iss.program@ == program@,
            uses_mmio == (iss.ports is Some),
        ensures
            c.wf(),
            c.iss == iss,
            c@ == (FastModel {
                iss: iss@,
                program: program@,
                mask: iss.pc_mask,
                cycles: 0,
                retired: 0,
                valid: false,
                filled: false,
                halted: false,
            }),
    {
        let mut words: Vec<u32> = Vec::new();
        words.extend_from_slice(program.as_slice());
        assert(words@ =~= program@);
        V2FastCpu {
            iss,
            program_words: words,
            cycle_count: 0,
            retired_count: 0,
            last_stage_x_valid: false,
            pipeline_filled: false,
            halted: false,
            uses_mmio,
        }
    }

    /// A CPU at reset, without devices.
    pub fn from_program(program: &Vec<u32>) -> (c: Self)
        ensures
            c.wf(),
            c@ == FastModel::at_reset(program@, None),
            c.iss.state.math_is_clear(),
    {
        let iss: V2Iss = V2Iss::from_program(program);
        V2FastCpu::new_inner(iss, program, false)
    }

    /// A CPU at reset, with a device window.
    pub fn from_program_with_mmio(program: &Vec<u32>) -> (c: Self)
        ensures
            c.wf(),
            c@ == FastModel::at_reset(program@, Some(quiet_ports())),
            c.iss.state.math_is_clear(),
    {
        let iss: V2Iss = V2Iss::from_program_with_mmio(program);
        V2FastCpu::new_inner(iss, program, true)
    }

    /// Take over the state and the cycle counts of a tile CPU. Its program has to be given.
    pub fn from_tile_cpu(cpu: &TileCpuV2, sim: &Simulation, program: &Vec<u32>) -> (c: Self)
        requires
            cpu.mem.wf(),
        ensures
            c.wf(),
            c@ == (FastModel {
                iss: taken_from(*cpu),
                program: program@,
                mask: 0x7F,
                cycles: cpu.pipe.cycle_count as int,
                retired: cpu.pipe.retired_count as int,
                valid: cpu.pipe.last_stage_x_valid,
                filled: cpu.pipe.cycle_count >= 1,
                halted: cpu.arch.halted,
            }),
            c.iss.state.math_is_clear(),
    {
        let mut c: V2FastCpu = V2FastCpu::from_program(program);
        c.iss.state.pc = cpu.read_pc(sim);
        c.iss.state.lr = cpu.read_lr();
        c.iss.state.flag_z = cpu.read_flag_z(sim);
        c.iss.state.flag_c = cpu.read_flag_c(sim);
        c.iss.state.halted = cpu.is_halted();
        c.iss.state.regs = cpu.arch.regs;
        c.iss.state.mem.ram = cpu.mem.ram;
        c.cycle_count = cpu.read_cycle_count();
        c.retired_count = cpu.read_retired_count();
        c.halted = cpu.is_halted();
        c.pipeline_filled = cpu.read_cycle_count() >= 1;
        c.last_stage_x_valid = cpu.last_stage_x_valid();
        assert(c.iss@ =~= taken_from(*cpu));
        c
    }

    /// Move the state into a tile CPU and its tiles.
    pub fn sync_to_tile_cpu(&self, cpu: &mut TileCpuV2, sim: &mut Simulation)
        requires
            self.wf(),
            old(cpu).on(*old(sim)),
            old(cpu).mem.wf(),
        ensures
            synced(*old(cpu), *final(cpu), self.iss.state),
            final(sim)@ == with_state(*old(cpu), self.iss.state, old(sim)@),
            final(cpu).mem.wf(),
            final(sim).wf(),
            final(sim).len() == old(sim).len(),
    {
        let ghost cpu0 = *cpu;
        let ghost g = sim@;
        let ghost n = sim.len();
        let mut i: usize = 0;
        while i < 16
            invariant
                i <= 16,
                sim.wf(),
                sim.len() == n,
                cpu0.idx.fits(n),
                sim@ == with_regs(cpu0.idx, self.iss.state.regs@, i as nat, g),
                forall|k: int| 0 <= k < i ==> #[trigger] cpu.arch.regs@[k]
                    == self.iss.state.regs@[k],
                *cpu == (TileCpuV2 {
                    arch: ArchState { regs: cpu.arch.regs, ..cpu0.arch },
                    pipe: PipelineState {
                        force_full_dirty: cpu0.pipe.force_full_dirty || i > 0,
                        ..cpu0.pipe
                    },
                    ..cpu0
                }),
            decreases 16 - i,
        {
            cpu.write_reg(sim, i, self.iss.state.regs[i]);
            i = i + 1;
        }
        assert(cpu.arch.regs@ =~= self.iss.state.regs@);
        let ghost cpu1 = *cpu;
        let ghost g1 = sim@;
        let mut a: usize = 0;
        while a < 128
            invariant
                a <= 128,
                sim.wf(),
                sim.len() == n,
                cpu1.idx.fits(n),
                cpu.mem.wf(),
                sim@ == with_ram(cpu1.idx, self.iss.state.mem.ram@, a as nat, g1),
                forall|k: int| 0 <= k < a ==> #[trigger] cpu.mem.ram@[k]
                    == self.iss.state.mem.ram@[k],
                cpu.mem.main_mem@ == cpu1.mem.main_mem@,
                cpu.mem.mem_addr_mask == cpu1.mem.mem_addr_mask,
                *cpu == (TileCpuV2 { mem: cpu.mem, ..cpu1 }),
            decreases 128 - a,
        {
            cpu.write_ram(sim, a, self.iss.state.mem.ram[a]);
            a = a + 1;
        }
        assert(cpu.mem.ram@ =~= self.iss.state.mem.ram@);
        cpu.write_pc(sim, self.iss.state.pc);
        cpu.write_lr(self.iss.state.lr);
        cpu.write_flag_z(sim, self.iss.state.flag_z);
        cpu.write_flag_c(sim, self.iss.state.flag_c);
        cpu.set_halted(self.iss.state.halted);
    }

    /// Execute one cycle. The first one fills the pipeline; a halted CPU does nothing.
    pub fn tick(&mut self) -> (r: V2FastTickResult)
        requires
            old(self).wf(),
            old(self).halted || old(self).cycle_count < u64::MAX,
            old(self).halted || old(self).retired_count < u64::MAX,
        ensures
            final(self)@ == old(self)@.tick(),
            r == (V2FastTickResult {
                retired: final(self).last_stage_x_valid,
                cycle_count: final(self).cycle_count,
            }),
            final(self).wf(),
    {
        if self.halted {
            self.last_stage_x_valid = false;
            return V2FastTickResult { retired: false, cycle_count: self.cycle_count };
        }
        self.cycle_count = self.cycle_count + 1;
        if !self.pipeline_filled {
            self.pipeline_filled = true;
            self.last_stage_x_valid = false;
            return V2FastTickResult { retired: false, cycle_count: self.cycle_count };
        }
        let ran: bool = self.iss.step();
        if ran {
            self.retired_count = self.retired_count + 1;
        }
        self.last_stage_x_valid = ran;
        if self.iss.state.halted {
            self.halted = true;
        }
        V2FastTickResult { retired: ran, cycle_count: self.cycle_count }
    }

    fn run_iss_batch(&mut self, max_instructions: u64) -> (count: u64)
        requires
            old(self).wf(),
            old(self).cycle_count + max_instructions <= u64::MAX,
            old(self).retired_count + max_instructions <= u64::MAX,
        ensures
            final(self)@ == old(self)@.instructions(max_instructions as nat),
            count == run_count(
                old(self)@.iss,
                old(self)@.program,
                old(self)@.mask,
                max_instructions as nat,
            ),
            count <= max_instructions,
            final(self).wf(),
    {
        let ghost m = self.iss@;
        let ghost program = self.iss.program@;
        let ghost mask = self.iss.pc_mask;
        let ghost total = run_count(m, program, mask, max_instructions as nat);
        let mut count: u64 = 0;
        let mut running: bool = !self.iss.state.halted;
        while running && count < max_instructions
            invariant
                count <= max_instructions,
                self.wf(),
                self.iss.program@ == program,
                self.iss.pc_mask == mask,
                self.iss@ == steps(m, program, mask, count as nat),
                running == !self.iss@.halted,
                count + run_count(
                    self.iss@,
                    program,
                    mask,
                    (max_instructions - count) as nat,
                ) == total,
                self.program_words == old(self).program_words,
                self.uses_mmio == old(self).uses_mmio,
                self.cycle_count == old(self).cycle_count,
                self.retired_count == old(self).retired_count,
                self.pipeline_filled == old(self).pipeline_filled,
            decreases max_instructions - count,
        {
            let _ran: bool = self.iss.step();
            count = count + 1;
            running = !self.iss.state.halted;
        }
        proof {
            assert(run_count(self.iss@, program, mask, (max_instructions - count) as nat) == 0);
        }
        self.retired_count = self.retired_count + count;
        self.cycle_count = self.cycle_count + count;
        self.halted = self.iss.state.halted;
        self.last_stage_x_valid = count > 0;
        count
    }

    /// Run up to `max_cycles` cycles, until the CPU halts. Returns how many.
    pub fn run_batch(&mut self, max_cycles: u64) -> (used: u64)
        requires
            old(self).wf(),
            old(self).halted || old(self).cycle_count + max_cycles <= u64::MAX,
            old(self).halted || old(self).retired_count + max_cycles <= u64::MAX,
        ensures
            final(self)@ == old(self)@.batch(max_cycles as nat),
            used == final(self).cycle_count - old(self).cycle_count,
            used <= max_cycles,
            used < max_cycles ==> final(self).halted,
            final(self).wf(),
    {
        proof {
            law_batch_stops_at_its_limit_or_a_halt(self@, max_cycles as nat);
        }
        if self.halted || max_cycles == 0 {
            return 0;
        }
        let mut used: u64 = 0;
        if !self.pipeline_filled {
            self.pipeline_filled = true;
            self.cycle_count = self.cycle_count + 1;
            self.last_stage_x_valid = false;
            used = 1;
            if used >= max_cycles {
                return used;
            }
        }
        let ran: u64 = self.run_iss_batch(max_cycles - used);
        used + ran
    }

    /// A register.
    pub fn read_reg(&self, reg: usize) -> (v: u64)
        requires
            reg < 16,
        ensures
            v == self@.iss.regs[reg as int],
    {
        self.iss.state.regs[reg]
    }

    /// A scratchpad word; zero for an address that is none.
    pub fn read_ram(&self, addr: usize) -> (v: u64)
        ensures
            v == if addr < 128 {
                self@.iss.ram[addr as int]
            } else {
                0
            },
    {
        if addr < 128 {
            self.iss.state.mem.ram[addr]
        } else {
            0
        }
    }

    pub fn read_pc(&self) -> (v: u32)
        ensures
            v == self@.iss.pc,
    {
        self.iss.state.pc
    }

    pub fn read_lr(&self) -> (v: u32)
        ensures
            v == self@.iss.lr,
    {
        self.iss.state.lr
    }

    pub fn read_flag_z(&self) -> (v: bool)
        ensures
            v == self@.iss.flag_z,
    {
        self.iss.state.flag_z
    }

    pub fn read_flag_c(&self) -> (v: bool)
        ensures
            v == self@.iss.flag_c,
    {
        self.iss.state.flag_c
    }

    pub fn is_halted(&self) -> (v: bool)
        ensures
            v == self@.halted,
    {
        self.halted
    }

    pub fn cycle_count(&self) -> (v: u64)
        ensures
            v == self@.cycles,
    {
        self.cycle_count
    }

    pub fn retired_count(&self) -> (v: u64)
        ensures
            v == self@.retired,
    {
        self.retired_count
    }

    pub fn last_stage_x_valid(&self) -> (v: bool)
        ensures
            v == self@.valid,
    {
        self.last_stage_x_valid
    }

    /// The simulator's state.
    pub fn state(&self) -> (r: &V2IssState)
        ensures
            *r == self.iss.state,
    {
        &self.iss.state
    }

    /// The simulator's state, to change.
    pub fn state_mut(&mut self) -> (r: &mut V2IssState)
        ensures
            *r == old(self).iss.state,
            *final(self) == (V2FastCpu {
                iss: V2Iss { state: *final(r), ..old(self).iss },
                ..*old(self)
            }),
    {
        &mut self.iss.state
    }

    /// The program the CPU was made with.
    pub fn program_words(&self) -> (r: &Vec<u32>)
        ensures
            *r == self.program_words,
    {
        &self.program_words
    }

    pub fn mailbox_in_send(&self) -> (v: u64)
        ensures
            v == in_send(self@.iss),
    {
        self.iss.mailbox_in_send()
    }

    pub fn mailbox_out_send(&self) -> (v: u64)
        ensures
            v == out_send(self@.iss),
    {
        self.iss.mailbox_out_send()
    }

    /// Set what the left neighbour sent.
    pub fn set_mailbox_in_recv(&mut self, v: u64)
        requires
            old(self).wf(),
        ensures
            final(self)@ == (FastModel { iss: with_in_recv(old(self)@.iss, v), ..old(self)@ }),
            final(self).wf(),
    {
        self.iss.set_mailbox_in_recv(v);
    }

    /// Set what the right neighbour sent.
    pub fn set_mailbox_out_recv(&mut self, v: u64)
        requires
            old(self).wf(),
        ensures
            final(self)@ == (FastModel { iss: with_out_recv(old(self)@.iss, v), ..old(self)@ }),
            final(self).wf(),
    {
        self.iss.set_mailbox_out_recv(v);
    }

    /// Forget what was sent to both neighbours.
    pub fn clear_mailbox_sends(&mut self)
        requires
            old(self).wf(),
        ensures
            final(self)@ == (FastModel { iss: without_sends(old(self)@.iss), ..old(self)@ }),
            final(self).wf(),
    {
        self.iss.clear_mailbox_sends();
    }
}

/// What was last sent to the left neighbour.
pub open spec fn in_send(m: IssModel) -> u64 {
    match m.ports {
        Some(p) => p.in_send,
        None => 0,
    }
}

/// What was last sent to the right neighbour.
pub open spec fn out_send(m: IssModel) -> u64 {
    match m.ports {
        Some(p) => p.out_send,
        None => 0,
    }
}

/// A hash with one more word mixed in.
pub open spec fn mixed(acc: u64, v: u64) -> u64 {
    let x = acc ^ v.wrapping_mul(0x9E37_79B9_7F4A_7C15);
    ((x << 27u64) | (x >> 37u64)).wrapping_mul(0x94D0_49BB_1331_11EB)
}

/// A hash with one more word mixed in.
pub fn mix_hash(acc: u64, v: u64) -> (h: u64)
    ensures
        h == mixed(acc, v),
{
    let x: u64 = acc ^ v.wrapping_mul(0x9E37_79B9_7F4A_7C15);
    ((x << 27u64) | (x >> 37u64)).wrapping_mul(0x94D0_49BB_1331_11EB)
}

/// A hash with the first `n` words of a list mixed in.
pub open spec fn mixed_all(acc: u64, words: Seq<u64>, n: nat) -> u64
    decreases n,
{
    if n == 0 {
        acc
    } else {
        mixed(mixed_all(acc, words, (n - 1) as nat), words[n - 1])
    }
}

/// A condition as a word.
pub open spec fn flag_word(b: bool) -> u64 {
    if b {
        1
    } else {
        0
    }
}

fn bool_word(b: bool) -> (r: u64)
    ensures
        r == flag_word(b),
{
    if b {
        1
    } else {
        0
    }
}

/// The hash of an architectural state: program counter, link register, flags, halted, registers,
/// scratchpad.
pub open spec fn state_hash(
    pc: u32,
    lr: u32,
    z: bool,
    c: bool,
    halted: bool,
    regs: Seq<u64>,
    ram: Seq<u64>,
) -> u64 {
    let h1 = mixed(mixed(0xCBF2_9CE4_8422_2325, pc as u64), lr as u64);
    let h2 = mixed(mixed(mixed(h1, flag_word(z)), flag_word(c)), flag_word(halted));
    mixed_all(mixed_all(h2, regs, 16), ram, 128)
}

/// The hash of an architectural state.
pub fn hash_arch(
    pc: u32,
    lr: u32,
    z: bool,
    c: bool,
    halted: bool,
    regs: &[u64; 16],
    ram: &[u64; 128],
) -> (h: u64)
    ensures
        h == state_hash(pc, lr, z, c, halted, regs@, ram@),
{
    let mut h: u64 = mix_hash(mix_hash(0xCBF2_9CE4_8422_2325, pc as u64), lr as u64);
    h = mix_hash(mix_hash(mix_hash(h, bool_word(z)), bool_word(c)), bool_word(halted));
    let ghost h2 = h;
    let mut i: usize = 0;
    while i < 16
        invariant
            i <= 16,
            h == mixed_all(h2, regs@, i as nat),
        decreases 16 - i,
    {
        h = mix_hash(h, regs[i]);
        i = i + 1;
    }
    let ghost h3 = h;
    let mut a: usize = 0;
    while a < 128
        invariant
            a <= 128,
            h == mixed_all(h3, ram@, a as nat),
        decreases 128 - a,
    {
        h = mix_hash(h, ram[a]);
        a = a + 1;
    }
    h
}

/// The hash of a simulator state.
pub fn hash_v2_iss_state(s: &V2IssState) -> (h: u64)
    ensures
        h == state_hash(s.pc, s.lr, s.flag_z, s.flag_c, s.halted, s.regs@, s.mem.ram@),
{
    hash_arch(s.pc, s.lr, s.flag_z, s.flag_c, s.halted, &s.regs, &s.mem.ram)
}

} // verus!
