//! Running under a debugger: breakpoints, snapshots, tick bookkeeping and trace entries.
use vstd::prelude::*;

use crate::disassembler::{disassemble_v2_word, word_text};
use crate::execute::MmioLog;
use crate::latch::{PipelineLatch, V2HybridAssistCounters};
use crate::state::{ArchState, PcMode, PipelineState};

verus! {

/// A condition to stop at.
#[derive(Debug, Clone, Copy, PartialEq, Eq, Structural)]
pub enum V2DebugBreakpoint {
    /// The program counter is this address, of which the low seven bits count.
    Pc(u8),
    RegEquals { reg: usize, value: u64 },
    Halted,
}

/// Why a run stopped.
#[derive(Debug, Clone, Copy, PartialEq, Eq, Structural)]
pub enum V2DebugStopReason {
    MaxCycles,
    /// The first breakpoint in the list that matched.
    Breakpoint(usize),
    Halted,
}

/// How a run ended.
#[derive(Debug, Clone, Copy, PartialEq, Eq, Structural)]
pub struct V2DebugRunResult {
    pub cycles: u64,
    pub reason: V2DebugStopReason,
}

/// The architectural state between two ticks, with the instruction about to execute.
#[derive(Debug, Clone, PartialEq, Eq)]
pub struct V2DebugSnapshot {
    pub pc: u32,
    pub ir_low: u8,
    pub ir_ext: u16,
    pub flag_z: bool,
    pub flag_c: bool,
    pub halted: bool,
    pub regs: [u64; 16],
}

/// The breakpoint's condition holds.
pub open spec fn matches_state(arch: ArchState, bp: V2DebugBreakpoint) -> bool {
    match bp {
        V2DebugBreakpoint::Pc(target) => arch.pc == target % 128,
        V2DebugBreakpoint::RegEquals { reg, value } => reg < 16 && arch.regs@[reg as int] == value,
        V2DebugBreakpoint::Halted => arch.halted,
    }
}

/// The breakpoint's condition holds.
pub fn breakpoint_matches(arch: &ArchState, bp: &V2DebugBreakpoint) -> (r: bool)
    ensures
        r == matches_state(*arch, *bp),
{
    match *bp {
        V2DebugBreakpoint::Pc(target) => arch.pc == (target % 128) as u32,
        V2DebugBreakpoint::RegEquals { reg, value } => reg < 16 && arch.regs[reg] == value,
        V2DebugBreakpoint::Halted => arch.halted,
    }
}

/// Breakpoint `i` is the first that matches.
pub open spec fn first_match(arch: ArchState, bps: Seq<V2DebugBreakpoint>, i: int) -> bool {
    &&& 0 <= i < bps.len()
    &&& matches_state(arch, bps[i])
    &&& forall|k: int| 0 <= k < i ==> !matches_state(arch, #[trigger] bps[k])
}

/// Some breakpoint matches.
pub open spec fn any_match(arch: ArchState, bps: Seq<V2DebugBreakpoint>) -> bool {
    exists|k: int| 0 <= k < bps.len() && matches_state(arch, #[trigger] bps[k])
}

/// Decide whether a run stops after its `cycles`th tick: at the first breakpoint that matches,
/// else when the CPU has halted.
pub fn stop_after_tick(arch: &ArchState, cycles: u64, bps: &Vec<V2DebugBreakpoint>) -> (r: Option<
    V2DebugRunResult,
>)
    ensures
        match r {
            Some(res) => res.cycles == cycles && match res.reason {
                V2DebugStopReason::Breakpoint(i) => first_match(*arch, bps@, i as int),
                V2DebugStopReason::Halted => arch.halted && !any_match(*arch, bps@),
                V2DebugStopReason::MaxCycles => false,
            },
            None => !arch.halted && !any_match(*arch, bps@),
        },
{
    let mut i: usize = 0;
    while i < bps.len()
        invariant
            i <= bps@.len(),
            forall|k: int| 0 <= k < i ==> !matches_state(*arch, #[trigger] bps@[k]),
        decreases bps@.len() - i,
    {
        if breakpoint_matches(arch, &bps[i]) {
            return Some(
                V2DebugRunResult { cycles, reason: V2DebugStopReason::Breakpoint(i) },
            );
        }
        i = i + 1;
    }
    if arch.halted {
        Some(V2DebugRunResult { cycles, reason: V2DebugStopReason::Halted })
    } else {
        None
    }
}

/// How a run ends that no tick stopped.
pub fn out_of_cycles(max_cycles: u64) -> (r: V2DebugRunResult)
    ensures
        r == (V2DebugRunResult { cycles: max_cycles, reason: V2DebugStopReason::MaxCycles }),
{
    V2DebugRunResult { cycles: max_cycles, reason: V2DebugStopReason::MaxCycles }
}

/// The architectural state, with the instruction in the latch.
pub fn debug_snapshot(arch: &ArchState, latch: &PipelineLatch) -> (s: V2DebugSnapshot)
    ensures
        s == (V2DebugSnapshot {
            pc: arch.pc,
            ir_low: latch.ir_low,
            ir_ext: latch.ir_ext,
            flag_z: arch.flag_z,
            flag_c: arch.flag_c,
            halted: arch.halted,
            regs: arch.regs,
        }),
{
    V2DebugSnapshot {
        pc: arch.pc,
        ir_low: latch.ir_low,
        ir_ext: latch.ir_ext,
        flag_z: arch.flag_z,
        flag_c: arch.flag_c,
        halted: arch.halted,
        regs: arch.regs,
    }
}

/// The pipeline's state once a tick has begun: a cycle is counted, and an instruction if the latch
/// holds one; an empty latch leaves no register changed.
pub open spec fn begun(p: PipelineState) -> PipelineState {
    PipelineState {
        cycle_count: (p.cycle_count + 1) as u64,
        last_stage_x_valid: p.latch.valid,
        retired_count: if p.latch.valid {
            (p.retired_count + 1) as u64
        } else {
            p.retired_count
        },
        changed_regs_mask: if p.latch.valid {
            p.changed_regs_mask
        } else {
            0
        },
        ..p
    }
}

/// The pipeline's state once a tick was asked for: a halted CPU does not tick, and has executed
/// nothing.
pub open spec fn asked_to_tick(halted: bool, p: PipelineState) -> PipelineState {
    if halted {
        PipelineState { last_stage_x_valid: false, ..p }
    } else {
        begun(p)
    }
}

/// Begin a tick. Returns the number of its cycle, which the devices are told; `None` where there
/// is no tick because the CPU is halted.
pub fn begin_tick(arch: &ArchState, p: &mut PipelineState, log: &mut MmioLog) -> (cycle: Option<
    u64,
>)
    requires
        arch.halted || old(p).cycle_count < u64::MAX,
        arch.halted || old(p).retired_count < u64::MAX,
    ensures
        *final(p) == asked_to_tick(arch.halted, *old(p)),
        cycle == if arch.halted {
            None::<u64>
        } else {
            Some((old(p).cycle_count + 1) as u64)
        },
        arch.halted ==> *final(log) == *old(log),
        !arch.halted ==> final(log).reads@.len() == 0 && final(log).writes@.len() == 0,
{
    if arch.halted {
        p.last_stage_x_valid = false;
        return None;
    }
    log.reads = Vec::new();
    log.writes = Vec::new();
    p.cycle_count = p.cycle_count + 1;
    p.last_stage_x_valid = p.latch.valid;
    if p.latch.valid {
        p.retired_count = p.retired_count + 1;
    } else {
        p.changed_regs_mask = 0;
    }
    Some(p.cycle_count)
}

/// The parts of a tick.
#[derive(Debug, Clone, Copy, PartialEq, Eq, Structural)]
pub enum TickPhase {
    /// The tick has begun.
    Begun,
    /// Stage X executes the latched instruction.
    StageX,
    /// Stage F fetches the next instruction.
    StageF,
    /// Nothing is left to do but to end the tick.
    Ended,
}

/// The part of a tick that follows another: stage X runs only on a valid latch, and nothing is
/// fetched once the CPU is halted.
pub open spec fn phase_after(halted: bool, latched: bool, at: TickPhase) -> TickPhase {
    match at {
        TickPhase::Begun if latched => TickPhase::StageX,
        TickPhase::Begun | TickPhase::StageX => if halted {
            TickPhase::Ended
        } else {
            TickPhase::StageF
        },
        TickPhase::StageF | TickPhase::Ended => TickPhase::Ended,
    }
}

/// The part of a tick that follows another.
pub fn next_phase(arch: &ArchState, p: &PipelineState, at: TickPhase) -> (to: TickPhase)
    ensures
        to == phase_after(arch.halted, p.latch.valid, at),
        to is StageX ==> p.latch.valid,
        to is StageF ==> !arch.halted,
{
    match at {
        TickPhase::Begun => if p.latch.valid {
            TickPhase::StageX
        } else if arch.halted {
            TickPhase::Ended
        } else {
            TickPhase::StageF
        },
        TickPhase::StageX => if arch.halted {
            TickPhase::Ended
        } else {
            TickPhase::StageF
        },
        TickPhase::StageF | TickPhase::Ended => TickPhase::Ended,
    }
}

/// A tick retires an instruction exactly where it says that stage X executed one, and counts a
/// cycle unless the CPU is halted; then nothing else changes. Without a latched instruction, as in
/// the first tick of a CPU, nothing is retired.
pub proof fn law_tick_tells_what_it_retired(halted: bool, p: PipelineState)
    requires
        halted || p.cycle_count < u64::MAX,
        halted || p.retired_count < u64::MAX,
    ensures
        ({
            let q = asked_to_tick(halted, p);
            &&& q.retired_count == p.retired_count + if q.last_stage_x_valid {
                1int
            } else {
                0int
            }
            &&& q.cycle_count == p.cycle_count + if halted {
                0int
            } else {
                1int
            }
            &&& halted ==> q == (PipelineState { last_stage_x_valid: false, ..p })
            &&& !p.latch.valid ==> q.retired_count == p.retired_count
        }),
{
}

/// The pipeline's states before, between and after the ticks of a run from reset. Stages X and F
/// leave the counts as the tick's begin made them, and a CPU that ticks once more has latched an
/// instruction.
pub open spec fn is_run_from_reset(p: Seq<PipelineState>) -> bool {
    &&& p.len() > 0
    &&& p[0].cycle_count == 0
    &&& p[0].retired_count == 0
    &&& !p[0].latch.valid
    &&& forall|i: int|
        0 <= i < p.len() - 1 ==> (#[trigger] p[i + 1]).cycle_count == begun(p[i]).cycle_count
            && p[i + 1].retired_count == begun(p[i]).retired_count
            && p[i + 1].last_stage_x_valid == begun(p[i]).last_stage_x_valid
    &&& forall|i: int| 0 < i < p.len() - 1 ==> (#[trigger] p[i]).latch.valid
}

/// In a run from reset every tick but the first retires an instruction.
pub proof fn law_cycles_follow_retired_instructions(p: Seq<PipelineState>, i: int)
    requires
        is_run_from_reset(p),
        0 <= i < p.len(),
        p.len() <= u64::MAX,
    ensures
        p[i].cycle_count == i,
        p[i].retired_count == if i == 0 {
            0int
        } else {
            i - 1
        },
    decreases i,
{
    if i > 0 {
        law_cycles_follow_retired_instructions(p, i - 1);
        assert(p[(i - 1) + 1].cycle_count == begun(p[i - 1]).cycle_count);
        if i > 1 {
            assert(p[i - 1].latch.valid);
        }
    }
}

/// End a tick with the instruction that was fetched in it; a halted CPU fetched none.
pub fn end_tick(p: &mut PipelineState, fetched: Option<PipelineLatch>)
    ensures
        match fetched {
            Some(l) => *final(p) == (PipelineState { latch: l, ..*old(p) }),
            None => final(p).latch.is_empty_latch() && *final(p) == (PipelineState {
                latch: final(p).latch,
                ..*old(p)
            }),
        },
{
    p.latch =
    match fetched {
        Some(l) => l,
        None => PipelineLatch::empty(),
    };
}

/// A register that an instruction changed.
#[derive(Debug, Clone, Copy, PartialEq, Eq, Structural)]
pub struct V2TraceRegWrite {
    pub reg: u8,
    pub value: u64,
}

/// A memory or device word that an instruction accessed.
#[derive(Debug, Clone, Copy, PartialEq, Eq, Structural)]
pub struct V2TraceMemEvent {
    pub addr: u8,
    pub value: u64,
}

/// What one retired instruction did.
pub struct V2TraceEntry {
    pub cycle: u64,
    pub retired: u64,
    pub pc: u32,
    pub ir_low: u8,
    pub ir_ext: u16,
    pub word: u32,
    pub text: String,
    pub flag_z: bool,
    pub flag_c: bool,
    pub reg_writes: Vec<V2TraceRegWrite>,
    pub ram_writes: Vec<V2TraceMemEvent>,
    pub mmio_reads: Vec<V2TraceMemEvent>,
    pub mmio_writes: Vec<V2TraceMemEvent>,
    pub counters: V2HybridAssistCounters,
}

/// The registers among the first `n` that changed, with their new values.
pub open spec fn reg_changes(before: Seq<u64>, after: Seq<u64>, n: nat) -> Seq<V2TraceRegWrite>
    decreases n,
{
    if n == 0 {
        Seq::empty()
    } else {
        let earlier = reg_changes(before, after, (n - 1) as nat);
        if before[n - 1] != after[n - 1] {
            earlier.push(V2TraceRegWrite { reg: (n - 1) as u8, value: after[n - 1] })
        } else {
            earlier
        }
    }
}

/// The scratchpad words among the first `n` that changed, with their new values.
pub open spec fn ram_changes(before: Seq<u64>, after: Seq<u64>, n: nat) -> Seq<V2TraceMemEvent>
    decreases n,
{
    if n == 0 {
        Seq::empty()
    } else {
        let earlier = ram_changes(before, after, (n - 1) as nat);
        if before[n - 1] != after[n - 1] {
            earlier.push(V2TraceMemEvent { addr: (n - 1) as u8, value: after[n - 1] })
        } else {
            earlier
        }
    }
}

/// Device accesses as trace events.
pub open spec fn events_of(log: Seq<(u8, u64)>) -> Seq<V2TraceMemEvent> {
    Seq::new(log.len(), |i: int| V2TraceMemEvent { addr: log[i].0, value: log[i].1 })
}

fn diff_regs(before: &[u64; 16], after: &[u64; 16]) -> (r: Vec<V2TraceRegWrite>)
    ensures
        r@ == reg_changes(before@, after@, 16),
{
    let mut r: Vec<V2TraceRegWrite> = Vec::new();
    let mut i: usize = 0;
    while i < 16
        invariant
            i <= 16,
            r@ == reg_changes(before@, after@, i as nat),
        decreases 16 - i,
    {
        if before[i] != after[i] {
            r.push(V2TraceRegWrite { reg: i as u8, value: after[i] });
        }
        i = i + 1;
    }
    r
}

fn diff_ram(before: &[u64; 128], after: &[u64; 128]) -> (r: Vec<V2TraceMemEvent>)
    ensures
        r@ == ram_changes(before@, after@, 128),
{
    let mut r: Vec<V2TraceMemEvent> = Vec::new();
    let mut i: usize = 0;
    while i < 128
        invariant
            i <= 128,
            r@ == ram_changes(before@, after@, i as nat),
        decreases 128 - i,
    {
        if before[i] != after[i] {
            r.push(V2TraceMemEvent { addr: i as u8, value: after[i] });
        }
        i = i + 1;
    }
    r
}

fn to_events(log: &Vec<(u8, u64)>) -> (r: Vec<V2TraceMemEvent>)
    ensures
        r@ == events_of(log@),
{
    let mut r: Vec<V2TraceMemEvent> = Vec::new();
    let mut i: usize = 0;
    while i < log.len()
        invariant
            i <= log@.len(),
            r@ == events_of(log@.take(i as int)),
        decreases log@.len() - i,
    {
        r.push(V2TraceMemEvent { addr: log[i].0, value: log[i].1 });
        i = i + 1;
        assert(r@ =~= events_of(log@.take(i as int)));
    }
    assert(log@.take(i as int) =~= log@);
    r
}

/// The trace entry of the instruction that the last tick retired.
pub fn trace_entry(
    latch: &PipelineLatch,
    regs_before: &[u64; 16],
    ram_before: &[u64; 128],
    arch: &ArchState,
    ram: &[u64; 128],
    p: &PipelineState,
    mode: &PcMode,
    log: &MmioLog,
    counters: V2HybridAssistCounters,
) -> (e: V2TraceEntry)
    ensures
        e.cycle == p.cycle_count,
        e.retired == if p.retired_count == 0 {
            0
        } else {
            p.retired_count - 1
        },
        e.pc == latch.pc & mode.pc_phys_mask,
        e.ir_low == latch.ir_low,
        e.ir_ext == latch.ir_ext,
        e.word == latch.ir_ext * 65536 + (latch.opcode % 32) * 2048 + (latch.rd % 8) * 256
            + latch.ir_low,
        e.text@ == word_text(e.word),
        e.flag_z == arch.flag_z,
        e.flag_c == arch.flag_c,
        e.reg_writes@ == reg_changes(regs_before@, arch.regs@, 16),
        e.ram_writes@ == ram_changes(ram_before@, ram@, 128),
        e.mmio_reads@ == events_of(log.reads@),
        e.mmio_writes@ == events_of(log.writes@),
        e.counters == counters,
{
    let word: u32 = latch.compose_word();
    V2TraceEntry {
        cycle: p.cycle_count,
        retired: if p.retired_count == 0 {
            0
        } else {
            p.retired_count - 1
        },
        pc: latch.pc & mode.pc_phys_mask,
        ir_low: latch.ir_low,
        ir_ext: latch.ir_ext,
        word,
        text: disassemble_v2_word(word),
        flag_z: arch.flag_z,
        flag_c: arch.flag_c,
        reg_writes: diff_regs(regs_before, &arch.regs),
        ram_writes: diff_ram(ram_before, ram),
        mmio_reads: to_events(&log.reads),
        mmio_writes: to_events(&log.writes),
        counters,
    }
}

} // verus!
