//! How the pipeline settles: which kernel runs, what the memos save it, and what is counted.
use vstd::prelude::*;

use crate::cpu::TileCpuV2;
use crate::memo::{
    law_keeping_stays_exact, memo_is_sound, tile_values, AdaptiveDecode, MemoLookup, SettleMemo,
};
use crate::scopes::EvalScopes;
use crate::simulation::{drained, restored, Grid, Simulation};
use crate::state::PropCounters;

verus! {

/// Which kernels are asked for, besides the memos.
#[derive(Clone, Copy, Debug, PartialEq, Eq, Structural)]
pub struct SettleFlags {
    pub hybrid: bool,
    pub two_phase: bool,
    pub no_dirty: bool,
    pub prefiltered: bool,
}

/// How a settle runs.
#[derive(Clone, Copy, Debug, PartialEq, Eq, Structural)]
pub enum SettlePath {
    /// The decode part is restored, the execute part evaluated.
    DecodeHit,
    /// Everything is evaluated, and the decode part kept.
    DecodeMiss,
    /// Everything is restored.
    MemoHit,
    /// Everything is evaluated and kept.
    MemoMiss,
    /// One pass; the backbone is evaluated unconditionally.
    Hybrid,
    /// The backbone unconditionally, then everything that is marked.
    TwoPhase,
    /// Everything unconditionally.
    NoDirty,
    /// What is marked, found through the slot table.
    Prefiltered,
    /// What is marked, skipping clean blocks.
    BlockSkip,
    /// What is marked, operation by operation.
    Compact,
    /// The same over the whole pipeline.
    Pipeline,
    /// Tile by tile in the levelized order.
    Levelized,
}

/// The kernel of a settle that no memo serves.
pub open spec fn kernel_path(
    flags: SettleFlags,
    s: EvalScopes,
    inhibited: bool,
    stale: bool,
) -> SettlePath {
    let ops = s.settle.ops@.len() > 0;
    if inhibited || stale {
        SettlePath::Levelized
    } else if flags.hybrid && ops && s.backbone_set@.len() > 0 {
        SettlePath::Hybrid
    } else if flags.two_phase && s.backbone.ops@.len() > 0 && s.fringe.ops@.len() > 0
        && s.backbone_set@.len() > 0 {
        SettlePath::TwoPhase
    } else if flags.no_dirty && ops && s.settle_set@.len() > 0 {
        SettlePath::NoDirty
    } else if flags.prefiltered && s.settle_slots.idx_to_slot@.len() > 0 {
        SettlePath::Prefiltered
    } else if s.settle_blocks.seg_offsets@.len() > 0 {
        SettlePath::BlockSkip
    } else if ops {
        SettlePath::Compact
    } else if s.pipeline.ops@.len() > 0 {
        SettlePath::Pipeline
    } else {
        SettlePath::Levelized
    }
}

/// The kernel of a settle that no memo serves.
pub fn choose_kernel(
    flags: &SettleFlags,
    s: &EvalScopes,
    inhibited: bool,
    stale: bool,
) -> (p: SettlePath)
    ensures
        p == kernel_path(*flags, *s, inhibited, stale),
{
    let ops: bool = s.settle.ops.len() > 0;
    if inhibited || stale {
        SettlePath::Levelized
    } else if flags.hybrid && ops && s.backbone_set.len() > 0 {
        SettlePath::Hybrid
    } else if flags.two_phase && s.backbone.ops.len() > 0 && s.fringe.ops.len() > 0
        && s.backbone_set.len() > 0 {
        SettlePath::TwoPhase
    } else if flags.no_dirty && ops && s.settle_set.len() > 0 {
        SettlePath::NoDirty
    } else if flags.prefiltered && s.settle_slots.idx_to_slot.len() > 0 {
        SettlePath::Prefiltered
    } else if s.settle_blocks.seg_offsets.len() > 0 {
        SettlePath::BlockSkip
    } else if ops {
        SettlePath::Compact
    } else if s.pipeline.ops.len() > 0 {
        SettlePath::Pipeline
    } else {
        SettlePath::Levelized
    }
}

/// The decode memo is there to be asked.
pub open spec fn decode_memo_ready(
    m: SettleMemo,
    s: EvalScopes,
    inhibited: bool,
    stale: bool,
) -> bool {
    m.enabled && m.input_indices@.len() > 0 && s.execute.ops@.len() > 0 && !inhibited && !stale
}

/// The settle memo is there to be asked.
pub open spec fn settle_memo_ready(m: SettleMemo, inhibited: bool, stale: bool) -> bool {
    m.enabled && m.input_indices@.len() > 0 && m.output_indices@.len() > 0 && !inhibited && !stale
}

/// How a settle of the grid runs: by the decode memo where it is used, else by the settle memo
/// where it is ready, else by a kernel.
pub open spec fn settle_path(
    decode: SettleMemo,
    uses_decode: bool,
    memo: SettleMemo,
    flags: SettleFlags,
    s: EvalScopes,
    inhibited: bool,
    stale: bool,
    g: Grid,
) -> SettlePath {
    if uses_decode {
        if decode.snapshot_for(tile_values(decode.input_indices@, g)) is Some {
            SettlePath::DecodeHit
        } else {
            SettlePath::DecodeMiss
        }
    } else if settle_memo_ready(memo, inhibited, stale) {
        if memo.snapshot_for(tile_values(memo.input_indices@, g)) is Some {
            SettlePath::MemoHit
        } else {
            SettlePath::MemoMiss
        }
    } else {
        kernel_path(flags, s, inhibited, stale)
    }
}

/// The grid with a memo's outputs taken from a snapshot.
pub open spec fn with_snapshot(m: SettleMemo, snapshot: Seq<u64>, g: Grid) -> Grid {
    Grid {
        values: restored(g.values, m.output_indices@, snapshot, m.output_indices@.len()),
        ..g
    }
}

/// A settle under way: how it runs, and for a memo miss the inputs and their hash.
pub struct SettlePlan {
    pub path: SettlePath,
    pub key: u64,
    pub inputs: Vec<u64>,
}

/// Begin a settle: decide how it runs, and restore what a memo has kept.
///
/// `lookups` and `pays` are for the gating of the decode memo: how often it was asked, and
/// whether its hit rate reaches the threshold.
pub fn begin_settle(
    decode: &SettleMemo,
    adaptive: &mut AdaptiveDecode,
    lookups: u64,
    pays: bool,
    memo: &SettleMemo,
    flags: &SettleFlags,
    s: &EvalScopes,
    inhibited: bool,
    stale: bool,
    sim: &mut Simulation,
) -> (plan: SettlePlan)
    requires
        old(sim).wf(),
        decode.wf(),
        decode.fits(old(sim).len()),
        memo.wf(),
        memo.fits(old(sim).len()),
        old(adaptive).skipped < u64::MAX,
    ensures
        ({
            let ready = decode_memo_ready(*decode, *s, inhibited, stale);
            let uses = ready && old(adaptive).uses(lookups as int, pays);
            let g = old(sim)@;
            let asked = if uses {
                *decode
            } else {
                *memo
            };
            let inputs = tile_values(asked.input_indices@, g);
            &&& plan.path == settle_path(*decode, uses, *memo, *flags, *s, inhibited, stale, g)
            &&& *final(adaptive) == if ready {
                old(adaptive).after(lookups as int, pays)
            } else {
                *old(adaptive)
            }
            &&& match plan.path {
                SettlePath::DecodeHit | SettlePath::MemoHit => final(sim)@ == with_snapshot(
                    asked,
                    asked.snapshot_for(inputs)->0,
                    g,
                ),
                _ => final(sim)@ == g,
            }
            &&& match plan.path {
                SettlePath::DecodeMiss | SettlePath::MemoMiss => {
                    &&& plan.inputs@ == inputs
                    &&& plan.key == crate::cache::words_hash(inputs)
                },
                _ => true,
            }
        }),
        final(sim).wf(),
        final(sim).len() == old(sim).len(),
{
    let ready: bool = decode.enabled && decode.input_indices.len() > 0 && s.execute.ops.len() > 0
        && !inhibited && !stale;
    if ready && adaptive.should_use_cache(lookups, pays) {
        let found: MemoLookup = decode.lookup(sim);
        return match found.snapshot {
            Some(v) => {
                decode.restore(sim, &v);
                SettlePlan { path: SettlePath::DecodeHit, key: found.key, inputs: found.inputs }
            },
            None => SettlePlan {
                path: SettlePath::DecodeMiss,
                key: found.key,
                inputs: found.inputs,
            },
        };
    }
    if memo.enabled && memo.input_indices.len() > 0 && memo.output_indices.len() > 0 && !inhibited
        && !stale {
        let found: MemoLookup = memo.lookup(sim);
        return match found.snapshot {
            Some(v) => {
                memo.restore(sim, &v);
                SettlePlan { path: SettlePath::MemoHit, key: found.key, inputs: found.inputs }
            },
            None => SettlePlan {
                path: SettlePath::MemoMiss,
                key: found.key,
                inputs: found.inputs,
            },
        };
    }
    SettlePlan { path: choose_kernel(flags, s, inhibited, stale), key: 0, inputs: Vec::new() }
}

/// The marks inside the settle are cleared after it: the kernel left them, or did not run.
pub open spec fn path_drains(p: SettlePath) -> bool {
    match p {
        SettlePath::DecodeHit | SettlePath::DecodeMiss | SettlePath::MemoHit | SettlePath::MemoMiss
        | SettlePath::Hybrid | SettlePath::TwoPhase | SettlePath::NoDirty => true,
        _ => false,
    }
}

/// How many operations a settle goes through.
pub open spec fn path_scan(p: SettlePath, s: EvalScopes, order: nat) -> int {
    match p {
        SettlePath::DecodeHit => s.execute.ops@.len() as int,
        SettlePath::MemoHit => 0,
        SettlePath::TwoPhase => (s.backbone.ops@.len() + s.settle.ops@.len()) as int,
        SettlePath::Pipeline => s.pipeline.ops@.len() as int,
        SettlePath::Levelized => order as int,
        _ => s.settle.ops@.len() as int,
    }
}

/// The counters after a pass that evaluated `e` tiles and went through `scan` operations.
pub open spec fn counted_pass(c: PropCounters, e: int, scan: int) -> PropCounters {
    PropCounters {
        propagate_calls_total: (c.propagate_calls_total + 1) as u64,
        propagate_tiles_total: (c.propagate_tiles_total + e) as u64,
        compact_scan_total: (c.compact_scan_total + scan) as u64,
        compact_active_total: (c.compact_active_total + e) as u64,
        ..c
    }
}

/// The counters after a settle.
pub open spec fn counted_settle(
    c: PropCounters,
    p: SettlePath,
    e: int,
    scan: int,
) -> PropCounters {
    let total = match p {
        SettlePath::BlockSkip => e,
        _ => scan,
    };
    PropCounters {
        prop_settle_calls: (c.prop_settle_calls + 1) as u64,
        prop_settle_evals: (c.prop_settle_evals + e) as u64,
        prop_settle_scan: (c.prop_settle_scan + scan) as u64,
        ..counted_pass(c, e, total)
    }
}

impl PropCounters {
    /// Count a pass.
    pub fn record_pass(&mut self, e: u32, scan: u64)
        requires
            old(self).room(1),
            old(self).room(e as int),
            old(self).room(scan as int),
        ensures
            *final(self) == counted_pass(*old(self), e as int, scan as int),
    {
        self.propagate_calls_total = self.propagate_calls_total + 1;
        self.propagate_tiles_total = self.propagate_tiles_total + e as u64;
        self.compact_scan_total = self.compact_scan_total + scan;
        self.compact_active_total = self.compact_active_total + e as u64;
    }

    /// Count a pass with the operand selectors constant.
    pub fn record_constswap(&mut self, e: u32, scan: u64)
        requires
            old(self).room(1),
            old(self).room(e as int),
            old(self).room(scan as int),
        ensures
            *final(self) == (PropCounters {
                prop_constswap_calls: (old(self).prop_constswap_calls + 1) as u64,
                prop_constswap_evals: (old(self).prop_constswap_evals + e) as u64,
                ..counted_pass(*old(self), e as int, scan as int)
            }),
    {
        self.record_pass(e, scan);
        self.prop_constswap_calls = self.prop_constswap_calls + 1;
        self.prop_constswap_evals = self.prop_constswap_evals + e as u64;
    }

    /// Count a pass over the fetch cone.
    pub fn record_cone(&mut self, e: u32, scan: u64)
        requires
            old(self).room(1),
            old(self).room(e as int),
            old(self).room(scan as int),
        ensures
            *final(self) == (PropCounters {
                prop_cone_calls: (old(self).prop_cone_calls + 1) as u64,
                prop_cone_evals: (old(self).prop_cone_evals + e) as u64,
                ..counted_pass(*old(self), e as int, scan as int)
            }),
    {
        self.record_pass(e, scan);
        self.prop_cone_calls = self.prop_cone_calls + 1;
        self.prop_cone_evals = self.prop_cone_evals + e as u64;
    }

    /// Count a branch settle.
    pub fn record_branch(&mut self, e: u32, scan: u64)
        requires
            old(self).room(1),
            old(self).room(e as int),
            old(self).room(scan as int),
        ensures
            *final(self) == (PropCounters {
                prop_branch_calls: (old(self).prop_branch_calls + 1) as u64,
                prop_branch_evals: (old(self).prop_branch_evals + e) as u64,
                ..counted_pass(*old(self), e as int, scan as int)
            }),
    {
        self.record_pass(e, scan);
        self.prop_branch_calls = self.prop_branch_calls + 1;
        self.prop_branch_evals = self.prop_branch_evals + e as u64;
    }

    /// Count a commit settle.
    pub fn record_commit(&mut self, e: u32, scan: u64)
        requires
            old(self).room(1),
            old(self).room(e as int),
            old(self).room(scan as int),
        ensures
            *final(self) == (PropCounters {
                prop_commit_calls: (old(self).prop_commit_calls + 1) as u64,
                prop_commit_evals: (old(self).prop_commit_evals + e) as u64,
                ..counted_pass(*old(self), e as int, scan as int)
            }),
    {
        self.record_pass(e, scan);
        self.prop_commit_calls = self.prop_commit_calls + 1;
        self.prop_commit_evals = self.prop_commit_evals + e as u64;
    }

    /// Count a settle of an operand injection, which goes through `scan` operations. The
    /// totals of scanned and active operations leave it out.
    pub fn record_trunk(&mut self, e: u32, scan: u64)
        requires
            old(self).room(1),
            old(self).room(e as int),
            old(self).room(scan as int),
        ensures
            *final(self) == (PropCounters {
                propagate_calls_total: (old(self).propagate_calls_total + 1) as u64,
                propagate_tiles_total: (old(self).propagate_tiles_total + e) as u64,
                prop_settle_calls: (old(self).prop_settle_calls + 1) as u64,
                prop_settle_evals: (old(self).prop_settle_evals + e) as u64,
                prop_settle_scan: (old(self).prop_settle_scan + scan) as u64,
                ..*old(self)
            }),
    {
        self.propagate_calls_total = self.propagate_calls_total + 1;
        self.propagate_tiles_total = self.propagate_tiles_total + e as u64;
        self.prop_settle_calls = self.prop_settle_calls + 1;
        self.prop_settle_evals = self.prop_settle_evals + e as u64;
        self.prop_settle_scan = self.prop_settle_scan + scan;
    }

    /// Count a probe of the fetch cone that found `residual` tiles not yet settled.
    pub fn record_probe(&mut self, residual: u64)
        requires
            old(self).cone_single_pass_checks < u64::MAX,
            old(self).cone_residual_changes + residual <= u64::MAX,
        ensures
            *final(self) == (PropCounters {
                cone_single_pass_checks: (old(self).cone_single_pass_checks + 1) as u64,
                cone_residual_changes: (old(self).cone_residual_changes + residual) as u64,
                ..*old(self)
            }),
    {
        self.cone_single_pass_checks = self.cone_single_pass_checks + 1;
        self.cone_residual_changes = self.cone_residual_changes + residual;
    }
}

/// How many operations a settle goes through.
pub fn scan_of(p: SettlePath, s: &EvalScopes, order: usize) -> (n: u64)
    requires
        s.backbone.ops@.len() + s.settle.ops@.len() <= u64::MAX,
    ensures
        n == path_scan(p, *s, order as nat),
{
    match p {
        SettlePath::DecodeHit => s.execute.ops.len() as u64,
        SettlePath::MemoHit => 0,
        SettlePath::TwoPhase => s.backbone.ops.len() as u64 + s.settle.ops.len() as u64,
        SettlePath::Pipeline => s.pipeline.ops.len() as u64,
        SettlePath::Levelized => order as u64,
        _ => s.settle.ops.len() as u64,
    }
}

fn drains(p: SettlePath) -> (r: bool)
    ensures
        r == path_drains(p),
{
    match p {
        SettlePath::DecodeHit => true,
        SettlePath::DecodeMiss => true,
        SettlePath::MemoHit => true,
        SettlePath::MemoMiss => true,
        SettlePath::Hybrid => true,
        SettlePath::TwoPhase => true,
        SettlePath::NoDirty => true,
        _ => false,
    }
}

/// A memo after a settle that it served or missed.
pub open spec fn memo_counted(
    before: SettleMemo,
    after: SettleMemo,
    hit: bool,
    miss: bool,
) -> bool {
    &&& after.hits == if hit {
        before.hits + 1
    } else {
        before.hits as int
    }
    &&& after.misses == if miss {
        before.misses + 1
    } else {
        before.misses as int
    }
    &&& after.enabled == before.enabled
    &&& after.input_indices == before.input_indices
    &&& after.output_indices == before.output_indices
    &&& !miss ==> after.cache == before.cache
}

/// A memo that missed some inputs keeps the outputs that the grid holds for them, and nothing
/// else.
pub open spec fn memo_kept(
    before: SettleMemo,
    after: SettleMemo,
    key: u64,
    inputs: Seq<u64>,
    g: Grid,
) -> bool {
    let outputs = tile_values(before.output_indices@, g);
    &&& after.cache.keeps(before.cache, key, inputs, outputs)
    &&& after.snapshot_for(inputs) == if before.cache.capacity > 0 {
        Some(outputs)
    } else {
        None
    }
}

/// A settle that a memo missed leaves every snapshot of the memo exact, when the grid then holds
/// what the settle gives for the inputs that were missed.
pub proof fn law_missed_settles_stay_exact(
    before: SettleMemo,
    after: SettleMemo,
    settle: spec_fn(Seq<u64>) -> Seq<u64>,
    key: u64,
    inputs: Seq<u64>,
    g: Grid,
)
    requires
        memo_is_sound(before, settle),
        memo_kept(before, after, key, inputs, g),
        tile_values(before.output_indices@, g) == settle(inputs),
    ensures
        memo_is_sound(after, settle),
{
    law_keeping_stays_exact(before, after, settle, key, inputs);
}

/// Finish a settle: clear the marks its kernel left, keep what a memo missed, and count.
///
/// `e` is how many tiles the kernel evaluated; a settle that a memo served in full ran none.
pub fn finish_settle(
    plan: SettlePlan,
    decode: &mut SettleMemo,
    memo: &mut SettleMemo,
    s: &EvalScopes,
    order: usize,
    e: u32,
    sim: &mut Simulation,
    c: &mut PropCounters,
)
    requires
        old(sim).wf(),
        old(decode).wf(),
        old(decode).fits(old(sim).len()),
        old(memo).wf(),
        old(memo).fits(old(sim).len()),
        old(decode).hits < u64::MAX,
        old(decode).misses < u64::MAX,
        old(memo).hits < u64::MAX,
        old(memo).misses < u64::MAX,
        plan.path == SettlePath::MemoHit ==> e == 0,
        plan.path == SettlePath::DecodeMiss || plan.path == SettlePath::MemoMiss ==> plan.key
            == crate::cache::words_hash(plan.inputs@),
        s.backbone.ops@.len() + s.settle.ops@.len() <= u64::MAX,
        old(c).room(1),
        old(c).room(e as int),
        old(c).room(path_scan(plan.path, *s, order as nat)),
    ensures
        final(sim)@ == if path_drains(plan.path) {
            Grid { dirty: drained(old(sim)@.dirty, s.settle_set@), ..old(sim)@ }
        } else {
            old(sim)@
        },
        *final(c) == counted_settle(
            *old(c),
            plan.path,
            e as int,
            path_scan(plan.path, *s, order as nat),
        ),
        memo_counted(
            *old(decode),
            *final(decode),
            plan.path == SettlePath::DecodeHit,
            plan.path == SettlePath::DecodeMiss,
        ),
        memo_counted(
            *old(memo),
            *final(memo),
            plan.path == SettlePath::MemoHit,
            plan.path == SettlePath::MemoMiss,
        ),
        plan.path == SettlePath::DecodeMiss ==> memo_kept(
            *old(decode),
            *final(decode),
            plan.key,
            plan.inputs@,
            old(sim)@,
        ),
        plan.path == SettlePath::MemoMiss ==> memo_kept(
            *old(memo),
            *final(memo),
            plan.key,
            plan.inputs@,
            old(sim)@,
        ),
        final(decode).wf(),
        final(memo).wf(),
        final(sim).wf(),
        final(sim).len() == old(sim).len(),
{
    let path: SettlePath = plan.path;
    if drains(path) {
        sim.drain_dirty(&s.settle_set);
    }
    let scan: u64 = scan_of(path, s, order);
    match path {
        SettlePath::DecodeHit => {
            decode.hits = decode.hits + 1;
        },
        SettlePath::DecodeMiss => {
            decode.keep(sim, plan.key, plan.inputs);
            decode.misses = decode.misses + 1;
        },
        SettlePath::MemoHit => {
            memo.hits = memo.hits + 1;
        },
        SettlePath::MemoMiss => {
            memo.keep(sim, plan.key, plan.inputs);
            memo.misses = memo.misses + 1;
        },
        _ => {},
    }
    match path {
        SettlePath::BlockSkip => {
            c.record_pass(e, e as u64);
        },
        _ => {
            c.record_pass(e, scan);
        },
    }
    c.prop_settle_calls = c.prop_settle_calls + 1;
    c.prop_settle_evals = c.prop_settle_evals + e as u64;
    c.prop_settle_scan = c.prop_settle_scan + scan;
}

/// How a settle with constant operand selectors runs.
pub open spec fn constswap_path(prefiltered: bool, s: EvalScopes, stale: bool) -> SettlePath {
    if stale {
        SettlePath::Levelized
    } else if prefiltered && s.constswap_slots.idx_to_slot@.len() > 0 {
        SettlePath::Prefiltered
    } else if s.constswap_blocks.seg_offsets@.len() > 0 {
        SettlePath::BlockSkip
    } else if s.constswap.ops@.len() > 0 {
        SettlePath::Compact
    } else {
        SettlePath::Levelized
    }
}

/// How a settle with constant operand selectors runs.
pub fn choose_constswap_path(prefiltered: bool, s: &EvalScopes, stale: bool) -> (p: SettlePath)
    ensures
        p == constswap_path(prefiltered, *s, stale),
{
    if stale {
        SettlePath::Levelized
    } else if prefiltered && s.constswap_slots.idx_to_slot.len() > 0 {
        SettlePath::Prefiltered
    } else if s.constswap_blocks.seg_offsets.len() > 0 {
        SettlePath::BlockSkip
    } else if s.constswap.ops.len() > 0 {
        SettlePath::Compact
    } else {
        SettlePath::Levelized
    }
}

/// How the fetch cone is evaluated.
#[derive(Clone, Copy, Debug, PartialEq, Eq, Structural)]
pub enum ConePath {
    /// The cone alone, unconditionally.
    Cone,
    /// What is marked in the whole pipeline.
    Pipeline,
    /// Tile by tile in the levelized order.
    Levelized,
}

/// How the fetch cone is evaluated.
pub open spec fn cone_path(s: EvalScopes, inhibited: bool, stale: bool) -> ConePath {
    if inhibited || stale {
        ConePath::Levelized
    } else if s.cone.ops@.len() > 0 && s.cone_set@.len() > 0 {
        ConePath::Cone
    } else if s.pipeline.ops@.len() > 0 {
        ConePath::Pipeline
    } else {
        ConePath::Levelized
    }
}

/// How the fetch cone is evaluated, and how many operations that counts as scanned.
pub fn choose_cone_path(
    s: &EvalScopes,
    order: usize,
    inhibited: bool,
    stale: bool,
) -> (r: (ConePath, u64))
    ensures
        r.0 == cone_path(*s, inhibited, stale),
        r.1 == if s.pipeline.ops@.len() > 0 && !inhibited && !stale {
            s.pipeline.ops@.len() as int
        } else {
            order as int
        },
{
    let scan: u64 = if s.pipeline.ops.len() > 0 && !inhibited && !stale {
        s.pipeline.ops.len() as u64
    } else {
        order as u64
    };
    if inhibited || stale {
        (ConePath::Levelized, scan)
    } else if s.cone.ops.len() > 0 && s.cone_set.len() > 0 {
        (ConePath::Cone, scan)
    } else if s.pipeline.ops.len() > 0 {
        (ConePath::Pipeline, scan)
    } else {
        (ConePath::Levelized, scan)
    }
}

/// How the branch tiles settle.
pub open spec fn branch_path(s: EvalScopes, stale: bool) -> SettlePath {
    if s.branch.ops@.len() > 0 && !stale {
        SettlePath::Compact
    } else {
        SettlePath::Levelized
    }
}

/// How the branch tiles settle, and how many operations that counts as scanned: as many as the
/// longer of the operations and the levelized order has.
pub fn choose_branch_path(s: &EvalScopes, order: usize, stale: bool) -> (r: (SettlePath, u64))
    ensures
        r.0 == branch_path(*s, stale),
        r.1 == if s.branch.ops@.len() >= order {
            s.branch.ops@.len() as int
        } else {
            order as int
        },
{
    let ops: usize = s.branch.ops.len();
    let scan: u64 = if ops >= order {
        ops as u64
    } else {
        order as u64
    };
    if ops > 0 && !stale {
        (SettlePath::Compact, scan)
    } else {
        (SettlePath::Levelized, scan)
    }
}

/// What one counted settle saw: how often each operation switched, and how many operations were
/// in a clean block, in a marked block but not marked, evaluated without effect, evaluated with
/// effect, and constant.
pub struct SwitchCounts {
    pub switched: Vec<u32>,
    pub buckets: [u64; 5],
}

/// Both counts have room for those of one more settle.
pub open spec fn switches_fit(counts: Seq<u32>, buckets: Seq<u64>, pass: SwitchCounts) -> bool {
    &&& pass.switched@.len() == counts.len()
    &&& forall|i: int|
        0 <= i < counts.len() ==> #[trigger] counts[i] + pass.switched@[i] <= u32::MAX
    &&& forall|i: int| 0 <= i < 5 ==> #[trigger] buckets[i] + pass.buckets@[i] <= u64::MAX
}

/// Both counts with those of one more settle.
pub open spec fn switches_added(
    counts: Seq<u32>,
    buckets: Seq<u64>,
    pass: SwitchCounts,
    counts1: Seq<u32>,
    buckets1: Seq<u64>,
) -> bool {
    &&& counts1 == Seq::new(
        counts.len(),
        |i: int| (counts[i] + pass.switched@[i]) as u32,
    )
    &&& buckets1 == Seq::new(5, |i: int| (buckets[i] + pass.buckets@[i]) as u64)
}

impl TileCpuV2 {
    /// A settle of this sort is counted: it skips clean blocks, and counting is on.
    pub open spec fn counts_switches(self, path: SettlePath) -> bool {
        path == SettlePath::BlockSkip && self.settle_switch_counts@.len() > 0
    }

    /// Whether a settle of this sort is counted.
    pub fn get_counts_switches(&self, path: SettlePath) -> (r: bool)
        ensures
            r == self.counts_switches(path),
    {
        match path {
            SettlePath::BlockSkip => self.settle_switch_counts.len() > 0,
            _ => false,
        }
    }

    /// Whether the counts have room for those of one more settle.
    pub fn get_switches_fit(&self, pass: &SwitchCounts) -> (r: bool)
        ensures
            r == switches_fit(
                self.settle_switch_counts@,
                self.settle_overlap_buckets@,
                *pass,
            ),
    {
        let n: usize = self.settle_switch_counts.len();
        if pass.switched.len() != n {
            return false;
        }
        let mut i: usize = 0;
        while i < n
            invariant
                i <= n,
                n == self.settle_switch_counts@.len(),
                pass.switched@.len() == n,
                forall|k: int|
                    0 <= k < i ==> #[trigger] self.settle_switch_counts@[k] + pass.switched@[k]
                        <= u32::MAX,
            decreases n - i,
        {
            if self.settle_switch_counts[i] > u32::MAX - pass.switched[i] {
                assert(self.settle_switch_counts@[i as int] + pass.switched@[i as int] > u32::MAX);
                return false;
            }
            i = i + 1;
        }
        let mut j: usize = 0;
        while j < 5
            invariant
                j <= 5,
                forall|k: int|
                    0 <= k < j ==> #[trigger] self.settle_overlap_buckets@[k] + pass.buckets@[k]
                        <= u64::MAX,
            decreases 5 - j,
        {
            if self.settle_overlap_buckets[j] > u64::MAX - pass.buckets[j] {
                assert(self.settle_overlap_buckets@[j as int] + pass.buckets@[j as int]
                    > u64::MAX);
                return false;
            }
            j = j + 1;
        }
        true
    }

    /// Add what a settle counted. A settle that is not counted adds nothing.
    pub fn add_switch_counts(&mut self, path: SettlePath, pass: &SwitchCounts)
        requires
            old(self).counts_switches(path) ==> switches_fit(
                old(self).settle_switch_counts@,
                old(self).settle_overlap_buckets@,
                *pass,
            ),
        ensures
            old(self).counts_switches(path) ==> switches_added(
                old(self).settle_switch_counts@,
                old(self).settle_overlap_buckets@,
                *pass,
                final(self).settle_switch_counts@,
                final(self).settle_overlap_buckets@,
            ),
            !old(self).counts_switches(path) ==> *final(self) == *old(self),
            *final(self) == (TileCpuV2 {
                settle_switch_counts: final(self).settle_switch_counts,
                settle_overlap_buckets: final(self).settle_overlap_buckets,
                ..*old(self)
            }),
    {
        if !self.get_counts_switches(path) {
            return;
        }
        let n: usize = self.settle_switch_counts.len();
        let mut counts: Vec<u32> = Vec::new();
        let mut i: usize = 0;
        while i < n
            invariant
                i <= n,
                n == self.settle_switch_counts@.len(),
                *self == *old(self),
                switches_fit(self.settle_switch_counts@, self.settle_overlap_buckets@, *pass),
                counts@.len() == i,
                forall|k: int|
                    0 <= k < i ==> #[trigger] counts@[k] == self.settle_switch_counts@[k]
                        + pass.switched@[k],
            decreases n - i,
        {
            assert(self.settle_switch_counts@[i as int] + pass.switched@[i as int] <= u32::MAX);
            counts.push(self.settle_switch_counts[i] + pass.switched[i]);
            i = i + 1;
        }
        let mut buckets: [u64; 5] = self.settle_overlap_buckets;
        let mut j: usize = 0;
        while j < 5
            invariant
                j <= 5,
                *self == *old(self),
                switches_fit(self.settle_switch_counts@, self.settle_overlap_buckets@, *pass),
                forall|k: int|
                    0 <= k < j ==> #[trigger] buckets@[k] == self.settle_overlap_buckets@[k]
                        + pass.buckets@[k],
                forall|k: int|
                    j <= k < 5 ==> #[trigger] buckets@[k] == self.settle_overlap_buckets@[k],
            decreases 5 - j,
        {
            assert(self.settle_overlap_buckets@[j as int] + pass.buckets@[j as int] <= u64::MAX);
            buckets[j] = buckets[j] + pass.buckets[j];
            j = j + 1;
        }
        assert(buckets@ =~= Seq::new(
            5,
            |i: int| (self.settle_overlap_buckets@[i] + pass.buckets@[i]) as u64,
        ));
        assert(counts@ =~= Seq::new(
            self.settle_switch_counts@.len(),
            |i: int| (self.settle_switch_counts@[i] + pass.switched@[i]) as u32,
        ));
        self.settle_switch_counts = counts;
        self.settle_overlap_buckets = buckets;
    }
}

/// Whether the settle of an operand injection may run over what the injection reaches.
pub fn uses_trunk_ops(s: &EvalScopes, stale: bool) -> (r: bool)
    ensures
        r == (s.trunk.ops@.len() > 0 && !stale),
{
    s.trunk.ops.len() > 0 && !stale
}

/// While the tiles differ from what the operations were built for, every settle goes tile by
/// tile and no memo is asked.
pub proof fn law_stale_scopes_are_not_used(
    decode: SettleMemo,
    adaptive: AdaptiveDecode,
    memo: SettleMemo,
    flags: SettleFlags,
    s: EvalScopes,
    inhibited: bool,
    stale: bool,
    lookups: int,
    pays: bool,
    g: Grid,
)
    requires
        inhibited || stale,
    ensures
        settle_path(
            decode,
            decode_memo_ready(decode, s, inhibited, stale) && adaptive.uses(lookups, pays),
            memo,
            flags,
            s,
            inhibited,
            stale,
            g,
        ) == SettlePath::Levelized,
        cone_path(s, inhibited, stale) == ConePath::Levelized,
        stale ==> constswap_path(flags.prefiltered, s, stale) == SettlePath::Levelized,
{
}

} // verus!
