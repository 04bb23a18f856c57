//! The clock edge: how it is evaluated, and the warm-up that finds the operations worth
//! evaluating.
use vstd::prelude::*;

use crate::compact::{select_ops, select_wvia, OpList, WeightedVia};
use crate::device_plan::CompactOp;
use crate::slots::select;

verus! {

/// Edges counted before a profile is built.
pub const WARMUP_EDGES: u32 = 10;

/// What is known of the edges of one sort: flag-writing or not.
pub struct ClockProfile {
    pub live_ops: Vec<CompactOp>,
    pub live_wvia: Vec<WeightedVia>,
    /// How often each operation switched, while counting; else empty.
    pub counts: Vec<u32>,
    pub warmup_remaining: u32,
}

/// How a clock edge is evaluated.
#[derive(Clone, Copy, Debug, PartialEq, Eq, Structural)]
pub enum ClockPath {
    /// By the schedule, counting what switches.
    Counted,
    /// By the operations that switched during the warm-up.
    Pruned,
    /// By the schedule.
    Scheduled,
    /// By the compact operations.
    Compact,
    /// Tile by tile.
    Lightweight,
}

/// Edges that write flags and edges that do not have separate profiles. Where flags are
/// written by software every edge counts as flag-writing.
pub fn uses_flag_profile(writes_flags: bool, flag_writeback: bool) -> (r: bool)
    ensures
        r == (writes_flags || !flag_writeback),
{
    writes_flags || !flag_writeback
}

/// Which operations switched at least once.
pub open spec fn switched(counts: Seq<u32>) -> Seq<bool> {
    Seq::new(counts.len(), |i: int| counts[i] > 0)
}

impl ClockProfile {
    pub fn new() -> (p: Self)
        ensures
            p.live_ops@.len() == 0,
            p.live_wvia@.len() == 0,
            p.counts@.len() == 0,
            p.warmup_remaining == 0,
    {
        ClockProfile {
            live_ops: Vec::new(),
            live_wvia: Vec::new(),
            counts: Vec::new(),
            warmup_remaining: 0,
        }
    }

    /// Counting starts by itself: nothing is known of this sort of edge and nothing is being
    /// counted.
    pub open spec fn fresh(self) -> bool {
        &&& self.live_ops@.len() == 0
        &&& self.warmup_remaining == 0
        &&& self.counts@.len() == 0
    }

    /// Decide how the next edge is evaluated, and start counting where that is due.
    pub fn begin_edge(
        &mut self,
        schedule: Option<&OpList>,
        auto_warmup: bool,
        compact_ops: usize,
        stale: bool,
        inhibited: bool,
    ) -> (p: ClockPath)
        ensures
            ({
                let usable = schedule is Some && !stale && !inhibited;
                let starts = usable && auto_warmup && old(self).fresh();
                &&& final(self).live_ops@ == old(self).live_ops@
                &&& final(self).live_wvia@ == old(self).live_wvia@
                &&& final(self).counts@ == if starts {
                    Seq::new(schedule->0.ops@.len(), |i: int| 0u32)
                } else {
                    old(self).counts@
                }
                &&& final(self).warmup_remaining == if starts {
                    WARMUP_EDGES
                } else {
                    old(self).warmup_remaining
                }
                &&& p == if usable && final(self).counts@.len() > 0 {
                    ClockPath::Counted
                } else if usable && final(self).live_ops@.len() > 0 {
                    ClockPath::Pruned
                } else if usable {
                    ClockPath::Scheduled
                } else if compact_ops > 0 && !stale && !inhibited {
                    ClockPath::Compact
                } else {
                    ClockPath::Lightweight
                }
            }),
    {
        if stale || inhibited {
            return ClockPath::Lightweight;
        }
        match schedule {
            Some(s) => {
                if auto_warmup && self.live_ops.len() == 0 && self.warmup_remaining == 0
                    && self.counts.len() == 0 {
                    self.counts = vec![0u32; s.ops.len()];
                    assert(self.counts@ =~= Seq::new(s.ops@.len(), |i: int| 0u32));
                    self.warmup_remaining = WARMUP_EDGES;
                }
                if self.counts.len() > 0 {
                    ClockPath::Counted
                } else if self.live_ops.len() > 0 {
                    ClockPath::Pruned
                } else {
                    ClockPath::Scheduled
                }
            },
            None => {
                if compact_ops > 0 {
                    ClockPath::Compact
                } else {
                    ClockPath::Lightweight
                }
            },
        }
    }

    /// Keep the operations that switched. Counts that do not fit the schedule change nothing.
    pub fn build_live_profile(&mut self, counts: &Vec<u32>, schedule: &OpList)
        requires
            schedule.wf(),
        ensures
            final(self).counts@ == old(self).counts@,
            final(self).warmup_remaining == old(self).warmup_remaining,
            counts@.len() == schedule.ops@.len() ==> {
                &&& final(self).live_ops@ == select(schedule.ops@, switched(counts@))
                &&& final(self).live_wvia@ == select_wvia(
                    schedule.ops@,
                    schedule.wvia@,
                    switched(counts@),
                    schedule.ops@.len(),
                )
            },
            counts@.len() != schedule.ops@.len() ==> {
                &&& final(self).live_ops@ == old(self).live_ops@
                &&& final(self).live_wvia@ == old(self).live_wvia@
            },
    {
        if counts.len() != schedule.ops.len() {
            return;
        }
        let mut keep: Vec<bool> = Vec::new();
        let mut i: usize = 0;
        while i < counts.len()
            invariant
                i <= counts@.len(),
                keep@ == switched(counts@.take(i as int)),
            decreases counts@.len() - i,
        {
            keep.push(counts[i] > 0);
            i = i + 1;
            assert(keep@ =~= switched(counts@.take(i as int)));
        }
        assert(counts@.take(i as int) =~= counts@);
        let live: (Vec<CompactOp>, Vec<WeightedVia>) = select_ops(
            &schedule.ops,
            &schedule.wvia,
            &keep,
        );
        self.live_ops = live.0;
        self.live_wvia = live.1;
    }

    /// Count down after a counted edge. The last one builds the profile and ends the counting.
    pub fn finish_counted_edge(&mut self, schedule: &OpList)
        requires
            schedule.wf(),
        ensures
            old(self).warmup_remaining == 0 ==> *final(self) == *old(self),
            old(self).warmup_remaining > 0 ==> final(self).warmup_remaining
                == old(self).warmup_remaining - 1,
            old(self).warmup_remaining > 1 ==> {
                &&& final(self).counts@ == old(self).counts@
                &&& final(self).live_ops@ == old(self).live_ops@
                &&& final(self).live_wvia@ == old(self).live_wvia@
            },
            old(self).warmup_remaining == 1 ==> final(self).counts@.len() == 0,
            old(self).warmup_remaining == 1 && old(self).counts@.len() == schedule.ops@.len()
                ==> {
                &&& final(self).live_ops@ == select(schedule.ops@, switched(old(self).counts@))
                &&& final(self).live_wvia@ == select_wvia(
                    schedule.ops@,
                    schedule.wvia@,
                    switched(old(self).counts@),
                    schedule.ops@.len(),
                )
            },
            old(self).warmup_remaining == 1 && old(self).counts@.len() != schedule.ops@.len()
                ==> {
                &&& final(self).live_ops@ == old(self).live_ops@
                &&& final(self).live_wvia@ == old(self).live_wvia@
            },
    {
        if self.warmup_remaining > 0 {
            self.warmup_remaining = self.warmup_remaining - 1;
            if self.warmup_remaining == 0 {
                let mut counts: Vec<u32> = Vec::new();
                std::mem::swap(&mut counts, &mut self.counts);
                self.build_live_profile(&counts, schedule);
            }
        }
    }

    /// Count from now on, until the counts are taken.
    pub fn start_counting(&mut self, schedule: Option<&OpList>)
        ensures
            match schedule {
                Some(s) => {
                    &&& final(self).counts@ == Seq::new(s.ops@.len(), |i: int| 0u32)
                    &&& final(self).warmup_remaining == u32::MAX
                    &&& final(self).live_ops@ == old(self).live_ops@
                    &&& final(self).live_wvia@ == old(self).live_wvia@
                },
                None => *final(self) == *old(self),
            },
    {
        match schedule {
            Some(s) => {
                self.counts = vec![0u32; s.ops.len()];
                assert(self.counts@ =~= Seq::new(s.ops@.len(), |i: int| 0u32));
                self.warmup_remaining = u32::MAX;
            },
            None => {},
        }
    }

    /// Take the counts, and stop counting.
    pub fn take_counts(&mut self) -> (counts: Vec<u32>)
        ensures
            counts@ == old(self).counts@,
            final(self).counts@.len() == 0,
            final(self).warmup_remaining == 0,
            final(self).live_ops@ == old(self).live_ops@,
            final(self).live_wvia@ == old(self).live_wvia@,
    {
        let mut counts: Vec<u32> = Vec::new();
        std::mem::swap(&mut counts, &mut self.counts);
        self.warmup_remaining = 0;
        counts
    }
}

} // verus!
