//! Check counters and the gates that compare two ways to compute a value.
use vstd::prelude::*;

verus! {

/// How often a value was checked, and how often the two ways to compute it differed.
#[derive(Clone, Copy, Debug, PartialEq, Eq, Structural)]
pub struct CheckCounter {
    pub checks: u64,
    pub mismatches: u64,
}

impl CheckCounter {
    /// The counter has room for `n` more checks.
    pub open spec fn room(self, n: int) -> bool {
        self.checks + n <= u64::MAX && self.mismatches + n <= u64::MAX
    }

    /// The counter has room for `n` more checks.
    pub fn has_room(&self, n: u64) -> (r: bool)
        ensures
            r == self.room(n as int),
    {
        self.checks <= u64::MAX - n && self.mismatches <= u64::MAX - n
    }

    /// The counter after one check.
    pub open spec fn after(self, differs: bool) -> CheckCounter {
        CheckCounter {
            checks: (self.checks + 1) as u64,
            mismatches: if differs {
                (self.mismatches + 1) as u64
            } else {
                self.mismatches
            },
        }
    }

    /// A counter at zero.
    pub fn zero() -> (c: Self)
        ensures
            c == (CheckCounter { checks: 0, mismatches: 0 }),
    {
        CheckCounter { checks: 0, mismatches: 0 }
    }

    /// Count one check.
    pub fn record(&mut self, differs: bool)
        requires
            old(self).room(1),
        ensures
            *final(self) == old(self).after(differs),
    {
        self.checks = self.checks + 1;
        if differs {
            self.mismatches = self.mismatches + 1;
        }
    }
}

/// A gate for a synthesized replacement: whether it is in force, and its check counters.
#[derive(Clone, Copy, Debug, PartialEq, Eq, Structural)]
pub struct SynthGate {
    pub enabled: bool,
    pub checks: u64,
    pub mismatches: u64,
}

impl SynthGate {
    /// This gate can count one more check and mismatch.
    pub open spec fn room(self) -> bool {
        self.checks < u64::MAX && self.mismatches < u64::MAX
    }

    /// This gate can count one more check and mismatch.
    pub fn has_room(&self) -> (r: bool)
        ensures
            r == self.room(),
    {
        self.checks < u64::MAX && self.mismatches < u64::MAX
    }

    pub fn new() -> (g: Self)
        ensures
            g == (SynthGate { enabled: false, checks: 0, mismatches: 0 }),
    {
        SynthGate { enabled: false, checks: 0, mismatches: 0 }
    }

    /// Put this gate in force and start counting from zero.
    pub fn enable(&mut self)
        ensures
            *final(self) == (SynthGate { enabled: true, checks: 0, mismatches: 0 }),
    {
        self.enabled = true;
        self.checks = 0;
        self.mismatches = 0;
    }

    /// Take this gate out of force; its counters stay readable.
    pub fn disable(&mut self)
        ensures
            *final(self) == (SynthGate { enabled: false, ..*old(self) }),
    {
        self.enabled = false;
    }

    pub fn is_enabled(&self) -> (r: bool)
        ensures
            r == self.enabled,
    {
        self.enabled
    }

    pub fn record_check(&mut self)
        requires
            old(self).checks < u64::MAX,
        ensures
            *final(self) == (SynthGate { checks: (old(self).checks + 1) as u64, ..*old(self) }),
    {
        self.checks = self.checks + 1;
    }

    pub fn record_mismatch(&mut self)
        requires
            old(self).mismatches < u64::MAX,
        ensures
            *final(self) == (SynthGate {
                mismatches: (old(self).mismatches + 1) as u64,
                ..*old(self)
            }),
    {
        self.mismatches = self.mismatches + 1;
    }

    pub fn checks(&self) -> (n: u64)
        ensures
            n == self.checks,
    {
        self.checks
    }

    pub fn mismatches(&self) -> (n: u64)
        ensures
            n == self.mismatches,
    {
        self.mismatches
    }
}

} // verus!
