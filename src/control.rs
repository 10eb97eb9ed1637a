//! The decisions of the control loop: which ring of a cycle to trade, when
//! it has been the best long enough, and what an execution's end means for
//! the next cycle.

use vstd::prelude::*;
use crate::ring::{Ring, RingResult};
use crate::execution::ExecOutcome;

verus! {

/// Counts the cycles in a row that the same ring has been the best.
pub struct StabilityTracker {
    pub best: String,
    pub lifetime: u64,
}

impl StabilityTracker {
    pub fn new() -> (r: StabilityTracker)
        ensures
            r.best@ == Seq::<char>::empty(),
            r.lifetime == 0,
    {
        StabilityTracker { best: String::new(), lifetime: 0 }
    }

    /// Records `symbol` as this cycle's best ring: one more cycle for the
    /// same ring, a fresh count for another.
    pub fn record(&mut self, symbol: &String)
        ensures
            final(self).best@ == symbol@,
            old(self).best@ == symbol@ ==> final(self).lifetime == if old(self).lifetime < u64::MAX {
                old(self).lifetime + 1
            } else {
                old(self).lifetime as int
            },
            old(self).best@ != symbol@ ==> final(self).lifetime == 0,
    {
        if self.best != *symbol {
            self.lifetime = 0;
            self.best = symbol.clone();
        } else if self.lifetime < u64::MAX {
            self.lifetime = self.lifetime + 1;
        }
    }

    /// The best ring has lasted more than `threshold` cycles.
    pub fn is_stable(&self, threshold: u64) -> (r: bool)
        ensures
            r == (self.lifetime > threshold),
    {
        self.lifetime > threshold
    }
}

/// State the control loop carries from one cycle to the next.
pub struct ControlState {
    /// Cycles that found an opportunity.
    pub block_count: u64,
    pub tracker: StabilityTracker,
    /// Stablecoin balance as last confirmed.
    pub virtual_account: u64,
}

/// What a cycle does with its ranked results.
#[derive(Clone, Copy, PartialEq, Eq, Structural, Debug)]
pub enum CycleDecision {
    /// No ring was accepted.
    NoArbitrage,
    /// The best ring has not lasted long enough yet.
    Unstable,
    /// Trade the best ring, the first result.
    Execute,
}

/// How an execution's end leaves the loop.
#[derive(Clone, Copy, PartialEq, Eq, Structural, Debug)]
pub enum CycleEnd {
    /// The ring completed: the new balance and the profit it realised.
    Traded { balance: u64, profit: i128 },
    /// Nothing changed: go on with the next cycle.
    Skipped,
    /// Stop the loop: the capital is in doubt or the balance too low.
    Halt,
}

impl ControlState {
    pub fn new(balance: u64) -> (r: ControlState)
        ensures
            r.block_count == 0,
            r.tracker.best@ == Seq::<char>::empty(),
            r.tracker.lifetime == 0,
            r.virtual_account == balance,
    {
        ControlState { block_count: 0, tracker: StabilityTracker::new(), virtual_account: balance }
    }

    /// Decides a cycle from its results ranked best first: with none there is
    /// nothing to do; otherwise the best is recorded, the cycle counted, and
    /// it is traded once it has been the best for more than
    /// `safe_lifetime` cycles before this one.
    pub fn plan_cycle(&mut self, ranked: &Vec<RingResult>, safe_lifetime: u64) -> (r: CycleDecision)
        ensures
            ranked@.len() == 0 ==> r == CycleDecision::NoArbitrage && final(self).block_count
                == old(self).block_count && final(self).tracker.best@ == old(self).tracker.best@
                && final(self).tracker.lifetime == old(self).tracker.lifetime,
            ranked@.len() > 0 ==> {
                &&& final(self).tracker.best@ == ranked@[0].symbol@
                &&& old(self).tracker.best@ == ranked@[0].symbol@ ==> final(self).tracker.lifetime == if old(
                    self,
                ).tracker.lifetime < u64::MAX {
                    old(self).tracker.lifetime + 1
                } else {
                    old(self).tracker.lifetime as int
                }
                &&& old(self).tracker.best@ != ranked@[0].symbol@ ==> final(self).tracker.lifetime == 0
                &&& final(self).block_count == if old(self).block_count < u64::MAX {
                    old(self).block_count + 1
                } else {
                    old(self).block_count as int
                }
                &&& r == if final(self).tracker.lifetime > safe_lifetime {
                    CycleDecision::Execute
                } else {
                    CycleDecision::Unstable
                }
            },
            final(self).virtual_account == old(self).virtual_account,
    {
        if ranked.len() == 0 {
            return CycleDecision::NoArbitrage;
        }
        self.tracker.record(&ranked[0].symbol);
        if self.block_count < u64::MAX {
            self.block_count = self.block_count + 1;
        }
        if self.tracker.is_stable(safe_lifetime) {
            CycleDecision::Execute
        } else {
            CycleDecision::Unstable
        }
    }

    /// Takes the end of an execution: a completed ring with a positive
    /// balance becomes the new balance, a soft failure changes nothing, and a
    /// hard failure or an abort stops the loop.
    pub fn finish_cycle(&mut self, outcome: ExecOutcome) -> (r: CycleEnd)
        ensures
            match outcome {
                ExecOutcome::Balance(b) => if b > 0 {
                    &&& r == CycleEnd::Traded { balance: b, profit: (b - old(self).virtual_account) as i128 }
                    &&& final(self).virtual_account == b
                } else {
                    r == CycleEnd::Skipped && final(self).virtual_account == old(self).virtual_account
                },
                ExecOutcome::SoftFailure => r == CycleEnd::Skipped && final(self).virtual_account == old(
                    self,
                ).virtual_account,
                ExecOutcome::HardFailure | ExecOutcome::Aborted => r == CycleEnd::Halt
                    && final(self).virtual_account == old(self).virtual_account,
            },
            final(self).block_count == old(self).block_count,
            final(self).tracker.best@ == old(self).tracker.best@,
            final(self).tracker.lifetime == old(self).tracker.lifetime,
    {
        match outcome {
            ExecOutcome::Balance(b) => {
                if b > 0 {
                    let profit = b as i128 - self.virtual_account as i128;
                    self.virtual_account = b;
                    CycleEnd::Traded { balance: b, profit }
                } else {
                    CycleEnd::Skipped
                }
            },
            ExecOutcome::SoftFailure => CycleEnd::Skipped,
            _ => CycleEnd::Halt,
        }
    }
}

/// The position of the ring named `symbol`.
pub fn find_ring(rings: &Vec<Ring>, symbol: &String) -> (r: Option<usize>)
    ensures
        match r {
            Some(i) => i < rings@.len() && rings@[i as int].symbol@ == symbol@ && forall|j: int|
                0 <= j < i ==> (#[trigger] rings@[j]).symbol@ != symbol@,
            None => forall|j: int| 0 <= j < rings@.len() ==> (#[trigger] rings@[j]).symbol@ != symbol@,
        },
{
    let mut i: usize = 0;
    while i < rings.len()
        invariant
            i <= rings.len(),
            forall|j: int| 0 <= j < i ==> (#[trigger] rings@[j]).symbol@ != symbol@,
        decreases rings.len() - i,
    {
        if rings[i].symbol == *symbol {
            return Some(i);
        }
        i = i + 1;
    }
    None
}

} // verus!
