//! Draining the pending work of the driving framework between a dispatch
//! step and the next walk. Every frame gives the runtime one round to run
//! its pending work; after that it is asked to run again until it reports
//! none, or until a cap on the number of rounds is reached: never a fixed
//! number of times regardless of what it reports.

use vstd::prelude::*;

verus! {

/// What to do next.
#[derive(Clone, Copy, Debug, PartialEq, Eq, Structural)]
pub enum FlushStep {
    /// Let the runtime run its pending work once, then ask again.
    Run,
    /// The runtime has no pending work: the flush is over.
    Settled,
    /// Work is still pending but the cap is reached: the flush is over.
    CapReached,
}

/// The progress of one flush.
#[derive(Clone, Copy, Debug, PartialEq, Eq)]
pub struct Flush {
    rounds: usize,
    cap: usize,
}

impl Flush {
    /// How many rounds were granted so far.
    pub closed spec fn spec_rounds(&self) -> nat {
        self.rounds as nat
    }

    /// How many rounds may be granted at most.
    pub closed spec fn spec_cap(&self) -> nat {
        self.cap as nat
    }

    /// A flush of at most `cap` rounds, none granted yet.
    pub fn new(cap: usize) -> (f: Flush)
        ensures
            f.spec_rounds() == 0,
            f.spec_cap() == cap,
    {
        Flush { rounds: 0, cap }
    }

    /// How many rounds were granted so far.
    pub fn rounds(&self) -> (n: usize)
        ensures
            n == self.spec_rounds(),
    {
        self.rounds
    }

    /// How many rounds may be granted at most.
    pub fn cap(&self) -> (n: usize)
        ensures
            n == self.spec_cap(),
    {
        self.cap
    }

    /// Decides the next step from whether the runtime reports pending work.
    /// The first round is granted whatever it reports, since until then it
    /// has had no chance to run; later rounds are granted for pending work
    /// only. No round is granted beyond the cap: with work still pending
    /// the cap is reached, without any the flush has settled. Only granting
    /// a round changes the count.
    pub fn next(&mut self, pending: bool) -> (step: FlushStep)
        ensures
            final(self).spec_cap() == old(self).spec_cap(),
            step == if old(self).spec_rounds() < old(self).spec_cap() && (old(self).spec_rounds()
                == 0 || pending) {
                FlushStep::Run
            } else if pending {
                FlushStep::CapReached
            } else {
                FlushStep::Settled
            },
            final(self).spec_rounds() == old(self).spec_rounds() + if step == FlushStep::Run {
                1nat
            } else {
                0nat
            },
            old(self).spec_rounds() <= old(self).spec_cap() ==> final(self).spec_rounds()
                <= final(self).spec_cap(),
    {
        if self.rounds < self.cap && (self.rounds == 0 || pending) {
            self.rounds = self.rounds + 1;
            FlushStep::Run
        } else if pending {
            FlushStep::CapReached
        } else {
            FlushStep::Settled
        }
    }
}

} // verus!
