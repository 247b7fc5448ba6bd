//! The retry kernel: linear backoff under a total budget, with terminal
//! errors ending the loop at once.

use vstd::prelude::*;

verus! {

/// What to do after a failed attempt.
#[derive(Debug, PartialEq, Eq, Structural, Clone, Copy)]
pub enum BackOffStep {
    /// Wait this many milliseconds, then try again.
    Retry(u64),
    /// Return the error.
    GiveUp,
}

/// The state of one retry loop: base delay `d`, budget `D` (milliseconds),
/// failures so far and time waited so far.
#[derive(Debug, PartialEq, Eq, Structural, Clone, Copy)]
pub struct BackOff {
    pub delay: u64,
    pub max_delay: u64,
    pub attempt: u64,
    pub waited: u64,
}

pub open spec fn min_nat(a: int, b: int) -> int {
    if a <= b {
        a
    } else {
        b
    }
}

impl BackOff {
    pub open spec fn wf(self) -> bool {
        self.delay > 0 && self.waited <= self.max_delay
    }

    /// A fresh loop with base delay `delay` and budget `max_delay`.
    pub fn new(delay: u64, max_delay: u64) -> (r: BackOff)
        requires
            delay > 0,
        ensures
            r.wf(),
            r == (BackOff { delay, max_delay, attempt: 0, waited: 0 }),
    {
        BackOff { delay, max_delay, attempt: 0, waited: 0 }
    }

    /// The step after a failure: a terminal error, or a spent budget, gives
    /// up; otherwise the `i`-th retry waits `i·d`, cut to what is left of
    /// the budget.
    pub open spec fn next(self, terminal: bool) -> (BackOffStep, BackOff) {
        if terminal || self.waited >= self.max_delay {
            (BackOffStep::GiveUp, self)
        } else {
            let i = self.attempt + 1;
            let w = min_nat(i * self.delay, self.max_delay - self.waited);
            (
                BackOffStep::Retry(w as u64),
                BackOff { attempt: i as u64, waited: (self.waited + w) as u64, ..self },
            )
        }
    }

    /// Decides what follows a failed attempt whose error is `terminal` or not.
    pub fn on_failure(&mut self, terminal: bool) -> (r: BackOffStep)
        requires
            old(self).wf(),
            old(self).attempt < u64::MAX,
        ensures
            final(self).wf(),
            (r, *final(self)) == old(self).next(terminal),
    {
        if terminal || self.waited >= self.max_delay {
            return BackOffStep::GiveUp;
        }
        let i: u64 = self.attempt + 1;
        assert((i as int) * (self.delay as int) <= 0xffff_ffff_ffff_ffffu64 * 0xffff_ffff_ffff_ffffu64)
            by (nonlinear_arith)
            requires
                i <= 0xffff_ffff_ffff_ffffu64,
                self.delay <= 0xffff_ffff_ffff_ffffu64,
        ;
        let grow: u128 = i as u128 * self.delay as u128;
        let left: u64 = self.max_delay - self.waited;
        let w: u64 = if grow <= left as u128 {
            grow as u64
        } else {
            left
        };
        self.attempt = i;
        self.waited = self.waited + w;
        BackOffStep::Retry(w)
    }
}

/// Each retry spends at least a millisecond of the budget and never
/// overruns it, so a loop retries at most `D` times.
pub proof fn lemma_retry_spends_budget(b: BackOff, terminal: bool)
    requires
        b.wf(),
    ensures
        b.next(terminal).0 is Retry ==> b.waited < b.next(terminal).1.waited <= b.max_delay,
        b.next(terminal).1.wf(),
        terminal ==> b.next(terminal).0 == BackOffStep::GiveUp,
{
    if !terminal && b.waited < b.max_delay {
        let i = b.attempt + 1;
        assert(i * b.delay >= 1) by (nonlinear_arith)
            requires
                i >= 1,
                b.delay >= 1,
        ;
    }
}

} // verus!
