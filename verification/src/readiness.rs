//! Waiting for a service or a container to become ready: one probe a
//! second, for as many seconds as the timeout allows.

use vstd::prelude::*;
use crate::model::TestHarnessError;

verus! {

/// How many seconds a local service is given to become ready after it
/// starts.
pub const SERVICE_START_WAIT_SECS: u64 = 30;

/// What the runner does next while waiting.
#[derive(Debug, Clone, Copy, PartialEq, Eq, Structural)]
pub enum WaitStep {
    /// Probe whether the subject is ready.
    Probe,
    /// Sleep for a second.
    Sleep,
    /// The subject is ready.
    Ready,
    /// The time is up and the subject never became ready.
    GiveUp,
}

/// A wait for readiness, with one probe allowed per second of the timeout.
pub struct ReadinessWait {
    attempts_left: u64,
    ready: bool,
    probes: Ghost<Seq<bool>>,
    timeout: Ghost<nat>,
}

impl ReadinessWait {
    /// The outcomes of the probes so far.
    pub closed spec fn probes(&self) -> Seq<bool> {
        self.probes@
    }

    /// The number of probes allowed.
    pub closed spec fn allowed(&self) -> nat {
        self.timeout@
    }

    /// Some probe found the subject ready.
    pub closed spec fn is_ready(&self) -> bool {
        self.ready
    }

    /// The wait agrees with its probes: no probe found the subject ready
    /// but possibly the last, and no more probes ran than allowed.
    pub closed spec fn well_formed(&self) -> bool {
        &&& self.probes@.len() + self.attempts_left == self.timeout@
        &&& forall|i: int| 0 <= i < self.probes@.len() - 1 ==> !#[trigger] self.probes@[i]
        &&& self.ready == (self.probes@.len() > 0 && self.probes@.last())
    }

    /// A wait of `timeout_secs` seconds, no probe made yet.
    pub fn new(timeout_secs: u64) -> (w: ReadinessWait)
        ensures
            w.well_formed(),
            w.probes().len() == 0,
            w.allowed() == timeout_secs,
            !w.is_ready(),
    {
        ReadinessWait { attempts_left: timeout_secs, ready: false, probes: Ghost(Seq::empty()), timeout: Ghost(timeout_secs as nat) }
    }

    /// The next step after the start or after a sleep: probe again while
    /// probes are left, else give up.
    pub fn next_step(&self) -> (s: WaitStep)
        requires
            self.well_formed(),
            !self.is_ready(),
        ensures
            s == WaitStep::Probe <==> self.probes().len() < self.allowed(),
            s == WaitStep::GiveUp <==> self.probes().len() == self.allowed(),
            s == WaitStep::Probe || s == WaitStep::GiveUp,
    {
        if self.attempts_left > 0 {
            WaitStep::Probe
        } else {
            WaitStep::GiveUp
        }
    }

    /// Records a probe: a ready subject ends the wait; otherwise the runner
    /// sleeps a second before the next step.
    pub fn record_probe(&mut self, ready: bool) -> (s: WaitStep)
        requires
            old(self).well_formed(),
            !old(self).is_ready(),
            old(self).probes().len() < old(self).allowed(),
        ensures
            final(self).well_formed(),
            final(self).probes() == old(self).probes().push(ready),
            final(self).allowed() == old(self).allowed(),
            final(self).is_ready() == ready,
            s == if ready {
                WaitStep::Ready
            } else {
                WaitStep::Sleep
            },
    {
        self.probes = Ghost(self.probes@.push(ready));
        self.attempts_left = self.attempts_left - 1;
        if ready {
            self.ready = true;
            WaitStep::Ready
        } else {
            WaitStep::Sleep
        }
    }
}

/// Law: a wait that gave up made every probe it was allowed and none found
/// the subject ready; a wait that ended ready made no more probes than
/// allowed and only its last found the subject ready.
pub proof fn lemma_wait_outcome(w: ReadinessWait)
    requires
        w.well_formed(),
    ensures
        !w.is_ready() && w.probes().len() == w.allowed() ==> forall|i: int|
            0 <= i < w.probes().len() ==> !#[trigger] w.probes()[i],
        w.is_ready() ==> w.probes().len() <= w.allowed() && w.probes().last() && forall|i: int|
            0 <= i < w.probes().len() - 1 ==> !#[trigger] w.probes()[i],
{
}

/// The error of a subject that did not become ready in time: `what` names
/// it, such as `Service web`.
pub fn not_ready_error(what: &str) -> (e: TestHarnessError)
    ensures
        e matches TestHarnessError::EnvironmentError(m) && m@ == what@ + " did not become ready in time"@,
{
    let mut m = what.to_owned();
    m.append(" did not become ready in time");
    TestHarnessError::EnvironmentError(m)
}

} // verus!
