//! The steps of running one test case: the skip check, the setup, the body
//! under its timeout and the teardown, and the result each path ends in.
//! The runner performs each step and hands back what came of it.

use vstd::prelude::*;
use crate::model::{TestCase, TestCategory, TestHarnessError, TestOutcome, TestResult};

verus! {

/// The text that `{:?}` gives for a duration of this many milliseconds.
pub uninterp spec fn duration_debug_text(ms: u64) -> Seq<char>;

/// Formats `std::time::Duration::from_millis(ms)` with `{:?}` (such as
/// `100ms` or `1.5s`); the text depends on `ms` alone.
#[verifier::external_body]
pub(crate) fn duration_debug(ms: u64) -> (s: String)
    ensures
        s@ == duration_debug_text(ms),
{
    format!("{:?}", std::time::Duration::from_millis(ms))
}

/// What came of running a test's body under its timeout.
#[derive(Debug)]
pub enum ExecOutcome {
    /// The body finished with this result.
    Completed(TestResult),
    /// The body finished with an error; its message.
    Errored(String),
    /// The body did not finish in time.
    TimedOut,
}

/// Where a test case run stands.
#[derive(Debug, Clone, Copy, PartialEq, Eq, Structural)]
pub enum CasePhase {
    CheckingSkip,
    SettingUp,
    Executing,
    TearingDown,
    Finished,
}

/// What the runner does next.
#[derive(Debug)]
pub enum CaseAction {
    /// Run the test's setup.
    RunSetup,
    /// Run the test's body, stopping it after this many milliseconds.
    Execute(u64),
    /// Run the test's teardown.
    RunTeardown,
    /// The run is over: report this result, with the time it took.
    Report(TestResult),
    /// The run is over with this error, and reports no result.
    Abort(TestHarnessError),
}

/// The result a finished body leads to: the body's own result, a failure
/// with the body's error, or a timeout naming the time allowed.
pub open spec fn executed_result(
    name: Seq<char>,
    category: TestCategory,
    timeout_ms: u64,
    outcome: ExecOutcome,
    r: TestResult,
) -> bool {
    match outcome {
        ExecOutcome::Completed(own) => r == own,
        ExecOutcome::Errored(e) => {
            &&& r.name@ == name
            &&& r.category == category
            &&& r.outcome == TestOutcome::Failed
            &&& r.error matches Some(m) && m@ == "Test error: "@ + e@
            &&& r.duration_ms == 0
        },
        ExecOutcome::TimedOut => {
            &&& r.name@ == name
            &&& r.category == category
            &&& r.outcome == TestOutcome::TimedOut
            &&& r.error matches Some(m) && m@ == "Test timed out after "@ + duration_debug_text(timeout_ms)
            &&& r.duration_ms == 0
        },
    }
}

/// The run of one test case.
pub struct TestCaseRun {
    name: String,
    category: TestCategory,
    timeout_ms: u64,
    phase: CasePhase,
    pending: Option<TestResult>,
}

impl TestCaseRun {
    /// The name of the test.
    pub closed spec fn test_name(&self) -> Seq<char> {
        self.name@
    }

    /// The category of the test.
    pub closed spec fn test_category(&self) -> TestCategory {
        self.category
    }

    /// The time the body is given, in milliseconds.
    pub closed spec fn timeout(&self) -> u64 {
        self.timeout_ms
    }

    /// The step the run is at.
    pub closed spec fn current_phase(&self) -> CasePhase {
        self.phase
    }

    /// The result the body led to, once it has run.
    pub closed spec fn body_result(&self) -> Option<TestResult> {
        self.pending
    }

    /// A run of `c` that starts with the skip check; the body gets the
    /// test's own timeout, or else `default_timeout_ms`.
    pub fn new(c: &TestCase, default_timeout_ms: u64) -> (r: TestCaseRun)
        ensures
            r.test_name() == c.name@,
            r.test_category() == c.category,
            r.timeout() == match c.timeout_ms {
                Some(t) => t,
                None => default_timeout_ms,
            },
            r.current_phase() == CasePhase::CheckingSkip,
            r.body_result() is None,
    {
        let timeout_ms = match c.timeout_ms {
            Some(t) => t,
            None => default_timeout_ms,
        };
        TestCaseRun { name: c.name.clone(), category: c.category, timeout_ms, phase: CasePhase::CheckingSkip, pending: None }
    }

    /// After the skip check: a skipped test ends with a `Skipped` result,
    /// a failed check ends the run with its error, and otherwise the setup
    /// runs.
    pub fn after_skip_check(&mut self, skip: Result<bool, TestHarnessError>) -> (a: CaseAction)
        requires
            old(self).current_phase() == CasePhase::CheckingSkip,
        ensures
            final(self).test_name() == old(self).test_name(),
            final(self).test_category() == old(self).test_category(),
            final(self).timeout() == old(self).timeout(),
            final(self).body_result() == old(self).body_result(),
            match skip {
                Ok(true) => {
                    &&& final(self).current_phase() == CasePhase::Finished
                    &&& a matches CaseAction::Report(r)
                    &&& r.name@ == old(self).test_name()
                    &&& r.category == old(self).test_category()
                    &&& r.outcome == TestOutcome::Skipped
                    &&& r.error is None
                    &&& r.duration_ms == 0
                },
                Ok(false) => final(self).current_phase() == CasePhase::SettingUp && a is RunSetup,
                Err(e) => final(self).current_phase() == CasePhase::Finished && a == CaseAction::Abort(e),
            },
    {
        match skip {
            Ok(true) => {
                self.phase = CasePhase::Finished;
                CaseAction::Report(TestResult::new(self.name.clone(), self.category, TestOutcome::Skipped))
            },
            Ok(false) => {
                self.phase = CasePhase::SettingUp;
                CaseAction::RunSetup
            },
            Err(e) => {
                self.phase = CasePhase::Finished;
                CaseAction::Abort(e)
            },
        }
    }

    /// After the setup: a failed setup ends the run with a failure that
    /// names the setup's error, and the body and teardown do not run;
    /// otherwise the body runs under the timeout.
    pub fn after_setup(&mut self, setup: Result<(), String>) -> (a: CaseAction)
        requires
            old(self).current_phase() == CasePhase::SettingUp,
        ensures
            final(self).test_name() == old(self).test_name(),
            final(self).test_category() == old(self).test_category(),
            final(self).timeout() == old(self).timeout(),
            final(self).body_result() == old(self).body_result(),
            match setup {
                Err(e) => {
                    &&& final(self).current_phase() == CasePhase::Finished
                    &&& a matches CaseAction::Report(r)
                    &&& r.name@ == old(self).test_name()
                    &&& r.category == old(self).test_category()
                    &&& r.outcome == TestOutcome::Failed
                    &&& r.error matches Some(m) && m@ == "Setup failed: "@ + e@
                    &&& r.duration_ms == 0
                },
                Ok(()) => final(self).current_phase() == CasePhase::Executing && a == CaseAction::Execute(
                    old(self).timeout(),
                ),
            },
    {
        match setup {
            Err(e) => {
                self.phase = CasePhase::Finished;
                let mut m = "Setup failed: ".to_owned();
                m.append(e.as_str());
                CaseAction::Report(TestResult::new(self.name.clone(), self.category, TestOutcome::Failed).with_error(m))
            },
            Ok(()) => {
                self.phase = CasePhase::Executing;
                CaseAction::Execute(self.timeout_ms)
            },
        }
    }

    /// After the body: whatever came of it, the teardown runs next; the
    /// result is kept as `executed_result` describes.
    pub fn after_execute(&mut self, outcome: ExecOutcome) -> (a: CaseAction)
        requires
            old(self).current_phase() == CasePhase::Executing,
        ensures
            final(self).test_name() == old(self).test_name(),
            final(self).test_category() == old(self).test_category(),
            final(self).timeout() == old(self).timeout(),
            final(self).current_phase() == CasePhase::TearingDown,
            final(self).body_result() matches Some(r) && executed_result(
                old(self).test_name(),
                old(self).test_category(),
                old(self).timeout(),
                outcome,
                r,
            ),
            a is RunTeardown,
    {
        let r = match outcome {
            ExecOutcome::Completed(own) => own,
            ExecOutcome::Errored(e) => {
                let mut m = "Test error: ".to_owned();
                m.append(e.as_str());
                TestResult::new(self.name.clone(), self.category, TestOutcome::Failed).with_error(m)
            },
            ExecOutcome::TimedOut => {
                let mut m = "Test timed out after ".to_owned();
                let d = duration_debug(self.timeout_ms);
                m.append(d.as_str());
                TestResult::new(self.name.clone(), self.category, TestOutcome::TimedOut).with_error(m)
            },
        };
        self.pending = Some(r);
        self.phase = CasePhase::TearingDown;
        CaseAction::RunTeardown
    }

    /// After the teardown: the run ends with the body's result, whether the
    /// teardown succeeded or not; a failed teardown only adds a warning
    /// naming the test and the error.
    pub fn after_teardown(&mut self, teardown: Result<(), String>) -> (out: (Option<String>, CaseAction))
        requires
            old(self).current_phase() == CasePhase::TearingDown,
            old(self).body_result() is Some,
        ensures
            final(self).current_phase() == CasePhase::Finished,
            out.1 == CaseAction::Report(old(self).body_result().unwrap()),
            match teardown {
                Ok(()) => out.0 is None,
                Err(e) => out.0 matches Some(w) && w@ == "Teardown failed for "@ + old(self).test_name() + ": "@
                    + e@,
            },
    {
        let warning = match teardown {
            Ok(()) => None,
            Err(e) => {
                let mut w = "Teardown failed for ".to_owned();
                w.append(self.name.as_str());
                w.append(": ");
                w.append(e.as_str());
                Some(w)
            },
        };
        self.phase = CasePhase::Finished;
        let r = self.pending.take();
        match r {
            Some(r) => (warning, CaseAction::Report(r)),
            None => (warning, CaseAction::RunTeardown),
        }
    }
}

/// The result of a test whose run ended with an error in a parallel run:
/// a failure naming the error.
pub fn execution_error_result(c: &TestCase, error: &str) -> (r: TestResult)
    ensures
        r.name@ == c.name@,
        r.category == c.category,
        r.outcome == TestOutcome::Failed,
        r.error matches Some(m) && m@ == "Test execution error: "@ + error@,
        r.duration_ms == 0,
{
    let mut m = "Test execution error: ".to_owned();
    m.append(error);
    TestResult::new(c.name.clone(), c.category, TestOutcome::Failed).with_error(m)
}

} // verus!
