//! Core vocabulary of the harness: categories, outcomes and priorities.

use vstd::prelude::*;

verus! {

/// Category of a test.
#[derive(Debug, Clone, Copy, PartialEq, Eq, Structural)]
pub enum TestCategory {
    Unit,
    Integration,
    EndToEnd,
    Performance,
    Security,
}

/// Outcome of a single test execution.
#[derive(Debug, Clone, Copy, PartialEq, Eq, Structural)]
pub enum TestOutcome {
    Passed,
    Failed,
    Skipped,
    TimedOut,
    Panicked,
}

/// Priority of a test or suite; `Critical` runs first, `Low` last.
#[derive(Debug, Clone, Copy, PartialEq, Eq, Structural)]
pub enum TestPriority {
    Critical,
    High,
    Medium,
    Low,
}

/// Numeric rank of a priority: the order in which priorities are run.
pub open spec fn priority_rank(p: TestPriority) -> nat {
    match p {
        TestPriority::Critical => 0,
        TestPriority::High => 1,
        TestPriority::Medium => 2,
        TestPriority::Low => 3,
    }
}

impl TestPriority {
    /// The rank of this priority (`Critical` is 0, `Low` is 3).
    pub fn rank(&self) -> (r: u8)
        ensures
            r as nat == priority_rank(*self),
    {
        match self {
            TestPriority::Critical => 0,
            TestPriority::High => 1,
            TestPriority::Medium => 2,
            TestPriority::Low => 3,
        }
    }
}


/// Errors reported by the harness.
#[derive(Debug, Clone, PartialEq, Eq)]
pub enum TestHarnessError {
    ConfigError(String),
    ConfigurationError(String),
    DeserializationError(String),
    EnvironmentError(String),
    ExecutionError(String),
    IoError(String),
    MockError(String),
    NetworkError(String),
    PluginError(String),
    ReportingError(String),
    SerializationError(String),
    ServerError(String),
    TimeoutError(String),
}

/// Description of a test case: what selection and ordering read of it.
/// The code that runs the test is held next to it by the runner.
#[derive(Debug, Clone)]
pub struct TestCase {
    pub name: String,
    pub category: TestCategory,
    pub tags: Vec<String>,
    pub dependencies: Vec<String>,
    pub priority: TestPriority,
    /// Timeout in milliseconds, when the test sets its own.
    pub timeout_ms: Option<u64>,
}

impl TestCase {
    /// A test case of the given category and name, with no tags, no
    /// dependencies, medium priority and the run's default timeout.
    pub fn new(category: TestCategory, name: String) -> (t: TestCase)
        ensures
            t.name@ == name@,
            t.category == category,
            t.tags@.len() == 0,
            t.dependencies@.len() == 0,
            t.priority == TestPriority::Medium,
            t.timeout_ms is None,
    {
        TestCase {
            name,
            category,
            tags: Vec::new(),
            dependencies: Vec::new(),
            priority: TestPriority::Medium,
            timeout_ms: None,
        }
    }

    /// Adds a tag.
    pub fn with_tag(self, tag: String) -> (t: TestCase)
        ensures
            t.name@ == self.name@,
            t.category == self.category,
            t.tags@ == self.tags@.push(tag),
            t.dependencies@ == self.dependencies@,
            t.priority == self.priority,
            t.timeout_ms == self.timeout_ms,
    {
        let mut t = self;
        t.tags.push(tag);
        t
    }

    /// Adds a dependency on the test case of the given name.
    pub fn with_dependency(self, dependency: String) -> (t: TestCase)
        ensures
            t.name@ == self.name@,
            t.category == self.category,
            t.tags@ == self.tags@,
            t.dependencies@ == self.dependencies@.push(dependency),
            t.priority == self.priority,
            t.timeout_ms == self.timeout_ms,
    {
        let mut t = self;
        t.dependencies.push(dependency);
        t
    }

    /// Sets the priority.
    pub fn with_priority(self, priority: TestPriority) -> (t: TestCase)
        ensures
            t.name@ == self.name@,
            t.category == self.category,
            t.tags@ == self.tags@,
            t.dependencies@ == self.dependencies@,
            t.priority == priority,
            t.timeout_ms == self.timeout_ms,
    {
        let mut t = self;
        t.priority = priority;
        t
    }

    /// Sets the test's own timeout, in milliseconds.
    pub fn with_timeout(self, timeout_ms: u64) -> (t: TestCase)
        ensures
            t.name@ == self.name@,
            t.category == self.category,
            t.tags@ == self.tags@,
            t.dependencies@ == self.dependencies@,
            t.priority == self.priority,
            t.timeout_ms == Some(timeout_ms),
    {
        let mut t = self;
        t.timeout_ms = Some(timeout_ms);
        t
    }
}

/// A named group of test cases.
#[derive(Debug, Clone)]
pub struct TestSuite {
    pub name: String,
    pub description: Option<String>,
    pub test_cases: Vec<TestCase>,
    pub dependencies: Vec<String>,
    pub priority: TestPriority,
    pub parallel: bool,
}

impl TestSuite {
    /// An empty suite of the given name, run sequentially at medium priority.
    pub fn new(name: String) -> (s: TestSuite)
        ensures
            s.name@ == name@,
            s.description is None,
            s.test_cases@.len() == 0,
            s.dependencies@.len() == 0,
            s.priority == TestPriority::Medium,
            !s.parallel,
    {
        TestSuite {
            name,
            description: None,
            test_cases: Vec::new(),
            dependencies: Vec::new(),
            priority: TestPriority::Medium,
            parallel: false,
        }
    }

    /// Sets the description.
    pub fn with_description(self, description: String) -> (s: TestSuite)
        ensures
            s.name@ == self.name@,
            s.description matches Some(d) && d@ == description@,
            s.test_cases@ == self.test_cases@,
            s.dependencies@ == self.dependencies@,
            s.priority == self.priority,
            s.parallel == self.parallel,
    {
        let mut s = self;
        s.description = Some(description);
        s
    }

    /// Appends a test case.
    pub fn with_test_case(self, test_case: TestCase) -> (s: TestSuite)
        ensures
            s.name@ == self.name@,
            s.description == self.description,
            s.test_cases@ == self.test_cases@.push(test_case),
            s.dependencies@ == self.dependencies@,
            s.priority == self.priority,
            s.parallel == self.parallel,
    {
        let mut s = self;
        s.test_cases.push(test_case);
        s
    }
}

/// The result of one test.
#[derive(Debug, Clone)]
pub struct TestResult {
    pub name: String,
    pub category: TestCategory,
    pub outcome: TestOutcome,
    pub error: Option<String>,
    /// Duration in milliseconds.
    pub duration_ms: u64,
}

impl TestResult {
    /// A result with no error message and zero duration.
    pub fn new(name: String, category: TestCategory, outcome: TestOutcome) -> (r: TestResult)
        ensures
            r.name@ == name@,
            r.category == category,
            r.outcome == outcome,
            r.error is None,
            r.duration_ms == 0,
    {
        TestResult { name, category, outcome, error: None, duration_ms: 0 }
    }

    /// Sets the error message.
    pub fn with_error(self, error: String) -> (r: TestResult)
        ensures
            r.name@ == self.name@,
            r.category == self.category,
            r.outcome == self.outcome,
            r.error matches Some(e) && e@ == error@,
            r.duration_ms == self.duration_ms,
    {
        let mut r = self;
        r.error = Some(error);
        r
    }

    /// Sets the duration, in milliseconds.
    pub fn with_duration(self, duration_ms: u64) -> (r: TestResult)
        ensures
            r.name@ == self.name@,
            r.category == self.category,
            r.outcome == self.outcome,
            r.error == self.error,
            r.duration_ms == duration_ms,
    {
        let mut r = self;
        r.duration_ms = duration_ms;
        r
    }
}

/// How many of `outcomes` are `o`.
pub open spec fn count_outcome(outcomes: Seq<TestOutcome>, o: TestOutcome) -> nat
    decreases outcomes.len(),
{
    if outcomes.len() == 0 {
        0
    } else {
        count_outcome(outcomes.drop_last(), o) + if outcomes.last() == o {
            1nat
        } else {
            0nat
        }
    }
}

/// The outcomes of a list of results.
pub open spec fn outcomes_of(results: Seq<TestResult>) -> Seq<TestOutcome> {
    results.map_values(|r: TestResult| r.outcome)
}

/// The results of a suite, with a count of each outcome.
#[derive(Debug, Clone)]
pub struct TestSuiteResult {
    pub name: String,
    pub results: Vec<TestResult>,
    pub passed: usize,
    pub failed: usize,
    pub skipped: usize,
    pub timed_out: usize,
    pub panicked: usize,
}

impl TestSuiteResult {
    /// The counts agree with the results.
    pub open spec fn well_formed(&self) -> bool {
        let os = outcomes_of(self.results@);
        &&& self.passed == count_outcome(os, TestOutcome::Passed)
        &&& self.failed == count_outcome(os, TestOutcome::Failed)
        &&& self.skipped == count_outcome(os, TestOutcome::Skipped)
        &&& self.timed_out == count_outcome(os, TestOutcome::TimedOut)
        &&& self.panicked == count_outcome(os, TestOutcome::Panicked)
    }

    /// An empty suite result.
    pub fn new(name: String) -> (r: TestSuiteResult)
        ensures
            r.well_formed(),
            r.name@ == name@,
            r.results@.len() == 0,
    {
        TestSuiteResult { name, results: Vec::new(), passed: 0, failed: 0, skipped: 0, timed_out: 0, panicked: 0 }
    }

    /// Records a result and counts its outcome.
    pub fn add_test_result(&mut self, result: TestResult)
        requires
            old(self).well_formed(),
            old(self).results.len() < usize::MAX,
        ensures
            final(self).well_formed(),
            final(self).name@ == old(self).name@,
            final(self).results@ == old(self).results@.push(result),
    {
        proof {
            lemma_count_le(outcomes_of(self.results@), result.outcome);
        }
        let ghost before = self.results@;
        match result.outcome {
            TestOutcome::Passed => self.passed = self.passed + 1,
            TestOutcome::Failed => self.failed = self.failed + 1,
            TestOutcome::Skipped => self.skipped = self.skipped + 1,
            TestOutcome::TimedOut => self.timed_out = self.timed_out + 1,
            TestOutcome::Panicked => self.panicked = self.panicked + 1,
        }
        self.results.push(result);
        assert(outcomes_of(self.results@).drop_last() =~= outcomes_of(before));
    }

    /// Number of results recorded.
    pub fn total_tests(&self) -> (n: usize)
        ensures
            n == self.results@.len(),
    {
        self.results.len()
    }

    /// No test failed, timed out or panicked.
    pub fn all_passed(&self) -> (b: bool)
        requires
            self.well_formed(),
        ensures
            b == (count_outcome(outcomes_of(self.results@), TestOutcome::Failed) == 0
                && count_outcome(outcomes_of(self.results@), TestOutcome::TimedOut) == 0
                && count_outcome(outcomes_of(self.results@), TestOutcome::Panicked) == 0),
    {
        self.failed == 0 && self.timed_out == 0 && self.panicked == 0
    }
}

/// A count of one outcome never exceeds the number of outcomes.
pub proof fn lemma_count_le(outcomes: Seq<TestOutcome>, o: TestOutcome)
    ensures
        count_outcome(outcomes, o) <= outcomes.len(),
    decreases outcomes.len(),
{
    if outcomes.len() > 0 {
        lemma_count_le(outcomes.drop_last(), o);
    }
}

/// Law: the counts of the five outcomes add up to the number of results.
pub proof fn lemma_counts_sum(outcomes: Seq<TestOutcome>)
    ensures
        count_outcome(outcomes, TestOutcome::Passed) + count_outcome(outcomes, TestOutcome::Failed) + count_outcome(
            outcomes,
            TestOutcome::Skipped,
        ) + count_outcome(outcomes, TestOutcome::TimedOut) + count_outcome(outcomes, TestOutcome::Panicked)
            == outcomes.len(),
    decreases outcomes.len(),
{
    if outcomes.len() > 0 {
        lemma_counts_sum(outcomes.drop_last());
    }
}

/// A new, empty test suite of the given name.
pub fn create_test_suite(name: String) -> (s: TestSuite)
    ensures
        s.name@ == name@,
        s.description is None,
        s.test_cases@.len() == 0,
        s.dependencies@.len() == 0,
        s.priority == TestPriority::Medium,
        !s.parallel,
{
    TestSuite::new(name)
}

/// A new test result with no error and zero duration.
pub fn create_test_result(name: String, category: TestCategory, outcome: TestOutcome) -> (r: TestResult)
    ensures
        r.name@ == name@,
        r.category == category,
        r.outcome == outcome,
        r.error is None,
        r.duration_ms == 0,
{
    TestResult::new(name, category, outcome)
}

} // verus!
