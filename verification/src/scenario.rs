//! Scenarios: ordered steps with dependencies, the results of the steps,
//! and the decisions of a scenario run (skip, record, stop on failure,
//! overall outcome and failure message).

use vstd::prelude::*;
use crate::engine::{dependency_sort, dependency_sort_outcome, DependencyKind};
use crate::kv::eq_str;
use crate::model::{priority_rank, TestCategory, TestHarnessError, TestOutcome};
use crate::ordering::{str_seq, str_seq_seq};
use crate::text::views;

verus! {

/// Where a step stands.
#[derive(Debug, Clone, Copy, PartialEq, Eq, Structural, Hash)]
pub enum ScenarioStepStatus {
    Pending,
    Running,
    Completed,
    Failed,
    Skipped,
}

impl ScenarioStepStatus {
    /// The name of the status.
    pub fn name(&self) -> (s: &'static str)
        ensures
            s@ == match *self {
                ScenarioStepStatus::Pending => "Pending"@,
                ScenarioStepStatus::Running => "Running"@,
                ScenarioStepStatus::Completed => "Completed"@,
                ScenarioStepStatus::Failed => "Failed"@,
                ScenarioStepStatus::Skipped => "Skipped"@,
            },
    {
        match self {
            ScenarioStepStatus::Pending => "Pending",
            ScenarioStepStatus::Running => "Running",
            ScenarioStepStatus::Completed => "Completed",
            ScenarioStepStatus::Failed => "Failed",
            ScenarioStepStatus::Skipped => "Skipped",
        }
    }
}

/// The result of a step.
#[derive(Debug, Clone)]
pub struct ScenarioStepResult {
    pub name: String,
    pub description: Option<String>,
    pub status: ScenarioStepStatus,
    pub error: Option<String>,
    /// Duration in milliseconds.
    pub duration_ms: u64,
    /// Whether each assertion of the step passed.
    pub assertions: Vec<bool>,
}

/// The step completed and all its assertions passed.
pub open spec fn step_passed(r: ScenarioStepResult) -> bool {
    r.status == ScenarioStepStatus::Completed && forall|i: int| 0 <= i < r.assertions.len() ==> #[trigger] r.assertions@[i]
}

/// The step failed, or one of its assertions did.
pub open spec fn step_failed(r: ScenarioStepResult) -> bool {
    r.status == ScenarioStepStatus::Failed || exists|i: int| 0 <= i < r.assertions.len() && !#[trigger] r.assertions@[i]
}

impl ScenarioStepResult {
    /// A pending result with no error, duration or assertions.
    pub fn new(name: String) -> (r: ScenarioStepResult)
        ensures
            r.name@ == name@,
            r.description is None,
            r.status == ScenarioStepStatus::Pending,
            r.error is None,
            r.duration_ms == 0,
            r.assertions@.len() == 0,
    {
        ScenarioStepResult {
            name,
            description: None,
            status: ScenarioStepStatus::Pending,
            error: None,
            duration_ms: 0,
            assertions: Vec::new(),
        }
    }

    /// Sets the status.
    pub fn with_status(self, status: ScenarioStepStatus) -> (r: ScenarioStepResult)
        ensures
            r.name == self.name,
            r.description == self.description,
            r.status == status,
            r.error == self.error,
            r.duration_ms == self.duration_ms,
            r.assertions == self.assertions,
    {
        ScenarioStepResult { status, ..self }
    }

    /// Sets the error message.
    pub fn with_error(self, error: String) -> (r: ScenarioStepResult)
        ensures
            r.name == self.name,
            r.description == self.description,
            r.status == self.status,
            r.error matches Some(e) && e@ == error@,
            r.duration_ms == self.duration_ms,
            r.assertions == self.assertions,
    {
        ScenarioStepResult { error: Some(error), ..self }
    }

    /// Sets the duration.
    pub fn with_duration(self, duration_ms: u64) -> (r: ScenarioStepResult)
        ensures
            r.name == self.name,
            r.description == self.description,
            r.status == self.status,
            r.error == self.error,
            r.duration_ms == duration_ms,
            r.assertions == self.assertions,
    {
        ScenarioStepResult { duration_ms, ..self }
    }

    /// Adds the outcome of an assertion.
    pub fn with_assertion(self, passed: bool) -> (r: ScenarioStepResult)
        ensures
            r.name == self.name,
            r.status == self.status,
            r.error == self.error,
            r.assertions@ == self.assertions@.push(passed),
    {
        let mut r = self;
        r.assertions.push(passed);
        r
    }

    /// Sets the description.
    pub fn with_description(self, description: String) -> (r: ScenarioStepResult)
        ensures
            r == (ScenarioStepResult { description: Some(description), ..self }),
    {
        ScenarioStepResult { description: Some(description), ..self }
    }

    /// Adds the outcomes of assertions, in order.
    pub fn with_assertions(self, passed: Vec<bool>) -> (r: ScenarioStepResult)
        ensures
            r.assertions@ == self.assertions@ + passed@,
            r == (ScenarioStepResult { assertions: r.assertions, ..self }),
    {
        let mut r = self;
        let mut more = passed;
        r.assertions.append(&mut more);
        r
    }

    /// The step completed and all its assertions passed.
    pub fn passed(&self) -> (b: bool)
        ensures
            b == step_passed(*self),
    {
        if self.status != ScenarioStepStatus::Completed {
            return false;
        }
        let mut i: usize = 0;
        while i < self.assertions.len()
            invariant
                i <= self.assertions.len(),
                forall|j: int| 0 <= j < i ==> self.assertions@[j],
            decreases self.assertions.len() - i,
        {
            if !self.assertions[i] {
                return false;
            }
            i += 1;
        }
        true
    }

    /// The step failed, or one of its assertions did.
    pub fn failed(&self) -> (b: bool)
        ensures
            b == step_failed(*self),
    {
        if self.status == ScenarioStepStatus::Failed {
            return true;
        }
        let mut i: usize = 0;
        while i < self.assertions.len()
            invariant
                i <= self.assertions.len(),
                forall|j: int| 0 <= j < i ==> self.assertions@[j],
            decreases self.assertions.len() - i,
        {
            if !self.assertions[i] {
                return true;
            }
            i += 1;
        }
        false
    }
}

/// What a scenario knows of a step: its name, description, dependencies
/// and timeout. The step's code is held next to it by the runner.
#[derive(Debug, Clone)]
pub struct ScenarioStepInfo {
    pub name: String,
    pub description: Option<String>,
    pub dependencies: Vec<String>,
    /// Timeout in milliseconds.
    pub timeout_ms: Option<u64>,
}

impl ScenarioStepInfo {
    /// A step with no description, dependencies or timeout.
    pub fn new(name: String) -> (s: ScenarioStepInfo)
        ensures
            s.name@ == name@,
            s.description is None,
            s.dependencies@.len() == 0,
            s.timeout_ms is None,
    {
        ScenarioStepInfo { name, description: None, dependencies: Vec::new(), timeout_ms: None }
    }

    /// Sets the description.
    pub fn with_description(self, description: String) -> (s: ScenarioStepInfo)
        ensures
            s == (ScenarioStepInfo { description: Some(description), ..self }),
    {
        ScenarioStepInfo { description: Some(description), ..self }
    }

    /// Sets the timeout, in milliseconds.
    pub fn with_timeout(self, timeout_ms: u64) -> (s: ScenarioStepInfo)
        ensures
            s == (ScenarioStepInfo { timeout_ms: Some(timeout_ms), ..self }),
    {
        ScenarioStepInfo { timeout_ms: Some(timeout_ms), ..self }
    }

    /// Adds a dependency on the step of the given name.
    pub fn with_dependency(self, dependency: String) -> (s: ScenarioStepInfo)
        ensures
            s.name == self.name,
            s.description == self.description,
            s.dependencies@ == self.dependencies@.push(dependency),
            s.timeout_ms == self.timeout_ms,
    {
        let mut s = self;
        s.dependencies.push(dependency);
        s
    }
}

/// A scenario: steps run in dependency order.
#[derive(Debug, Clone)]
pub struct Scenario {
    pub name: String,
    pub description: Option<String>,
    pub steps: Vec<ScenarioStepInfo>,
    pub parallel: bool,
    pub fail_fast: bool,
    pub category: TestCategory,
}

/// The names of a list of steps.
pub open spec fn step_names(steps: Seq<ScenarioStepInfo>) -> Seq<Seq<char>> {
    steps.map_values(|s: ScenarioStepInfo| s.name@)
}

/// The dependency names of each of a list of steps.
pub open spec fn step_deps(steps: Seq<ScenarioStepInfo>) -> Seq<Seq<Seq<char>>> {
    steps.map_values(|s: ScenarioStepInfo| views(s.dependencies@))
}

impl Scenario {
    /// An integration scenario with no steps, run sequentially, not failing
    /// fast.
    pub fn new(name: String) -> (s: Scenario)
        ensures
            s.name@ == name@,
            s.description is None,
            s.steps@.len() == 0,
            !s.parallel,
            !s.fail_fast,
            s.category == TestCategory::Integration,
    {
        Scenario {
            name,
            description: None,
            steps: Vec::new(),
            parallel: false,
            fail_fast: false,
            category: TestCategory::Integration,
        }
    }

    /// Appends a step.
    pub fn with_step(self, step: ScenarioStepInfo) -> (s: Scenario)
        ensures
            s.name == self.name,
            s.steps@ == self.steps@.push(step),
            s.fail_fast == self.fail_fast,
            s.category == self.category,
    {
        let mut s = self;
        s.steps.push(step);
        s
    }

    /// Sets the description.
    pub fn with_description(self, description: String) -> (s: Scenario)
        ensures
            s == (Scenario { description: Some(description), ..self }),
    {
        Scenario { description: Some(description), ..self }
    }

    /// Appends steps, in order.
    pub fn with_steps(self, steps: Vec<ScenarioStepInfo>) -> (s: Scenario)
        ensures
            s.steps@ == self.steps@ + steps@,
            s == (Scenario { steps: s.steps, ..self }),
    {
        let mut s = self;
        let mut more = steps;
        s.steps.append(&mut more);
        s
    }

    /// Sets whether independent steps run in parallel.
    pub fn with_parallel(self, parallel: bool) -> (s: Scenario)
        ensures
            s == (Scenario { parallel, ..self }),
    {
        Scenario { parallel, ..self }
    }

    /// Sets the category of the test the scenario makes.
    pub fn with_category(self, category: TestCategory) -> (s: Scenario)
        ensures
            s == (Scenario { category, ..self }),
    {
        Scenario { category, ..self }
    }

    /// Sets fail-fast.
    pub fn with_fail_fast(self, fail_fast: bool) -> (s: Scenario)
        ensures
            s.name == self.name,
            s.steps == self.steps,
            s.fail_fast == fail_fast,
            s.category == self.category,
    {
        Scenario { fail_fast, ..self }
    }

    /// The positions of the steps in running order: each after the steps
    /// it depends on.
    pub fn sort_steps_by_dependencies(&self) -> (r: Result<Vec<usize>, TestHarnessError>)
        ensures
            dependency_sort_outcome(
                step_names(self.steps@),
                step_deps(self.steps@),
                Seq::new(self.steps.len() as nat, |i: int| 0),
                false,
                DependencyKind::Step,
                "Cyclic dependencies detected in scenario steps"@,
                r,
            ),
    {
        let mut names: Vec<String> = Vec::new();
        let mut deps: Vec<Vec<String>> = Vec::new();
        let mut ranks: Vec<u8> = Vec::new();
        let mut i: usize = 0;
        while i < self.steps.len()
            invariant
                i <= self.steps.len(),
                names.len() == i,
                deps.len() == i,
                ranks.len() == i,
                str_seq(names@) == step_names(self.steps@).subrange(0, i as int),
                str_seq_seq(deps@) == step_deps(self.steps@).subrange(0, i as int),
                forall|x: int| 0 <= x < ranks.len() ==> ranks@[x] == 0,
            decreases self.steps.len() - i,
        {
            names.push(self.steps[i].name.clone());
            deps.push(crate::engine::copy_strings(&self.steps[i].dependencies));
            ranks.push(0);
            assert(str_seq(names@) =~= step_names(self.steps@).subrange(0, i + 1));
            assert(str_seq_seq(deps@) =~= step_deps(self.steps@).subrange(0, i + 1));
            i += 1;
        }
        assert(step_names(self.steps@).subrange(0, i as int) =~= step_names(self.steps@));
        assert(step_deps(self.steps@).subrange(0, i as int) =~= step_deps(self.steps@));
        assert(ranks@.map_values(|k: u8| k as int) =~= Seq::new(self.steps.len() as nat, |i: int| 0));
        dependency_sort(&names, &deps, &ranks, false, DependencyKind::Step, "Cyclic dependencies detected in scenario steps")
    }
}


/// Position of the first result of the given name, or -1.
pub open spec fn first_named(results: Seq<ScenarioStepResult>, name: Seq<char>) -> int
    decreases results.len(),
{
    if results.len() == 0 {
        -1
    } else if results[0].name@ == name {
        0
    } else {
        let k = first_named(results.drop_first(), name);
        if k < 0 {
            -1
        } else {
            k + 1
        }
    }
}

/// The results after recording `r`: it replaces the first result of the
/// same name, or else comes last.
pub open spec fn with_result(results: Seq<ScenarioStepResult>, r: ScenarioStepResult) -> Seq<ScenarioStepResult> {
    let k = first_named(results, r.name@);
    if k < 0 {
        results.push(r)
    } else {
        results.update(k, r)
    }
}

proof fn lemma_first_named(results: Seq<ScenarioStepResult>, name: Seq<char>, i: int)
    requires
        0 <= i <= results.len(),
        forall|j: int| 0 <= j < i ==> results[j].name@ != name,
        i == results.len() || results[i].name@ == name,
    ensures
        first_named(results, name) == if i == results.len() { -1 } else { i },
    decreases i,
{
    if i > 0 {
        assert forall|j: int| 0 <= j < i - 1 implies results.drop_first()[j].name@ != name by {
            assert(results.drop_first()[j] == results[j + 1]);
        }
        if i < results.len() {
            assert(results.drop_first()[i - 1] == results[i]);
        }
        lemma_first_named(results.drop_first(), name, i - 1);
    }
}

/// What happened to a step the runner ran.
pub enum StepEvent {
    /// The step asked to be skipped.
    Skipped,
    /// Running the step failed with this message.
    ExecutionError { message: String, duration_ms: u64 },
    /// The step ran and gave this result.
    Finished(ScenarioStepResult),
}

/// The state of a scenario run: the results recorded, whether every step
/// so far passed, and whether fail-fast stopped the run.
pub struct ScenarioRun {
    pub results: Vec<ScenarioStepResult>,
    pub all_passed: bool,
    pub stopped: bool,
    pub fail_fast: bool,
}

impl ScenarioRun {
    /// A run with nothing recorded.
    pub fn new(fail_fast: bool) -> (r: ScenarioRun)
        ensures
            r.results@.len() == 0,
            r.all_passed,
            !r.stopped,
            r.fail_fast == fail_fast,
    {
        ScenarioRun { results: Vec::new(), all_passed: true, stopped: false, fail_fast }
    }

    /// Records `r`, replacing a result of the same name.
    fn record(&mut self, r: ScenarioStepResult)
        ensures
            final(self).results@ == with_result(old(self).results@, r),
            final(self).all_passed == old(self).all_passed,
            final(self).stopped == old(self).stopped,
            final(self).fail_fast == old(self).fail_fast,
    {
        let mut i: usize = 0;
        while i < self.results.len()
            invariant
                i <= self.results.len(),
                self.results@ == old(self).results@,
                self.all_passed == old(self).all_passed,
                self.stopped == old(self).stopped,
                self.fail_fast == old(self).fail_fast,
                forall|j: int| 0 <= j < i ==> self.results@[j].name@ != r.name@,
            decreases self.results.len() - i,
        {
            if eq_str(self.results[i].name.as_str(), r.name.as_str()) {
                proof {
                    lemma_first_named(self.results@, r.name@, i as int);
                }
                self.results.set(i, r);
                return;
            }
            i += 1;
        }
        proof {
            lemma_first_named(self.results@, r.name@, i as int);
        }
        self.results.push(r);
    }
}


/// The run after a step's event: a skipped step is recorded as skipped; a
/// step that could not run is recorded as failed with the message
/// `Step execution error: ` and the error, and with fail-fast stops the run;
/// a step whose result failed marks the run failed and with fail-fast stops
/// it without recording the result; any other result is recorded.
pub open spec fn after_event(
    results: Seq<ScenarioStepResult>,
    all_passed: bool,
    fail_fast: bool,
    step_name: Seq<char>,
    event: StepEvent,
    recorded: Seq<ScenarioStepResult>,
    new_all_passed: bool,
    stopped: bool,
) -> bool {
    match event {
        StepEvent::Skipped => {
            &&& exists|r: ScenarioStepResult|
                #![trigger with_result(results, r)]
                recorded == with_result(results, r) && r.name@ == step_name && r.status == ScenarioStepStatus::Skipped
                    && r.error is None && r.assertions@.len() == 0
            &&& new_all_passed == all_passed
            &&& !stopped
        },
        StepEvent::ExecutionError { message, duration_ms } => {
            &&& exists|r: ScenarioStepResult|
                #![trigger with_result(results, r)]
                recorded == with_result(results, r) && r.name@ == step_name && r.status == ScenarioStepStatus::Failed
                    && (r.error matches Some(e) && e@ == "Step execution error: "@ + message@) && r.duration_ms
                    == duration_ms && r.assertions@.len() == 0
            &&& !new_all_passed
            &&& stopped == fail_fast
        },
        StepEvent::Finished(r) => if step_failed(r) {
            &&& !new_all_passed
            &&& stopped == fail_fast
            &&& recorded == (if fail_fast {
                results
            } else {
                with_result(results, r)
            })
        } else {
            &&& new_all_passed == all_passed
            &&& !stopped
            &&& recorded == with_result(results, r)
        },
    }
}

impl ScenarioRun {
    /// Takes the event of the step named `step_name`, as `after_event`
    /// describes.
    pub fn on_step(&mut self, step_name: &String, event: StepEvent)
        requires
            !old(self).stopped,
        ensures
            after_event(
                old(self).results@,
                old(self).all_passed,
                old(self).fail_fast,
                step_name@,
                event,
                final(self).results@,
                final(self).all_passed,
                final(self).stopped,
            ),
            final(self).fail_fast == old(self).fail_fast,
    {
        match event {
            StepEvent::Skipped => {
                let r = ScenarioStepResult::new(step_name.clone()).with_status(ScenarioStepStatus::Skipped);
                let ghost gr = r;
                self.record(r);
                assert(self.results@ == with_result(old(self).results@, gr));
            },
            StepEvent::ExecutionError { message, duration_ms } => {
                self.all_passed = false;
                let mut e = "Step execution error: ".to_owned();
                e.append(message.as_str());
                let r = ScenarioStepResult::new(step_name.clone()).with_status(ScenarioStepStatus::Failed).with_error(
                    e,
                ).with_duration(duration_ms);
                let ghost gr = r;
                self.record(r);
                assert(self.results@ == with_result(old(self).results@, gr));
                if self.fail_fast {
                    self.stopped = true;
                }
            },
            StepEvent::Finished(r) => {
                if r.failed() {
                    self.all_passed = false;
                    if self.fail_fast {
                        self.stopped = true;
                        return;
                    }
                }
                self.record(r);
            },
        }
    }

    /// Passed when every step passed, else failed.
    pub fn outcome(&self) -> (o: TestOutcome)
        ensures
            o == (if self.all_passed { TestOutcome::Passed } else { TestOutcome::Failed }),
    {
        if self.all_passed {
            TestOutcome::Passed
        } else {
            TestOutcome::Failed
        }
    }

    /// The error of a failed run: `Scenario failed with `, the number of
    /// failed steps, ` failed steps: `, and for each failed step its name,
    /// `: ` and its error or `Failed`, separated by `, `; `None` when every
    /// step passed.
    pub fn failure_message(&self) -> (m: Option<String>)
        ensures
            self.all_passed ==> m is None,
            !self.all_passed ==> (m matches Some(s) && s@ == failure_text(self.results@)),
    {
        if self.all_passed {
            return None;
        }
        let mut items: Vec<String> = Vec::new();
        let mut i: usize = 0;
        while i < self.results.len()
            invariant
                i <= self.results.len(),
                crate::text::views(items@) == failed_items(self.results@.subrange(0, i as int)),
            decreases self.results.len() - i,
        {
            let r = &self.results[i];
            assert(self.results@.subrange(0, i + 1).drop_last() =~= self.results@.subrange(0, i as int));
            if r.failed() {
                let mut item = r.name.clone();
                item.append(": ");
                match &r.error {
                    Some(e) => item.append(e.as_str()),
                    None => item.append("Failed"),
                }
                let ghost before = items@;
                items.push(item);
                assert(crate::text::views(items@) =~= crate::text::views(before).push(item@));
            }
            i += 1;
        }
        assert(self.results@.subrange(0, i as int) =~= self.results@);
        let mut s = "Scenario failed with ".to_owned();
        s.append(crate::chars::decimal_string(items.len() as u64).as_str());
        s.append(" failed steps: ");
        s.append(crate::environment::join_strings(&items, ", ").as_str());
        Some(s)
    }
}

/// The failure lines of the failed results: name, `: `, and the error or
/// `Failed`.
pub open spec fn failed_items(results: Seq<ScenarioStepResult>) -> Seq<Seq<char>>
    decreases results.len(),
{
    if results.len() == 0 {
        Seq::empty()
    } else {
        let rest = failed_items(results.drop_last());
        let r = results.last();
        if step_failed(r) {
            rest.push(r.name@ + ": "@ + match r.error {
                Some(e) => e@,
                None => "Failed"@,
            })
        } else {
            rest
        }
    }
}

/// The error text of a failed run.
pub open spec fn failure_text(results: Seq<ScenarioStepResult>) -> Seq<char> {
    "Scenario failed with "@ + crate::chars::decimal(failed_items(results).len()) + " failed steps: "@
        + crate::environment::joined(failed_items(results), ", "@)
}

} // verus!
