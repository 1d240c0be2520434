use test_harness::case_run::{execution_error_result, CaseAction, ExecOutcome, TestCaseRun};
use test_harness::engine::{SequentialRun, TestEngine, TestExecutionOptions};
use test_harness::model::{
    create_test_result, TestCase, TestCategory, TestHarnessError, TestOutcome, TestPriority, TestResult, TestSuite,
    TestSuiteResult,
};

fn run_to_end(run: &mut TestCaseRun, body: ExecOutcome, teardown: Result<(), String>) -> (Option<String>, TestResult) {
    match run.after_skip_check(Ok(false)) {
        CaseAction::RunSetup => {}
        other => panic!("expected setup, got {:?}", other),
    }
    match run.after_setup(Ok(())) {
        CaseAction::Execute(_) => {}
        other => panic!("expected execution, got {:?}", other),
    }
    match run.after_execute(body) {
        CaseAction::RunTeardown => {}
        other => panic!("expected teardown, got {:?}", other),
    }
    match run.after_teardown(teardown) {
        (w, CaseAction::Report(r)) => (w, r),
        other => panic!("expected a report, got {:?}", other),
    }
}

#[test]
fn test_engine_creation() {
    let engine = TestEngine::new();
    assert_eq!(engine.options.max_parallel_tests, num_cpus::get());
}

#[test]
fn test_engine_builder() {
    let options = TestExecutionOptions { max_parallel_tests: 4, default_timeout_ms: 30_000, ..Default::default() };
    let engine = TestEngine::builder().with_options(options).build();
    assert_eq!(engine.options.max_parallel_tests, 4);
    assert_eq!(engine.options.default_timeout_ms, 30_000);
}

#[test]
fn default_options_match_the_documented_defaults() {
    let o = TestExecutionOptions::default();
    assert_eq!(o.default_timeout_ms, 60_000);
    assert_eq!(o.max_retries, 3);
    assert!(o.include_skipped);
    assert!(o.prioritize);
    assert!(!o.fail_fast);
    assert!(!o.shuffle);
    assert!(o.max_parallel_tests >= 1);
}

#[test]
fn test_run_single_test_case() {
    let engine = TestEngine::new();
    let case = TestCase::new(TestCategory::Unit, "test_simple_pass".to_string());
    let mut run = TestCaseRun::new(&case, engine.options.default_timeout_ms);
    let body = TestResult::new("test_simple_pass".to_string(), TestCategory::Unit, TestOutcome::Passed);
    let (warning, result) = run_to_end(&mut run, ExecOutcome::Completed(body), Ok(()));
    assert!(warning.is_none());
    assert_eq!(result.outcome, TestOutcome::Passed);
}

#[test]
fn test_run_test_case_with_setup_teardown() {
    let engine = TestEngine::new();
    let case = TestCase::new(TestCategory::Unit, "test_with_setup_teardown".to_string());
    let mut run = TestCaseRun::new(&case, engine.options.default_timeout_ms);
    assert!(matches!(run.after_skip_check(Ok(false)), CaseAction::RunSetup));
    assert!(matches!(run.after_setup(Ok(())), CaseAction::Execute(60_000)));
    let body = TestResult::new("test_with_setup_teardown".to_string(), TestCategory::Unit, TestOutcome::Passed);
    let teardown_requested = matches!(run.after_execute(ExecOutcome::Completed(body)), CaseAction::RunTeardown);
    assert!(teardown_requested);
    let (_, action) = run.after_teardown(Ok(()));
    match action {
        CaseAction::Report(r) => assert_eq!(r.outcome, TestOutcome::Passed),
        other => panic!("expected a report, got {:?}", other),
    }
}

#[test]
fn test_run_test_case_with_timeout() {
    let options = TestExecutionOptions { default_timeout_ms: 100, ..Default::default() };
    let engine = TestEngine::builder().with_options(options).build();
    let case = TestCase::new(TestCategory::Unit, "test_timeout".to_string());
    let mut run = TestCaseRun::new(&case, engine.options.default_timeout_ms);
    assert!(matches!(run.after_skip_check(Ok(false)), CaseAction::RunSetup));
    assert!(matches!(run.after_setup(Ok(())), CaseAction::Execute(100)));
    run.after_execute(ExecOutcome::TimedOut);
    let (_, action) = run.after_teardown(Ok(()));
    match action {
        CaseAction::Report(r) => {
            assert_eq!(r.outcome, TestOutcome::TimedOut);
            assert_eq!(r.error.as_deref(), Some("Test timed out after 100ms"));
        }
        other => panic!("expected a report, got {:?}", other),
    }
}

#[test]
fn test_run_test_suite() {
    let engine = TestEngine::new();
    let suite = TestSuite::new("test_suite".to_string())
        .with_test_case(TestCase::new(TestCategory::Unit, "test_pass".to_string()))
        .with_test_case(TestCase::new(TestCategory::Unit, "test_fail".to_string()));
    let mut result = TestSuiteResult::new(suite.name.clone());
    let bodies = vec![
        TestResult::new("test_pass".to_string(), TestCategory::Unit, TestOutcome::Passed),
        TestResult::new("test_fail".to_string(), TestCategory::Unit, TestOutcome::Failed)
            .with_error("Test failed".to_string()),
    ];
    for (case, body) in suite.test_cases.iter().zip(bodies) {
        let mut run = TestCaseRun::new(case, engine.options.default_timeout_ms);
        let (_, r) = run_to_end(&mut run, ExecOutcome::Completed(body), Ok(()));
        result.add_test_result(r);
    }
    assert_eq!(result.passed, 1);
    assert_eq!(result.failed, 1);
    assert!(!result.all_passed());
}

#[test]
fn skipped_test_is_reported_without_running() {
    let case = TestCase::new(TestCategory::Unit, "skipped".to_string());
    let mut run = TestCaseRun::new(&case, 1000);
    match run.after_skip_check(Ok(true)) {
        CaseAction::Report(r) => {
            assert_eq!(r.outcome, TestOutcome::Skipped);
            assert_eq!(r.name, "skipped");
            assert!(r.error.is_none());
        }
        other => panic!("expected a report, got {:?}", other),
    }
}

#[test]
fn failed_skip_check_aborts_the_run() {
    let case = TestCase::new(TestCategory::Unit, "t".to_string());
    let mut run = TestCaseRun::new(&case, 1000);
    match run.after_skip_check(Err(TestHarnessError::ExecutionError("boom".to_string()))) {
        CaseAction::Abort(TestHarnessError::ExecutionError(m)) => assert_eq!(m, "boom"),
        other => panic!("expected an abort, got {:?}", other),
    }
}

#[test]
fn failed_setup_fails_the_test_without_teardown() {
    let case = TestCase::new(TestCategory::Integration, "needs_db".to_string());
    let mut run = TestCaseRun::new(&case, 1000);
    run.after_skip_check(Ok(false));
    match run.after_setup(Err("no database".to_string())) {
        CaseAction::Report(r) => {
            assert_eq!(r.outcome, TestOutcome::Failed);
            assert_eq!(r.error.as_deref(), Some("Setup failed: no database"));
            assert_eq!(r.category, TestCategory::Integration);
        }
        other => panic!("expected a report, got {:?}", other),
    }
}

#[test]
fn body_error_fails_the_test_and_teardown_failure_only_warns() {
    let case = TestCase::new(TestCategory::Unit, "flaky".to_string());
    let mut run = TestCaseRun::new(&case, 1000);
    let (warning, r) = run_to_end(&mut run, ExecOutcome::Errored("oops".to_string()), Err("disk full".to_string()));
    assert_eq!(r.outcome, TestOutcome::Failed);
    assert_eq!(r.error.as_deref(), Some("Test error: oops"));
    assert_eq!(warning.as_deref(), Some("Teardown failed for flaky: disk full"));
}

#[test]
fn teardown_failure_keeps_a_passing_result() {
    let case = TestCase::new(TestCategory::Unit, "ok".to_string());
    let mut run = TestCaseRun::new(&case, 1000);
    let body = TestResult::new("ok".to_string(), TestCategory::Unit, TestOutcome::Passed);
    let (warning, r) = run_to_end(&mut run, ExecOutcome::Completed(body), Err("x".to_string()));
    assert_eq!(r.outcome, TestOutcome::Passed);
    assert!(warning.is_some());
}

#[test]
fn own_timeout_wins_over_the_default() {
    let case = TestCase::new(TestCategory::Unit, "slow".to_string()).with_timeout(1500);
    let mut run = TestCaseRun::new(&case, 100);
    run.after_skip_check(Ok(false));
    assert!(matches!(run.after_setup(Ok(())), CaseAction::Execute(1500)));
    run.after_execute(ExecOutcome::TimedOut);
    match run.after_teardown(Ok(())).1 {
        CaseAction::Report(r) => assert_eq!(r.error.as_deref(), Some("Test timed out after 1.5s")),
        other => panic!("expected a report, got {:?}", other),
    }
    let engine = TestEngine::new();
    assert_eq!(engine.test_timeout_ms(&case), 1500);
    assert_eq!(engine.test_timeout_ms(&TestCase::new(TestCategory::Unit, "x".to_string())), 60_000);
}

#[test]
fn execution_error_is_a_failure() {
    let case = TestCase::new(TestCategory::EndToEnd, "e2e".to_string());
    let r = execution_error_result(&case, "crashed");
    assert_eq!(r.outcome, TestOutcome::Failed);
    assert_eq!(r.error.as_deref(), Some("Test execution error: crashed"));
    assert_eq!(r.category, TestCategory::EndToEnd);
}

#[test]
fn filter_keeps_allowed_cases_in_order() {
    let mut options = TestExecutionOptions::default();
    options.include_categories = Some(vec![TestCategory::Unit]);
    options.exclude_tags = Some(vec!["slow".to_string()]);
    let engine = TestEngine::builder().with_options(options).build();
    let cases = vec![
        TestCase::new(TestCategory::Unit, "a".to_string()),
        TestCase::new(TestCategory::Integration, "b".to_string()),
        TestCase::new(TestCategory::Unit, "c".to_string()).with_tag("slow".to_string()),
        TestCase::new(TestCategory::Unit, "d".to_string()),
    ];
    assert_eq!(engine.filter_test_cases(&cases, 0), vec![0, 3]);
}

#[test]
fn filter_by_name_and_priority() {
    let mut options = TestExecutionOptions::default();
    options.include_tests = Some(vec!["login".to_string()]);
    options.max_priority = Some(TestPriority::High);
    let engine = TestEngine::builder().with_options(options).build();
    let cases = vec![
        TestCase::new(TestCategory::Unit, "login_ok".to_string()).with_priority(TestPriority::Critical),
        TestCase::new(TestCategory::Unit, "login_slow".to_string()).with_priority(TestPriority::Low),
        TestCase::new(TestCategory::Unit, "logout".to_string()).with_priority(TestPriority::Critical),
    ];
    assert_eq!(engine.filter_test_cases(&cases, 0), vec![0]);
}

#[test]
fn shuffle_with_a_seed_is_a_repeatable_permutation() {
    let mut options = TestExecutionOptions::default();
    options.shuffle = true;
    options.shuffle_seed = Some(42);
    let engine = TestEngine::builder().with_options(options).build();
    let cases: Vec<TestCase> = (0..20).map(|i| TestCase::new(TestCategory::Unit, format!("t{}", i))).collect();
    let first = engine.filter_test_cases(&cases, 1);
    let second = engine.filter_test_cases(&cases, 2);
    assert_eq!(first, second);
    let mut sorted = first.clone();
    sorted.sort();
    assert_eq!(sorted, (0..20).collect::<Vec<usize>>());
    assert_ne!(first, (0..20).collect::<Vec<usize>>());
}

#[test]
fn sort_cases_by_dependencies_and_priority() {
    let engine = TestEngine::new();
    let cases = vec![
        TestCase::new(TestCategory::Unit, "c".to_string()).with_dependency("a".to_string()),
        TestCase::new(TestCategory::Unit, "a".to_string()).with_priority(TestPriority::Low),
        TestCase::new(TestCategory::Unit, "b".to_string()).with_priority(TestPriority::Critical),
    ];
    assert_eq!(engine.sort_test_cases(&cases).unwrap(), vec![2, 1, 0]);
}

#[test]
fn sort_cases_reports_unknown_dependency_and_cycle() {
    let engine = TestEngine::new();
    let unknown = vec![TestCase::new(TestCategory::Unit, "a".to_string()).with_dependency("zzz".to_string())];
    match engine.sort_test_cases(&unknown) {
        Err(TestHarnessError::ExecutionError(m)) => assert_eq!(m, "Test case a depends on unknown test case zzz"),
        other => panic!("expected an execution error, got {:?}", other),
    }
    let cyclic = vec![
        TestCase::new(TestCategory::Unit, "a".to_string()).with_dependency("b".to_string()),
        TestCase::new(TestCategory::Unit, "b".to_string()).with_dependency("a".to_string()),
    ];
    match engine.sort_test_cases(&cyclic) {
        Err(TestHarnessError::ExecutionError(m)) => assert_eq!(m, "Cyclic dependencies detected in test cases"),
        other => panic!("expected an execution error, got {:?}", other),
    }
}

#[test]
fn sort_suites_orders_dependent_suites_later() {
    let engine = TestEngine::new();
    let mut later = TestSuite::new("later".to_string());
    later.dependencies.push("first".to_string());
    let suites = vec![later, TestSuite::new("first".to_string())];
    assert_eq!(engine.sort_suites(&suites).unwrap(), vec![1, 0]);
}

#[test]
fn sequential_run_stops_at_first_failure_with_fail_fast() {
    let outcomes = [TestOutcome::Passed, TestOutcome::TimedOut, TestOutcome::Passed];
    let mut run = SequentialRun::new(3, true);
    let mut ran = 0;
    while let Some(i) = run.next_test() {
        run.record(outcomes[i]);
        ran += 1;
    }
    assert_eq!(ran, 2);
    let mut all = SequentialRun::new(3, false);
    let mut ran_all = 0;
    while let Some(i) = all.next_test() {
        all.record(outcomes[i]);
        ran_all += 1;
    }
    assert_eq!(ran_all, 3);
}

#[test]
fn fail_fast_stop_decisions() {
    let mut options = TestExecutionOptions::default();
    options.fail_fast = true;
    let engine = TestEngine::builder().with_options(options).build();
    assert!(engine.stops_after_test(TestOutcome::Panicked));
    assert!(!engine.stops_after_test(TestOutcome::Skipped));
    assert!(engine.stops_after_suite(false));
    assert!(!TestEngine::new().stops_after_suite(false));
}

#[test]
fn suite_result_counts_add_up() {
    let mut r = TestSuiteResult::new("s".to_string());
    let outcomes = [
        TestOutcome::Passed,
        TestOutcome::Failed,
        TestOutcome::Skipped,
        TestOutcome::TimedOut,
        TestOutcome::Panicked,
        TestOutcome::Passed,
    ];
    for (i, o) in outcomes.iter().enumerate() {
        r.add_test_result(create_test_result(format!("t{}", i), TestCategory::Unit, *o));
    }
    assert_eq!(r.total_tests(), 6);
    assert_eq!(r.passed + r.failed + r.skipped + r.timed_out + r.panicked, r.total_tests());
    assert_eq!(r.passed, 2);
    assert!(!r.all_passed());
}
