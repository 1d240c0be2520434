use test_harness::environment::ParamValue;
use test_harness::performance::{create_performance_test_params, user_start_delay_ms, PerformanceTestParams};
use test_harness::chars::{decimal_string, parse_status, parse_u64, split_trimmed};
use test_harness::error_recovery_tests::create_error_recovery_test_suite;
use test_harness::integration_tests::create_integration_test_suite;
use test_harness::kv::StrMap;
use test_harness::metrics::{select_by_tag, select_by_type, sorted_durations, MetricType, TimeMetrics};
use test_harness::model::{create_test_suite, TestCategory, TestHarnessError, TestOutcome, TestPriority, TestResult};
use test_harness::plugins::PluginManager;
use test_harness::registry::Registry;
use test_harness::report_metrics::TimeMetrics as ReportTimeMetrics;
use test_harness::reporting::{dashboard_totals, ExportFormat, FileReporter, MultiFormatExporter, TestRun};
use test_harness::scenario::{
    Scenario, ScenarioRun, ScenarioStepInfo, ScenarioStepResult, ScenarioStepStatus, StepEvent,
};
use test_harness::storage::{StorageOperation, StorageOperationType};
use test_harness::text::contains_str;

fn run_scenario(scenario: &Scenario, events: Vec<StepEvent>) -> ScenarioRun {
    let order = scenario.sort_steps_by_dependencies().unwrap();
    let mut run = ScenarioRun::new(scenario.fail_fast);
    for (i, event) in order.into_iter().zip(events) {
        if run.stopped {
            break;
        }
        run.on_step(&scenario.steps[i].name, event);
    }
    run
}

#[test]
fn test_scenario_execution() {
    let scenario = Scenario::new("test_scenario".to_string())
        .with_step(ScenarioStepInfo::new("step1".to_string()))
        .with_step(ScenarioStepInfo::new("step2".to_string()).with_dependency("step1".to_string()));
    let events = vec![
        StepEvent::Finished(ScenarioStepResult::new("step1".to_string()).with_status(ScenarioStepStatus::Completed)),
        StepEvent::Finished(ScenarioStepResult::new("step2".to_string()).with_status(ScenarioStepStatus::Completed)),
    ];
    let run = run_scenario(&scenario, events);
    assert_eq!(run.outcome(), TestOutcome::Passed);
    assert_eq!(run.results[0].status, ScenarioStepStatus::Completed);
    assert!(run.failure_message().is_none());
}

#[test]
fn test_scenario_with_failing_step() {
    let scenario = Scenario::new("test_scenario".to_string())
        .with_step(ScenarioStepInfo::new("step1".to_string()))
        .with_step(ScenarioStepInfo::new("step2".to_string()).with_dependency("step1".to_string()))
        .with_fail_fast(true);
    let events = vec![
        StepEvent::Finished(
            ScenarioStepResult::new("step1".to_string())
                .with_status(ScenarioStepStatus::Failed)
                .with_error("Step failed".to_string()),
        ),
        StepEvent::Finished(ScenarioStepResult::new("step2".to_string()).with_status(ScenarioStepStatus::Completed)),
    ];
    let run = run_scenario(&scenario, events);
    assert_eq!(run.outcome(), TestOutcome::Failed);
    assert!(run.stopped);
    assert!(run.results.is_empty());
}

#[test]
fn test_scenario_with_skipped_step() {
    let scenario = Scenario::new("test_scenario".to_string())
        .with_step(ScenarioStepInfo::new("step1".to_string()))
        .with_step(ScenarioStepInfo::new("step2".to_string()));
    let events = vec![
        StepEvent::Skipped,
        StepEvent::Finished(ScenarioStepResult::new("step2".to_string()).with_status(ScenarioStepStatus::Completed)),
    ];
    let run = run_scenario(&scenario, events);
    assert_eq!(run.outcome(), TestOutcome::Passed);
    assert_eq!(run.results[0].status, ScenarioStepStatus::Skipped);
}

#[test]
fn scenario_failure_message_lists_failed_steps() {
    let mut run = ScenarioRun::new(false);
    run.on_step(&"a".to_string(), StepEvent::ExecutionError { message: "boom".to_string(), duration_ms: 3 });
    run.on_step(
        &"b".to_string(),
        StepEvent::Finished(ScenarioStepResult::new("b".to_string()).with_status(ScenarioStepStatus::Failed)),
    );
    run.on_step(
        &"c".to_string(),
        StepEvent::Finished(
            ScenarioStepResult::new("c".to_string()).with_status(ScenarioStepStatus::Completed).with_assertion(true),
        ),
    );
    assert_eq!(run.outcome(), TestOutcome::Failed);
    assert_eq!(
        run.failure_message().unwrap(),
        "Scenario failed with 2 failed steps: a: Step execution error: boom, b: Failed"
    );
    assert_eq!(ScenarioStepStatus::Skipped.name(), "Skipped");
}

#[test]
fn scenario_step_failed_by_assertion() {
    let r = ScenarioStepResult::new("s".to_string()).with_status(ScenarioStepStatus::Completed).with_assertion(false);
    assert!(r.failed());
    assert!(!r.passed());
}

#[test]
fn scenario_steps_with_unknown_dependency() {
    let scenario = Scenario::new("s".to_string())
        .with_step(ScenarioStepInfo::new("a".to_string()).with_dependency("nope".to_string()));
    match scenario.sort_steps_by_dependencies() {
        Err(TestHarnessError::ExecutionError(m)) => assert_eq!(m, "Step a depends on unknown step nope"),
        other => panic!("unexpected {:?}", other),
    }
}

#[test]
fn time_metrics_statistics() {
    let durations: Vec<u128> = vec![50, 10, 40, 20, 30];
    let m = TimeMetrics::new(&durations);
    assert_eq!(m.total_duration, 150);
    assert_eq!(m.avg_duration, 30);
    assert_eq!(m.min_duration, 10);
    assert_eq!(m.max_duration, 50);
    assert_eq!(m.median_duration, 30);
    assert_eq!(m.p90_duration, 50);
    assert_eq!(m.p95_duration, 50);
    assert_eq!(m.p99_duration, 50);
    assert_eq!(sorted_durations(&durations), vec![10, 20, 30, 40, 50]);
    let empty = TimeMetrics::new(&vec![]);
    assert_eq!(empty.total_duration, 0);
    assert_eq!(empty.p99_duration, 0);
    assert_eq!(MetricType::Counter.name(), "counter");
}

#[test]
fn time_metrics_percentiles_of_ten() {
    let durations: Vec<u128> = (1..=10).map(|x| x * 100).collect();
    let m = TimeMetrics::new(&durations);
    assert_eq!(m.median_duration, 600);
    assert_eq!(m.p90_duration, 1000);
    assert_eq!(m.avg_duration, 550);
}

#[test]
fn report_time_metrics_average() {
    let mut m = ReportTimeMetrics::new(1_000).with_setup_duration(10).with_teardown_duration(20);
    assert_eq!(m.average_test_duration(), None);
    m.add_test_duration("a".to_string(), 100);
    m.add_test_duration("b".to_string(), 201);
    assert_eq!(m.average_test_duration(), Some(150));
    m.add_test_duration("a".to_string(), 300);
    assert_eq!(m.average_test_duration(), Some(250));
    assert_eq!(m.total_duration(), 1_000);
    assert_eq!(m.setup_duration(), Some(10));
    assert_eq!(m.teardown_duration(), Some(20));
}

#[test]
fn export_formats_and_exporter_choice() {
    assert_eq!(ExportFormat::Markdown.extension(), "md");
    assert_eq!(ExportFormat::Console.extension(), "txt");
    assert_eq!(ExportFormat::Json.mime_type(), "application/json");
    let mut e = MultiFormatExporter::new(
        "all".to_string(),
        vec![vec![ExportFormat::Html], vec![ExportFormat::Json, ExportFormat::Csv]],
    );
    assert_eq!(e.description.as_deref(), Some("Multi-format exporter: all"));
    assert_eq!(e.exporter_for("csv").unwrap(), 1);
    assert_eq!(e.exporter_for("pdf").unwrap(), 0);
    e.add_exporter(vec![ExportFormat::Pdf]);
    assert_eq!(e.exporter_for("pdf").unwrap(), 2);
    let none = MultiFormatExporter::new("none".to_string(), vec![]);
    match none.exporter_for("html") {
        Err(TestHarnessError::ReportingError(m)) => assert_eq!(m, "No exporter found for format: html"),
        other => panic!("unexpected {:?}", other),
    }
}

#[test]
fn file_reporter_names_result_files() {
    assert_eq!(FileReporter::<()>::result_file_name("test_", "my suite name"), "test_my_suite_name.txt");
}

#[test]
fn test_run_counts() {
    let mut run = TestRun::new("r1".to_string(), "nightly".to_string())
        .with_result(TestResult::new("a".to_string(), TestCategory::Unit, TestOutcome::Passed))
        .with_result(TestResult::new("b".to_string(), TestCategory::Unit, TestOutcome::Skipped))
        .with_result(TestResult::new("c".to_string(), TestCategory::Unit, TestOutcome::Passed));
    run.calculate_counts();
    assert_eq!(run.test_count(), 3);
    assert_eq!(run.passed_count, 2);
    assert_eq!(run.skipped_count, 1);
    assert_eq!(run.failed_count, 0);
}

#[test]
fn registry_register_get_remove() {
    let mut r: Registry<u32> = Registry::new();
    r.insert_new("a".to_string(), 1);
    r.insert_new("b".to_string(), 2);
    assert_eq!(r.get("a"), Some(&1));
    assert!(r.contains("b"));
    r.remove("a");
    assert_eq!(r.get("a"), None);
    assert_eq!(r.len(), 1);
}

#[test]
fn plugin_manager_errors() {
    let mut p: PluginManager<&str> = PluginManager::new();
    p.register_plugin("x".to_string(), "first").unwrap();
    match p.register_plugin("x".to_string(), "second") {
        Err(TestHarnessError::PluginError(m)) => assert_eq!(m, "Plugin with name 'x' already registered"),
        other => panic!("unexpected {:?}", other),
    }
    assert_eq!(p.get_plugin("x"), Some(&"first"));
    match p.unregister_plugin("y") {
        Err(TestHarnessError::PluginError(m)) => assert_eq!(m, "Plugin with name 'y' not registered"),
        other => panic!("unexpected {:?}", other),
    }
    p.unregister_plugin("x").unwrap();
    assert_eq!(p.len(), 0);
}

#[test]
fn plugin_manager_gives_every_plugin_once() {
    let mut p: PluginManager<&str> = PluginManager::new();
    assert!(p.get_all_plugins().is_empty());
    p.register_plugin("a".to_string(), "first").unwrap();
    p.register_plugin("b".to_string(), "second").unwrap();
    p.register_plugin("c".to_string(), "third").unwrap();
    p.unregister_plugin("b").unwrap();
    let mut all: Vec<&str> = p.get_all_plugins().into_iter().copied().collect();
    all.sort();
    assert_eq!(all, vec!["first", "third"]);
}

#[test]
fn storage_operations() {
    let op = StorageOperation::read("k".to_string()).with_option("ttl".to_string(), "5".to_string());
    assert_eq!(op.operation_type, StorageOperationType::Read);
    assert_eq!(op.options.get("ttl").unwrap(), "5");
    assert_eq!(StorageOperation::key_exists("k".to_string()).operation_type.name(), "Exists");
}

#[test]
fn suites_of_the_harness() {
    let s = create_error_recovery_test_suite();
    assert_eq!(s.name, "Error Recovery Tests");
    assert_eq!(s.test_cases.len(), 7);
    assert_eq!(s.test_cases[3].category, TestCategory::Unit);
    let i = create_integration_test_suite();
    assert_eq!(i.test_cases.len(), 1);
    let empty = create_test_suite("x".to_string());
    assert_eq!(empty.priority, TestPriority::Medium);
}

#[test]
fn text_helpers() {
    assert!(contains_str("hello world", "o w"));
    assert!(!contains_str("hello", "world"));
    assert_eq!(decimal_string(0), "0");
    assert_eq!(decimal_string(1234567), "1234567");
    assert_eq!(parse_status("404"), Some(404));
    assert_eq!(parse_status("+7"), Some(7));
    assert_eq!(parse_status("70000"), None);
    assert_eq!(parse_status(""), None);
    assert_eq!(parse_u64("18446744073709551615"), Some(u64::MAX));
    assert_eq!(parse_u64("18446744073709551616"), None);
    let (a, b) = split_trimmed(" key : value ", ':').unwrap();
    assert_eq!(a.iter().collect::<String>(), "key");
    assert_eq!(b.iter().collect::<String>(), "value");
    assert!(split_trimmed("novalue", ':').is_none());
}

#[test]
fn str_map_behaves_like_a_map() {
    let mut m = StrMap::new();
    m.insert("a".to_string(), "1".to_string());
    m.insert("b".to_string(), "2".to_string());
    m.insert("a".to_string(), "3".to_string());
    assert_eq!(m.len(), 2);
    assert_eq!(m.get("a").unwrap(), "3");
    m.remove("a");
    assert!(!m.contains_key("a"));
    let keys = m.keys();
    assert_eq!(keys, vec!["b".to_string()]);
    let mut other = StrMap::new();
    other.insert("c".to_string(), "4".to_string());
    m.extend(&other);
    assert_eq!(m.get("c").unwrap(), "4");
    let (k, v) = m.entry(0);
    assert_eq!((k.as_str(), v.as_str()), ("b", "2"));
}

#[test]
fn test_performance_test_params() {
    let params = create_performance_test_params()
        .with_concurrent_users(20)
        .with_duration(30_000)
        .with_ramp_up_time(5_000)
        .with_ramp_down_time(5_000)
        .with_think_time(50)
        .with_request_timeout(5_000)
        .with_max_requests_per_second(100);
    assert_eq!(params.concurrent_users, 20);
    assert_eq!(params.duration_ms, 30_000);
    assert_eq!(params.ramp_up_time_ms, 5_000);
    assert_eq!(params.ramp_down_time_ms, 5_000);
    assert_eq!(params.think_time_ms, 50);
    assert_eq!(params.request_timeout_ms, 5_000);
    assert_eq!(params.max_requests_per_second, Some(100));
}

#[test]
fn users_start_evenly_over_the_ramp_up() {
    let params = PerformanceTestParams::new().with_concurrent_users(4).with_ramp_up_time(1_000);
    let delays: Vec<u128> = (0..4).map(|u| user_start_delay_ms(&params, u)).collect();
    assert_eq!(delays, vec![0, 333, 666, 999]);
    let single = PerformanceTestParams::new().with_concurrent_users(1);
    assert_eq!(user_start_delay_ms(&single, 0), 0);
    let custom = PerformanceTestParams::new().with_custom_param("mode".to_string(), ParamValue::Bool(true));
    assert_eq!(custom.custom_params.get("mode").unwrap(), "true");
}

#[test]
fn dashboard_totals_sum_the_runs() {
    let r = |o: TestOutcome| TestResult::new("t".to_string(), TestCategory::Unit, o);
    let mut a = TestRun::new("a".to_string(), "A".to_string())
        .with_results(vec![r(TestOutcome::Passed), r(TestOutcome::Failed), r(TestOutcome::Passed)]);
    a.calculate_counts();
    let mut b = TestRun::new("b".to_string(), "B".to_string())
        .with_results(vec![r(TestOutcome::Skipped), r(TestOutcome::Passed)]);
    b.calculate_counts();
    let t = dashboard_totals(&vec![a, b]).unwrap();
    assert_eq!(t.tests, 5);
    assert_eq!(t.passed, 3);
    assert_eq!(t.failed, 1);
    assert_eq!(t.skipped, 1);
    let none = dashboard_totals(&Vec::new()).unwrap();
    assert_eq!(none.tests, 0);
    let mut big = TestRun::new("c".to_string(), "C".to_string());
    big.passed_count = usize::MAX;
    let mut one = TestRun::new("d".to_string(), "D".to_string());
    one.passed_count = 1;
    assert!(dashboard_totals(&vec![big, one]).is_none());
}

#[test]
fn metrics_selected_by_type_and_tag() {
    let types = vec![MetricType::Gauge, MetricType::Counter, MetricType::Gauge];
    assert_eq!(select_by_type(&types, MetricType::Gauge), vec![0, 2]);
    assert_eq!(select_by_type(&types, MetricType::Counter), vec![1]);
    let mut a = StrMap::new();
    a.insert("env".to_string(), "test".to_string());
    let mut b = StrMap::new();
    b.insert("env".to_string(), "production".to_string());
    let tags = vec![a, b, StrMap::new()];
    assert_eq!(select_by_tag(&tags, "env", "production"), vec![1]);
    assert_eq!(select_by_tag(&tags, "env", "test"), vec![0]);
    assert!(select_by_tag(&tags, "other", "x").is_empty());
}

#[test]
fn json_strings_escape_as_serde_json_does() {
    use_param_json(&["plain", "a\"b", "back\\slash", "line\nbreak\ttab\r", "\u{8}\u{c}\u{1}\u{1f}", "é ✅"]);
}

fn use_param_json(texts: &[&str]) {
    for t in texts {
        let ours = test_harness::environment::param_json_text(&ParamValue::Text(t.to_string()));
        let theirs = serde_json::Value::String(t.to_string()).to_string();
        assert_eq!(ours, theirs);
    }
}
