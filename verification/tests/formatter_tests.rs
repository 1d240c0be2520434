use test_harness::formatters::Formatter;
use test_harness::model::{TestCategory, TestOutcome, TestResult, TestSuiteResult};
use test_harness::reporting::{ConsoleFormatter, FormatterConfig, HtmlFormatter, MarkdownFormatter};

fn failed() -> TestResult {
    TestResult::new("login".to_string(), TestCategory::Integration, TestOutcome::Failed)
        .with_error("boom".to_string())
        .with_duration(1500)
}

#[test]
fn console_result_lines() {
    let f = ConsoleFormatter::new();
    let t = f.format_test_result(&failed(), &FormatterConfig::default()).unwrap();
    assert_eq!(t, "❌ FAIL login\n  Error: boom\n  Duration: 1.5s\n  Category: Integration\n");
    let mut c = FormatterConfig::default();
    c.include_duration = false;
    c.include_category_and_suite = false;
    let passed = TestResult::new("ok".to_string(), TestCategory::Unit, TestOutcome::Passed);
    assert_eq!(f.format_test_result(&passed, &c).unwrap(), "✅ PASS ok\n");
}

#[test]
fn console_suite_lines() {
    let mut s = TestSuiteResult::new("suite".to_string());
    s.add_test_result(TestResult::new("a".to_string(), TestCategory::Unit, TestOutcome::Passed));
    s.add_test_result(TestResult::new("b".to_string(), TestCategory::Unit, TestOutcome::Skipped));
    let mut c = FormatterConfig::default();
    c.include_duration = false;
    c.include_category_and_suite = false;
    let t = ConsoleFormatter::new().format_suite_result(&s, &c).unwrap();
    assert_eq!(
        t,
        "Test Suite: suite\nTotal Tests: 2\nPassed: 1\nFailed: 0\nSkipped: 1\nTimed Out: 0\nPanicked: 0\n\nTest Results:\n✅ PASS a\n\n⏭️ SKIP b\n\n"
    );
    c.include_children = false;
    let t = ConsoleFormatter::new().format_suite_result(&s, &c).unwrap();
    assert!(t.ends_with("Panicked: 0\n"));
}

#[test]
fn markdown_result_and_suite() {
    let f = MarkdownFormatter::new();
    let t = f.format_test_result(&failed(), &FormatterConfig::default()).unwrap();
    assert_eq!(t, "### ❌ FAIL login\n\n**Error:** boom\n\n**Duration:** 1.5s\n\n**Category:** Integration\n\n");
    let mut s = TestSuiteResult::new("s".to_string());
    s.add_test_result(failed());
    let mut c = FormatterConfig::default();
    c.include_children = false;
    let t = f.format_suite_result(&s, &c).unwrap();
    assert_eq!(
        t,
        "# Test Suite: s\n\n## Summary\n\n| Metric | Value |\n|--------|-------|\n| Total Tests | 1 |\n| Passed | 0 |\n| Failed | 1 |\n| Skipped | 0 |\n| Timed Out | 0 |\n| Panicked | 0 |\n\n"
    );
}

#[test]
fn html_result_and_suite() {
    let f = HtmlFormatter::new();
    let mut c = FormatterConfig::default();
    c.include_duration = false;
    let t = f.format_test_result(&failed(), &c).unwrap();
    assert_eq!(
        t,
        "<div class=\"test-result failed\">\n  <h3><span class=\"status\">FAIL</span> login</h3>\n  <div class=\"error\"><strong>Error:</strong> boom</div>\n  <div><strong>Category:</strong> Integration</div>\n</div>\n"
    );
    let s = TestSuiteResult::new("s".to_string());
    let t = f.format_suite_result(&s, &c).unwrap();
    assert!(t.starts_with("<!DOCTYPE html>\n<html>\n<head>\n  <meta charset=\"UTF-8\">\n  <title>Test Suite: s</title>\n"));
    assert!(t.contains("<h1>Test Suite: s</h1>\n<h2>Summary</h2>\n"));
    assert!(t.contains("  <tr><td>Total Tests</td><td>0</td></tr>\n"));
    assert!(t.ends_with("</table>\n<h2>Test Results</h2>\n</body>\n</html>\n"));
}
