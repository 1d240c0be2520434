//! Formatting test results for the console, as Markdown and as HTML: a
//! result by its outcome, name, error, duration and category, and a suite
//! by its name, the counts of its outcomes and its results.

use vstd::prelude::*;
use crate::case_run::{duration_debug, duration_debug_text};
use crate::chars::{decimal, decimal_string};
use crate::model::{TestCategory, TestHarnessError, TestOutcome, TestResult, TestSuiteResult};
use crate::reporting::{ConsoleFormatter, FormatterConfig, HtmlFormatter, MarkdownFormatter};

verus! {

/// Formats test results.
pub trait Formatter {
    /// The text of one result.
    fn format_test_result(&self, result: &TestResult, config: &FormatterConfig) -> Result<String, TestHarnessError>;

    /// The text of a suite's results.
    fn format_suite_result(&self, result: &TestSuiteResult, config: &FormatterConfig) -> Result<
        String,
        TestHarnessError,
    >;
}

/// The name of a category, as `{:?}` writes it.
pub open spec fn category_name(c: TestCategory) -> Seq<char> {
    match c {
        TestCategory::Unit => "Unit"@,
        TestCategory::Integration => "Integration"@,
        TestCategory::EndToEnd => "EndToEnd"@,
        TestCategory::Performance => "Performance"@,
        TestCategory::Security => "Security"@,
    }
}

fn category_text(c: TestCategory) -> (s: &'static str)
    ensures
        s@ == category_name(c),
{
    proof {
        reveal_strlit("Unit");
        reveal_strlit("Integration");
        reveal_strlit("EndToEnd");
        reveal_strlit("Performance");
        reveal_strlit("Security");
    }
    match c {
        TestCategory::Unit => "Unit",
        TestCategory::Integration => "Integration",
        TestCategory::EndToEnd => "EndToEnd",
        TestCategory::Performance => "Performance",
        TestCategory::Security => "Security",
    }
}

/// How the console and Markdown show an outcome.
pub open spec fn outcome_badge(o: TestOutcome) -> Seq<char> {
    match o {
        TestOutcome::Passed => "✅ PASS"@,
        TestOutcome::Failed => "❌ FAIL"@,
        TestOutcome::Skipped => "⏭️ SKIP"@,
        TestOutcome::TimedOut => "⏱️ TIMEOUT"@,
        TestOutcome::Panicked => "💥 PANIC"@,
    }
}

fn badge(o: TestOutcome) -> (s: &'static str)
    ensures
        s@ == outcome_badge(o),
{
    match o {
        TestOutcome::Passed => "✅ PASS",
        TestOutcome::Failed => "❌ FAIL",
        TestOutcome::Skipped => "⏭️ SKIP",
        TestOutcome::TimedOut => "⏱️ TIMEOUT",
        TestOutcome::Panicked => "💥 PANIC",
    }
}

/// The HTML class and label of an outcome.
pub open spec fn outcome_class(o: TestOutcome) -> (Seq<char>, Seq<char>) {
    match o {
        TestOutcome::Passed => ("passed"@, "PASS"@),
        TestOutcome::Failed => ("failed"@, "FAIL"@),
        TestOutcome::Skipped => ("skipped"@, "SKIP"@),
        TestOutcome::TimedOut => ("timeout"@, "TIMEOUT"@),
        TestOutcome::Panicked => ("panic"@, "PANIC"@),
    }
}

fn class_of(o: TestOutcome) -> (s: (&'static str, &'static str))
    ensures
        (s.0@, s.1@) == outcome_class(o),
{
    match o {
        TestOutcome::Passed => ("passed", "PASS"),
        TestOutcome::Failed => ("failed", "FAIL"),
        TestOutcome::Skipped => ("skipped", "SKIP"),
        TestOutcome::TimedOut => ("timeout", "TIMEOUT"),
        TestOutcome::Panicked => ("panic", "PANIC"),
    }
}

/// `text` when `on`, else nothing.
pub open spec fn when(on: bool, text: Seq<char>) -> Seq<char> {
    if on {
        text
    } else {
        Seq::empty()
    }
}

/// The text of an optional error, framed as given.
pub open spec fn error_part(error: Option<String>, before: Seq<char>, after: Seq<char>) -> Seq<char> {
    match error {
        Some(e) => before + e@ + after,
        None => Seq::empty(),
    }
}

/// A result on the console.
pub open spec fn console_result(r: TestResult, c: FormatterConfig) -> Seq<char> {
    outcome_badge(r.outcome) + " "@ + r.name@ + "\n"@ + error_part(r.error, "  Error: "@, "\n"@) + when(
        c.include_duration,
        "  Duration: "@ + duration_debug_text(r.duration_ms) + "\n"@,
    ) + when(c.include_category_and_suite, "  Category: "@ + category_name(r.category) + "\n"@)
}

/// A result in Markdown.
pub open spec fn markdown_result(r: TestResult, c: FormatterConfig) -> Seq<char> {
    "### "@ + outcome_badge(r.outcome) + " "@ + r.name@ + "\n\n"@ + error_part(r.error, "**Error:** "@, "\n\n"@)
        + when(c.include_duration, "**Duration:** "@ + duration_debug_text(r.duration_ms) + "\n\n"@) + when(
        c.include_category_and_suite,
        "**Category:** "@ + category_name(r.category) + "\n\n"@,
    )
}

/// A result in HTML.
pub open spec fn html_result(r: TestResult, c: FormatterConfig) -> Seq<char> {
    "<div class=\"test-result "@ + outcome_class(r.outcome).0 + "\">\n"@ + "  <h3><span class=\"status\">"@
        + outcome_class(r.outcome).1 + "</span> "@ + r.name@ + "</h3>\n"@ + error_part(
        r.error,
        "  <div class=\"error\"><strong>Error:</strong> "@,
        "</div>\n"@,
    ) + when(c.include_duration, "  <div><strong>Duration:</strong> "@ + duration_debug_text(r.duration_ms) + "</div>\n"@)
        + when(
        c.include_category_and_suite,
        "  <div><strong>Category:</strong> "@ + category_name(r.category) + "</div>\n"@,
    ) + "</div>\n"@
}

fn push_error(out: &mut String, error: &Option<String>, before: &str, after: &str)
    ensures
        final(out)@ == old(out)@ + error_part(*error, before@, after@),
{
    match error {
        Some(e) => {
            out.append(before);
            out.append(e.as_str());
            out.append(after);
        },
        None => {
            assert(old(out)@ + Seq::<char>::empty() =~= old(out)@);
        },
    }
}

fn push_when(out: &mut String, on: bool, parts: &[&str])
    requires
        parts.len() <= 3,
    ensures
        final(out)@ == old(out)@ + when(on, parts_text(parts@)),
{
    if on {
        let mut i: usize = 0;
        while i < parts.len()
            invariant
                i <= parts.len(),
                out@ == old(out)@ + parts_text(parts@.subrange(0, i as int)),
            decreases parts.len() - i,
        {
            let ghost before = out@;
            out.append(parts[i]);
            assert(parts@.subrange(0, i + 1).drop_last() =~= parts@.subrange(0, i as int));
            assert(out@ =~= old(out)@ + parts_text(parts@.subrange(0, i + 1)));
            i += 1;
        }
        assert(parts@.subrange(0, i as int) =~= parts@);
    } else {
        assert(old(out)@ + Seq::<char>::empty() =~= old(out)@);
    }
}

/// The texts joined together.
pub open spec fn parts_text(parts: Seq<&str>) -> Seq<char>
    decreases parts.len(),
{
    if parts.len() == 0 {
        Seq::empty()
    } else {
        parts_text(parts.drop_last()) + parts.last()@
    }
}

proof fn lemma_parts3(a: &str, b: &str, c: &str)
    ensures
        parts_text(seq![a, b, c]) == a@ + b@ + c@,
{
    reveal_with_fuel(parts_text, 4);
    let s = seq![a, b, c];
    assert(s.drop_last() =~= seq![a, b]);
    assert(seq![a, b].drop_last() =~= seq![a]);
    assert(seq![a].drop_last() =~= Seq::<&str>::empty());
    assert(Seq::<char>::empty() + a@ =~= a@);
}

fn console_text(r: &TestResult, c: &FormatterConfig) -> (s: String)
    ensures
        s@ == console_result(*r, *c),
{
    let mut out = String::new();
    out.append(badge(r.outcome));
    out.append(" ");
    out.append(r.name.as_str());
    out.append("\n");
    push_error(&mut out, &r.error, "  Error: ", "\n");
    let d = duration_debug(r.duration_ms);
    let parts = ["  Duration: ", d.as_str(), "\n"];
    proof {
        lemma_parts3(parts[0], parts[1], parts[2]);
        assert(parts@ == seq![parts[0], parts[1], parts[2]]);
    }
    push_when(&mut out, c.include_duration, &parts);
    let parts = ["  Category: ", category_text(r.category), "\n"];
    proof {
        lemma_parts3(parts[0], parts[1], parts[2]);
        assert(parts@ == seq![parts[0], parts[1], parts[2]]);
    }
    push_when(&mut out, c.include_category_and_suite, &parts);
    assert(out@ =~= console_result(*r, *c));
    out
}

fn markdown_text(r: &TestResult, c: &FormatterConfig) -> (s: String)
    ensures
        s@ == markdown_result(*r, *c),
{
    let mut out = String::new();
    out.append("### ");
    out.append(badge(r.outcome));
    out.append(" ");
    out.append(r.name.as_str());
    out.append("\n\n");
    push_error(&mut out, &r.error, "**Error:** ", "\n\n");
    let d = duration_debug(r.duration_ms);
    let parts = ["**Duration:** ", d.as_str(), "\n\n"];
    proof {
        lemma_parts3(parts[0], parts[1], parts[2]);
        assert(parts@ == seq![parts[0], parts[1], parts[2]]);
    }
    push_when(&mut out, c.include_duration, &parts);
    let parts = ["**Category:** ", category_text(r.category), "\n\n"];
    proof {
        lemma_parts3(parts[0], parts[1], parts[2]);
        assert(parts@ == seq![parts[0], parts[1], parts[2]]);
    }
    push_when(&mut out, c.include_category_and_suite, &parts);
    assert(out@ =~= markdown_result(*r, *c));
    out
}

fn html_text(r: &TestResult, c: &FormatterConfig) -> (s: String)
    ensures
        s@ == html_result(*r, *c),
{
    let (class, label) = class_of(r.outcome);
    let mut out = String::new();
    out.append("<div class=\"test-result ");
    out.append(class);
    out.append("\">\n");
    out.append("  <h3><span class=\"status\">");
    out.append(label);
    out.append("</span> ");
    out.append(r.name.as_str());
    out.append("</h3>\n");
    push_error(&mut out, &r.error, "  <div class=\"error\"><strong>Error:</strong> ", "</div>\n");
    let d = duration_debug(r.duration_ms);
    let parts = ["  <div><strong>Duration:</strong> ", d.as_str(), "</div>\n"];
    proof {
        lemma_parts3(parts[0], parts[1], parts[2]);
        assert(parts@ == seq![parts[0], parts[1], parts[2]]);
    }
    push_when(&mut out, c.include_duration, &parts);
    let parts = ["  <div><strong>Category:</strong> ", category_text(r.category), "</div>\n"];
    proof {
        lemma_parts3(parts[0], parts[1], parts[2]);
        assert(parts@ == seq![parts[0], parts[1], parts[2]]);
    }
    push_when(&mut out, c.include_category_and_suite, &parts);
    out.append("</div>\n");
    assert(out@ =~= html_result(*r, *c));
    out
}


/// The three ways a result can be written.
#[derive(Debug, Clone, Copy, PartialEq, Eq, Structural)]
pub enum Style {
    Console,
    Markdown,
    Html,
}

/// A result written in a style.
pub open spec fn styled_result(style: Style, r: TestResult, c: FormatterConfig) -> Seq<char> {
    match style {
        Style::Console => console_result(r, c),
        Style::Markdown => markdown_result(r, c),
        Style::Html => html_result(r, c),
    }
}

/// What follows each result of a suite in a style.
pub open spec fn result_separator(style: Style) -> Seq<char> {
    match style {
        Style::Html => Seq::empty(),
        _ => "\n"@,
    }
}

/// The results of a suite, each written in a style and followed by the
/// style's separator.
pub open spec fn styled_results(style: Style, rs: Seq<TestResult>, c: FormatterConfig) -> Seq<char>
    decreases rs.len(),
{
    if rs.len() == 0 {
        Seq::empty()
    } else {
        styled_results(style, rs.drop_last(), c) + styled_result(style, rs.last(), c) + result_separator(style)
    }
}

fn styled_text(style: Style, r: &TestResult, c: &FormatterConfig) -> (s: String)
    ensures
        s@ == styled_result(style, *r, *c),
{
    match style {
        Style::Console => console_text(r, c),
        Style::Markdown => markdown_text(r, c),
        Style::Html => html_text(r, c),
    }
}

fn push_results(out: &mut String, style: Style, rs: &Vec<TestResult>, c: &FormatterConfig)
    ensures
        final(out)@ == old(out)@ + styled_results(style, rs@, *c),
{
    let mut i: usize = 0;
    assert(old(out)@ + Seq::<char>::empty() =~= old(out)@);
    while i < rs.len()
        invariant
            i <= rs.len(),
            out@ == old(out)@ + styled_results(style, rs@.subrange(0, i as int), *c),
        decreases rs.len() - i,
    {
        assert(rs@.subrange(0, i + 1).drop_last() =~= rs@.subrange(0, i as int));
        let t = styled_text(style, &rs[i], c);
        out.append(t.as_str());
        match style {
            Style::Html => {},
            _ => out.append("\n"),
        }
        assert(out@ =~= old(out)@ + styled_results(style, rs@.subrange(0, i + 1), *c));
        i += 1;
    }
    assert(rs@.subrange(0, i as int) =~= rs@);
}

fn push_count(out: &mut String, before: &str, n: usize, after: &str)
    ensures
        final(out)@ == old(out)@ + before@ + decimal(n as nat) + after@,
{
    out.append(before);
    let d = decimal_string(n as u64);
    out.append(d.as_str());
    out.append(after);
}

/// The counts of a suite, each framed as given.
pub open spec fn counts_text(s: TestSuiteResult, labels: Seq<Seq<char>>, after: Seq<char>) -> Seq<char> {
    labels[0] + decimal(s.results@.len()) + after + labels[1] + decimal(s.passed as nat) + after + labels[2] + decimal(
        s.failed as nat,
    ) + after + labels[3] + decimal(s.skipped as nat) + after + labels[4] + decimal(s.timed_out as nat) + after
        + labels[5] + decimal(s.panicked as nat) + after
}

fn push_counts(out: &mut String, s: &TestSuiteResult, labels: &[&str; 6], after: &str)
    ensures
        final(out)@ == old(out)@ + counts_text(
            *s,
            seq![labels[0]@, labels[1]@, labels[2]@, labels[3]@, labels[4]@, labels[5]@],
            after@,
        ),
{
    push_count(out, labels[0], s.results.len(), after);
    push_count(out, labels[1], s.passed, after);
    push_count(out, labels[2], s.failed, after);
    push_count(out, labels[3], s.skipped, after);
    push_count(out, labels[4], s.timed_out, after);
    push_count(out, labels[5], s.panicked, after);
    let ghost ls = seq![labels[0]@, labels[1]@, labels[2]@, labels[3]@, labels[4]@, labels[5]@];
    assert(out@ =~= old(out)@ + counts_text(*s, ls, after@));
}

/// A suite on the console.
pub open spec fn console_suite(s: TestSuiteResult, c: FormatterConfig) -> Seq<char> {
    "Test Suite: "@ + s.name@ + "\n"@ + counts_text(
        s,
        seq!["Total Tests: "@, "Passed: "@, "Failed: "@, "Skipped: "@, "Timed Out: "@, "Panicked: "@],
        "\n"@,
    ) + when(c.include_children, "\nTest Results:\n"@ + styled_results(Style::Console, s.results@, c))
}

/// A suite in Markdown.
pub open spec fn markdown_suite(s: TestSuiteResult, c: FormatterConfig) -> Seq<char> {
    "# Test Suite: "@ + s.name@ + "\n\n"@ + "## Summary\n\n| Metric | Value |\n|--------|-------|\n"@ + counts_text(
        s,
        seq!["| Total Tests | "@, "| Passed | "@, "| Failed | "@, "| Skipped | "@, "| Timed Out | "@, "| Panicked | "@],
        " |\n"@,
    ) + "\n"@ + when(c.include_children, "## Test Results\n\n"@ + styled_results(Style::Markdown, s.results@, c))
}

/// The head of an HTML report, up to its opening `body` tag.
pub open spec fn html_head(name: Seq<char>) -> Seq<char> {
    "<!DOCTYPE html>\n<html>\n<head>\n  <meta charset=\"UTF-8\">\n  <title>Test Suite: "@ + name + "</title>\n"@
        + html_style()
}

/// The style sheet and the end of the head of an HTML report.
pub open spec fn html_style() -> Seq<char> {
    "  <style>\n    body { font-family: Arial, sans-serif; margin: 20px; }\n    .passed { background-color: #dff0d8; }\n    .failed { background-color: #f2dede; }\n    .skipped { background-color: #fcf8e3; }\n    .timeout { background-color: #f2dede; }\n    .panic { background-color: #f2dede; }\n    .test-result { margin-bottom: 20px; padding: 10px; border-radius: 5px; }\n    .status { font-weight: bold; }\n    .error { color: red; margin-bottom: 10px; }\n    table { border-collapse: collapse; width: 100%; }\n    th, td { border: 1px solid #ddd; padding: 8px; text-align: left; }\n    th { background-color: #f2f2f2; }\n    pre { background-color: #f5f5f5; padding: 10px; overflow: auto; }\n  </style>\n</head>\n<body>\n"@
}

/// A suite in HTML.
pub open spec fn html_suite(s: TestSuiteResult, c: FormatterConfig) -> Seq<char> {
    html_head(s.name@) + "<h1>Test Suite: "@ + s.name@ + "</h1>\n"@
        + "<h2>Summary</h2>\n<table>\n  <tr><th>Metric</th><th>Value</th></tr>\n"@ + counts_text(
        s,
        seq![
            "  <tr><td>Total Tests</td><td>"@,
            "  <tr><td>Passed</td><td>"@,
            "  <tr><td>Failed</td><td>"@,
            "  <tr><td>Skipped</td><td>"@,
            "  <tr><td>Timed Out</td><td>"@,
            "  <tr><td>Panicked</td><td>"@,
        ],
        "</td></tr>\n"@,
    ) + "</table>\n"@ + when(c.include_children, "<h2>Test Results</h2>\n"@ + styled_results(Style::Html, s.results@, c))
        + "</body>\n</html>\n"@
}

fn suite_text(style: Style, s: &TestSuiteResult, c: &FormatterConfig) -> (t: String)
    ensures
        t@ == match style {
            Style::Console => console_suite(*s, *c),
            Style::Markdown => markdown_suite(*s, *c),
            Style::Html => html_suite(*s, *c),
        },
{
    let mut out = String::new();
    match style {
        Style::Console => {
            out.append("Test Suite: ");
            out.append(s.name.as_str());
            out.append("\n");
            let labels = ["Total Tests: ", "Passed: ", "Failed: ", "Skipped: ", "Timed Out: ", "Panicked: "];
            push_counts(&mut out, s, &labels, "\n");
            let ghost before = out@;
            if c.include_children {
                out.append("\nTest Results:\n");
                push_results(&mut out, style, &s.results, c);
            }
            assert(out@ =~= console_suite(*s, *c));
        },
        Style::Markdown => {
            out.append("# Test Suite: ");
            out.append(s.name.as_str());
            out.append("\n\n");
            out.append("## Summary\n\n| Metric | Value |\n|--------|-------|\n");
            let labels = [
                "| Total Tests | ",
                "| Passed | ",
                "| Failed | ",
                "| Skipped | ",
                "| Timed Out | ",
                "| Panicked | ",
            ];
            push_counts(&mut out, s, &labels, " |\n");
            out.append("\n");
            if c.include_children {
                out.append("## Test Results\n\n");
                push_results(&mut out, style, &s.results, c);
            }
            assert(out@ =~= markdown_suite(*s, *c));
        },
        Style::Html => {
            out.append("<!DOCTYPE html>\n<html>\n<head>\n  <meta charset=\"UTF-8\">\n  <title>Test Suite: ");
            out.append(s.name.as_str());
            out.append("</title>\n");
            out.append(
                "  <style>\n    body { font-family: Arial, sans-serif; margin: 20px; }\n    .passed { background-color: #dff0d8; }\n    .failed { background-color: #f2dede; }\n    .skipped { background-color: #fcf8e3; }\n    .timeout { background-color: #f2dede; }\n    .panic { background-color: #f2dede; }\n    .test-result { margin-bottom: 20px; padding: 10px; border-radius: 5px; }\n    .status { font-weight: bold; }\n    .error { color: red; margin-bottom: 10px; }\n    table { border-collapse: collapse; width: 100%; }\n    th, td { border: 1px solid #ddd; padding: 8px; text-align: left; }\n    th { background-color: #f2f2f2; }\n    pre { background-color: #f5f5f5; padding: 10px; overflow: auto; }\n  </style>\n</head>\n<body>\n",
            );
            out.append("<h1>Test Suite: ");
            out.append(s.name.as_str());
            out.append("</h1>\n");
            out.append("<h2>Summary</h2>\n<table>\n  <tr><th>Metric</th><th>Value</th></tr>\n");
            let labels = [
                "  <tr><td>Total Tests</td><td>",
                "  <tr><td>Passed</td><td>",
                "  <tr><td>Failed</td><td>",
                "  <tr><td>Skipped</td><td>",
                "  <tr><td>Timed Out</td><td>",
                "  <tr><td>Panicked</td><td>",
            ];
            push_counts(&mut out, s, &labels, "</td></tr>\n");
            out.append("</table>\n");
            if c.include_children {
                out.append("<h2>Test Results</h2>\n");
                push_results(&mut out, style, &s.results, c);
            }
            out.append("</body>\n</html>\n");
            assert(out@ =~= html_suite(*s, *c));
        },
    }
    out
}

impl Formatter for ConsoleFormatter {
    /// The result's badge and name, then its error, duration and category
    /// on lines of their own, as `console_result` describes.
    fn format_test_result(&self, result: &TestResult, config: &FormatterConfig) -> (r: Result<String, TestHarnessError>)
        ensures
            r matches Ok(t) && t@ == console_result(*result, *config),
    {
        Ok(console_text(result, config))
    }

    /// The suite's name, its counts and its results, as `console_suite`
    /// describes.
    fn format_suite_result(&self, result: &TestSuiteResult, config: &FormatterConfig) -> (r: Result<
        String,
        TestHarnessError,
    >)
        ensures
            r matches Ok(t) && t@ == console_suite(*result, *config),
    {
        Ok(suite_text(Style::Console, result, config))
    }
}

impl Formatter for MarkdownFormatter {
    /// The result as a Markdown section, as `markdown_result` describes.
    fn format_test_result(&self, result: &TestResult, config: &FormatterConfig) -> (r: Result<String, TestHarnessError>)
        ensures
            r matches Ok(t) && t@ == markdown_result(*result, *config),
    {
        Ok(markdown_text(result, config))
    }

    /// The suite as a Markdown document, as `markdown_suite` describes.
    fn format_suite_result(&self, result: &TestSuiteResult, config: &FormatterConfig) -> (r: Result<
        String,
        TestHarnessError,
    >)
        ensures
            r matches Ok(t) && t@ == markdown_suite(*result, *config),
    {
        Ok(suite_text(Style::Markdown, result, config))
    }
}

impl Formatter for HtmlFormatter {
    /// The result as an HTML block, as `html_result` describes.
    fn format_test_result(&self, result: &TestResult, config: &FormatterConfig) -> (r: Result<String, TestHarnessError>)
        ensures
            r matches Ok(t) && t@ == html_result(*result, *config),
    {
        Ok(html_text(result, config))
    }

    /// The suite as an HTML page, as `html_suite` describes.
    fn format_suite_result(&self, result: &TestSuiteResult, config: &FormatterConfig) -> (r: Result<
        String,
        TestHarnessError,
    >)
        ensures
            r matches Ok(t) && t@ == html_suite(*result, *config),
    {
        Ok(suite_text(Style::Html, result, config))
    }
}

} // verus!
