//! Reporting: export formats and exporters, formatter and renderer
//! settings, reporters, dashboard views and runs, and the dashboard
//! server's settings.

use vstd::prelude::*;
use crate::kv::StrMap;
use crate::model::{count_outcome, outcomes_of, TestHarnessError, TestOutcome, TestResult};

verus! {

/// A format reports are exported in.
#[derive(Debug, Clone, Copy, PartialEq, Eq, Structural, Hash)]
pub enum ExportFormat {
    Html,
    Json,
    Markdown,
    Csv,
    Xml,
    Pdf,
    Text,
    Console,
}

/// The file extension of a format.
pub open spec fn format_extension(f: ExportFormat) -> Seq<char> {
    match f {
        ExportFormat::Html => "html"@,
        ExportFormat::Json => "json"@,
        ExportFormat::Markdown => "md"@,
        ExportFormat::Csv => "csv"@,
        ExportFormat::Xml => "xml"@,
        ExportFormat::Pdf => "pdf"@,
        ExportFormat::Text => "txt"@,
        ExportFormat::Console => "txt"@,
    }
}

impl ExportFormat {
    /// The file extension: `html`, `json`, `md`, `csv`, `xml`, `pdf`, and
    /// `txt` for text and console output.
    pub fn extension(&self) -> (e: &'static str)
        ensures
            e@ == format_extension(*self),
    {
        match self {
            ExportFormat::Html => "html",
            ExportFormat::Json => "json",
            ExportFormat::Markdown => "md",
            ExportFormat::Csv => "csv",
            ExportFormat::Xml => "xml",
            ExportFormat::Pdf => "pdf",
            ExportFormat::Text => "txt",
            ExportFormat::Console => "txt",
        }
    }

    /// The MIME type of the format.
    pub fn mime_type(&self) -> (m: &'static str)
        ensures
            m@ == match *self {
                ExportFormat::Html => "text/html"@,
                ExportFormat::Json => "application/json"@,
                ExportFormat::Markdown => "text/markdown"@,
                ExportFormat::Csv => "text/csv"@,
                ExportFormat::Xml => "application/xml"@,
                ExportFormat::Pdf => "application/pdf"@,
                ExportFormat::Text => "text/plain"@,
                ExportFormat::Console => "text/plain"@,
            },
    {
        match self {
            ExportFormat::Html => "text/html",
            ExportFormat::Json => "application/json",
            ExportFormat::Markdown => "text/markdown",
            ExportFormat::Csv => "text/csv",
            ExportFormat::Xml => "application/xml",
            ExportFormat::Pdf => "application/pdf",
            ExportFormat::Text => "text/plain",
            ExportFormat::Console => "text/plain",
        }
    }
}

/// What every exporter tells of itself; writing the export is done by the
/// runner.
pub trait Exporter {
    /// The exporter's name.
    fn name(&self) -> &str;

    /// The exporter's description.
    fn description(&self) -> Option<&str>;

    /// The formats the exporter writes.
    fn supported_formats(&self) -> Vec<ExportFormat>;
}

/// Exports HTML.
pub struct HtmlExporter {
    pub name: String,
    pub description: Option<String>,
}

/// Exports JSON.
pub struct JsonExporter {
    pub name: String,
    pub description: Option<String>,
}

/// Exports Markdown.
pub struct MarkdownExporter {
    pub name: String,
    pub description: Option<String>,
}

/// Exports CSV.
pub struct CsvExporter {
    pub name: String,
    pub description: Option<String>,
}

impl HtmlExporter {
    /// The exporter named `html`.
    pub fn new() -> (e: HtmlExporter)
        ensures
            e.name@ == "html"@,
            e.description matches Some(d) && d@ == "HTML exporter"@,
    {
        HtmlExporter { name: "html".to_owned(), description: Some("HTML exporter".to_owned()) }
    }
}

impl JsonExporter {
    /// The exporter named `json`.
    pub fn new() -> (e: JsonExporter)
        ensures
            e.name@ == "json"@,
            e.description matches Some(d) && d@ == "JSON exporter"@,
    {
        JsonExporter { name: "json".to_owned(), description: Some("JSON exporter".to_owned()) }
    }
}

impl MarkdownExporter {
    /// The exporter named `markdown`.
    pub fn new() -> (e: MarkdownExporter)
        ensures
            e.name@ == "markdown"@,
            e.description matches Some(d) && d@ == "Markdown exporter"@,
    {
        MarkdownExporter { name: "markdown".to_owned(), description: Some("Markdown exporter".to_owned()) }
    }
}

impl CsvExporter {
    /// The exporter named `csv`.
    pub fn new() -> (e: CsvExporter)
        ensures
            e.name@ == "csv"@,
            e.description matches Some(d) && d@ == "CSV exporter"@,
    {
        CsvExporter { name: "csv".to_owned(), description: Some("CSV exporter".to_owned()) }
    }
}

impl Exporter for HtmlExporter {
    fn name(&self) -> (n: &str)
        ensures
            n@ == self.name@,
    {
        self.name.as_str()
    }

    fn description(&self) -> (d: Option<&str>)
        ensures
            match d {
                Some(x) => self.description matches Some(y) && x@ == y@,
                None => self.description is None,
            },
    {
        match &self.description {
            Some(d) => Some(d.as_str()),
            None => None,
        }
    }

    fn supported_formats(&self) -> (f: Vec<ExportFormat>)
        ensures
            f@ == seq![ExportFormat::Html],
    {
        let mut f = Vec::new();
        f.push(ExportFormat::Html);
        f
    }
}

impl Exporter for JsonExporter {
    fn name(&self) -> (n: &str)
        ensures
            n@ == self.name@,
    {
        self.name.as_str()
    }

    fn description(&self) -> (d: Option<&str>)
        ensures
            match d {
                Some(x) => self.description matches Some(y) && x@ == y@,
                None => self.description is None,
            },
    {
        match &self.description {
            Some(d) => Some(d.as_str()),
            None => None,
        }
    }

    fn supported_formats(&self) -> (f: Vec<ExportFormat>)
        ensures
            f@ == seq![ExportFormat::Json],
    {
        let mut f = Vec::new();
        f.push(ExportFormat::Json);
        f
    }
}

impl Exporter for MarkdownExporter {
    fn name(&self) -> (n: &str)
        ensures
            n@ == self.name@,
    {
        self.name.as_str()
    }

    fn description(&self) -> (d: Option<&str>)
        ensures
            match d {
                Some(x) => self.description matches Some(y) && x@ == y@,
                None => self.description is None,
            },
    {
        match &self.description {
            Some(d) => Some(d.as_str()),
            None => None,
        }
    }

    fn supported_formats(&self) -> (f: Vec<ExportFormat>)
        ensures
            f@ == seq![ExportFormat::Markdown],
    {
        let mut f = Vec::new();
        f.push(ExportFormat::Markdown);
        f
    }
}

impl Exporter for CsvExporter {
    fn name(&self) -> (n: &str)
        ensures
            n@ == self.name@,
    {
        self.name.as_str()
    }

    fn description(&self) -> (d: Option<&str>)
        ensures
            match d {
                Some(x) => self.description matches Some(y) && x@ == y@,
                None => self.description is None,
            },
    {
        match &self.description {
            Some(d) => Some(d.as_str()),
            None => None,
        }
    }

    fn supported_formats(&self) -> (f: Vec<ExportFormat>)
        ensures
            f@ == seq![ExportFormat::Csv],
    {
        let mut f = Vec::new();
        f.push(ExportFormat::Csv);
        f
    }
}

/// The formats of `lists`, each once, in order of first appearance.
pub open spec fn union_formats(acc: Seq<ExportFormat>, lists: Seq<Seq<ExportFormat>>) -> Seq<ExportFormat>
    decreases lists.len(),
{
    if lists.len() == 0 {
        acc
    } else {
        union_formats(add_formats(acc, lists[0]), lists.drop_first())
    }
}

/// `acc` followed by the formats of `fs` it lacks, each once.
pub open spec fn add_formats(acc: Seq<ExportFormat>, fs: Seq<ExportFormat>) -> Seq<ExportFormat>
    decreases fs.len(),
{
    if fs.len() == 0 {
        acc
    } else {
        let next = if acc.contains(fs[0]) {
            acc
        } else {
            acc.push(fs[0])
        };
        add_formats(next, fs.drop_first())
    }
}

/// Appends the formats of `fs` that `acc` lacks.
fn add_formats_exec(acc: &mut Vec<ExportFormat>, fs: &Vec<ExportFormat>)
    ensures
        final(acc)@ == add_formats(old(acc)@, fs@),
{
    let ghost start = acc@;
    let mut i: usize = 0;
    assert(fs@.subrange(0, fs.len() as int) =~= fs@);
    while i < fs.len()
        invariant
            i <= fs.len(),
            add_formats(acc@, fs@.subrange(i as int, fs.len() as int)) == add_formats(start, fs@),
        decreases fs.len() - i,
    {
        let f = fs[i];
        let ghost rest = fs@.subrange(i as int, fs.len() as int);
        assert(rest[0] == f);
        assert(rest.drop_first() =~= fs@.subrange(i + 1, fs.len() as int));
        let mut present = false;
        let mut k: usize = 0;
        while k < acc.len()
            invariant
                k <= acc.len(),
                present == (exists|j: int| 0 <= j < k && acc@[j] == f),
            decreases acc.len() - k,
        {
            if acc[k] == f {
                present = true;
            }
            k += 1;
        }
        if !present {
            acc.push(f);
        }
        i += 1;
    }
    assert(fs@.subrange(fs.len() as int, fs.len() as int) =~= Seq::<ExportFormat>::empty());
}

/// An exporter that writes each format through the first of its exporters
/// that supports it. The exporters themselves are kept by the runner in the
/// same order; this records what they support.
pub struct MultiFormatExporter {
    pub name: String,
    pub description: Option<String>,
    /// The formats of all exporters, each once, in order of first support.
    pub formats: Vec<ExportFormat>,
    /// The formats of each exporter, in the order they were added.
    pub exporter_formats: Vec<Vec<ExportFormat>>,
}

/// The formats of each of a list of format lists.
pub open spec fn format_lists(v: Seq<Vec<ExportFormat>>) -> Seq<Seq<ExportFormat>> {
    v.map_values(|f: Vec<ExportFormat>| f@)
}

impl MultiFormatExporter {
    /// An exporter over exporters supporting the given formats; its
    /// description is `Multi-format exporter: ` and the name.
    pub fn new(name: String, exporter_formats: Vec<Vec<ExportFormat>>) -> (e: MultiFormatExporter)
        ensures
            e.name@ == name@,
            e.description matches Some(d) && d@ == "Multi-format exporter: "@ + name@,
            e.formats@ == union_formats(Seq::empty(), format_lists(exporter_formats@)),
            format_lists(e.exporter_formats@) == format_lists(exporter_formats@),
    {
        let mut description = "Multi-format exporter: ".to_owned();
        description.append(name.as_str());
        let mut formats: Vec<ExportFormat> = Vec::new();
        let mut i: usize = 0;
        assert(format_lists(exporter_formats@).subrange(0, exporter_formats.len() as int) =~= format_lists(exporter_formats@));
        assert(formats@ =~= Seq::<ExportFormat>::empty());
        while i < exporter_formats.len()
            invariant
                i <= exporter_formats.len(),
                union_formats(formats@, format_lists(exporter_formats@).subrange(i as int, exporter_formats.len() as int))
                    == union_formats(Seq::empty(), format_lists(exporter_formats@)),
            decreases exporter_formats.len() - i,
        {
            let ghost rest = format_lists(exporter_formats@).subrange(i as int, exporter_formats.len() as int);
            assert(rest[0] == exporter_formats@[i as int]@);
            assert(rest.drop_first() =~= format_lists(exporter_formats@).subrange(i + 1, exporter_formats.len() as int));
            add_formats_exec(&mut formats, &exporter_formats[i]);
            i += 1;
        }
        assert(format_lists(exporter_formats@).subrange(exporter_formats.len() as int, exporter_formats.len() as int)
            =~= Seq::<Seq<ExportFormat>>::empty());
        assert(format_lists(exporter_formats@).subrange(0, exporter_formats.len() as int) =~= format_lists(exporter_formats@));
        MultiFormatExporter { name, description: Some(description), formats, exporter_formats }
    }

    /// Adds an exporter supporting the given formats.
    pub fn add_exporter(&mut self, formats: Vec<ExportFormat>)
        ensures
            final(self).name == old(self).name,
            final(self).description == old(self).description,
            final(self).formats@ == add_formats(old(self).formats@, formats@),
            format_lists(final(self).exporter_formats@) == format_lists(old(self).exporter_formats@).push(formats@),
    {
        add_formats_exec(&mut self.formats, &formats);
        let ghost before = self.exporter_formats@;
        self.exporter_formats.push(formats);
        assert(format_lists(self.exporter_formats@) =~= format_lists(before).push(self.exporter_formats@.last()@));
    }

    /// The exporter that writes a file of the given extension: the first
    /// supporting a format of that extension, else the first exporter; no
    /// exporter at all is a reporting error.
    pub fn exporter_for(&self, extension: &str) -> (r: Result<usize, TestHarnessError>)
        ensures
            match r {
                Ok(i) => i < self.exporter_formats.len() && (supports_extension(self.exporter_formats@[i as int]@, extension@)
                    || (i == 0 && forall|j: int| 0 <= j < self.exporter_formats.len() ==> !supports_extension(
                    #[trigger] self.exporter_formats@[j]@,
                    extension@,
                ))) && forall|j: int| 0 <= j < i ==> !supports_extension(#[trigger] self.exporter_formats@[j]@, extension@),
                Err(TestHarnessError::ReportingError(m)) => self.exporter_formats.len() == 0 && m@ == "No exporter found for format: "@ + extension@,
                Err(_) => false,
            },
    {
        let mut i: usize = 0;
        while i < self.exporter_formats.len()
            invariant
                i <= self.exporter_formats.len(),
                forall|j: int| 0 <= j < i ==> !supports_extension(#[trigger] self.exporter_formats@[j]@, extension@),
            decreases self.exporter_formats.len() - i,
        {
            if supports_extension_exec(&self.exporter_formats[i], extension) {
                return Ok(i);
            }
            i += 1;
        }
        if self.exporter_formats.len() > 0 {
            Ok(0)
        } else {
            let mut m = "No exporter found for format: ".to_owned();
            m.append(extension);
            Err(TestHarnessError::ReportingError(m))
        }
    }
}

/// One of the formats has the given extension.
pub open spec fn supports_extension(fs: Seq<ExportFormat>, ext: Seq<char>) -> bool {
    exists|k: int| 0 <= k < fs.len() && format_extension(#[trigger] fs[k]) == ext
}

fn supports_extension_exec(fs: &Vec<ExportFormat>, ext: &str) -> (b: bool)
    ensures
        b == supports_extension(fs@, ext@),
{
    let mut k: usize = 0;
    while k < fs.len()
        invariant
            k <= fs.len(),
            forall|j: int| 0 <= j < k ==> format_extension(#[trigger] fs@[j]) != ext@,
        decreases fs.len() - k,
    {
        if crate::kv::eq_str(fs[k].extension(), ext) {
            return true;
        }
        k += 1;
    }
    false
}

/// What a formatted report includes.
#[derive(Debug, Clone, Copy, PartialEq, Eq, Structural)]
pub struct FormatterConfig {
    pub include_passed: bool,
    pub include_skipped: bool,
    pub include_output: bool,
    pub include_assertions: bool,
    pub include_timestamps: bool,
    pub include_duration: bool,
    pub include_metadata: bool,
    pub include_file_and_line: bool,
    pub include_category_and_suite: bool,
    pub include_children: bool,
}

/// Everything included.
pub open spec fn full_formatter_config() -> FormatterConfig {
    FormatterConfig {
        include_passed: true,
        include_skipped: true,
        include_output: true,
        include_assertions: true,
        include_timestamps: true,
        include_duration: true,
        include_metadata: true,
        include_file_and_line: true,
        include_category_and_suite: true,
        include_children: true,
    }
}

impl Default for FormatterConfig {
    /// Everything included.
    fn default() -> (c: Self)
        ensures
            c == full_formatter_config(),
    {
        FormatterConfig {
            include_passed: true,
            include_skipped: true,
            include_output: true,
            include_assertions: true,
            include_timestamps: true,
            include_duration: true,
            include_metadata: true,
            include_file_and_line: true,
            include_category_and_suite: true,
            include_children: true,
        }
    }
}

/// Formats results for the console.
pub struct ConsoleFormatter {
    pub config: FormatterConfig,
}

/// Formats results as JSON.
pub struct JsonFormatter {
    pub config: FormatterConfig,
}

/// Formats results as Markdown.
pub struct MarkdownFormatter {
    pub config: FormatterConfig,
}

/// Formats results as HTML.
pub struct HtmlFormatter {
    pub config: FormatterConfig,
}

impl ConsoleFormatter {
    /// With everything included.
    pub fn new() -> (f: ConsoleFormatter)
        ensures
            f.config == full_formatter_config(),
    {
        ConsoleFormatter { config: FormatterConfig::default() }
    }

    /// With the given settings.
    pub fn with_config(config: FormatterConfig) -> (f: ConsoleFormatter)
        ensures
            f.config == config,
    {
        ConsoleFormatter { config }
    }
}

impl JsonFormatter {
    /// With everything included.
    pub fn new() -> (f: JsonFormatter)
        ensures
            f.config == full_formatter_config(),
    {
        JsonFormatter { config: FormatterConfig::default() }
    }

    /// With the given settings.
    pub fn with_config(config: FormatterConfig) -> (f: JsonFormatter)
        ensures
            f.config == config,
    {
        JsonFormatter { config }
    }
}

impl MarkdownFormatter {
    /// With everything included.
    pub fn new() -> (f: MarkdownFormatter)
        ensures
            f.config == full_formatter_config(),
    {
        MarkdownFormatter { config: FormatterConfig::default() }
    }

    /// With the given settings.
    pub fn with_config(config: FormatterConfig) -> (f: MarkdownFormatter)
        ensures
            f.config == config,
    {
        MarkdownFormatter { config }
    }
}

impl HtmlFormatter {
    /// With everything included.
    pub fn new() -> (f: HtmlFormatter)
        ensures
            f.config == full_formatter_config(),
    {
        HtmlFormatter { config: FormatterConfig::default() }
    }

    /// With the given settings.
    pub fn with_config(config: FormatterConfig) -> (f: HtmlFormatter)
        ensures
            f.config == config,
    {
        HtmlFormatter { config }
    }
}


/// A renderer's name, description and options.
pub struct RendererConfig {
    pub name: String,
    pub description: Option<String>,
    pub options: StrMap,
}

impl Default for RendererConfig {
    /// Named `default`, with no description or options.
    fn default() -> (c: Self)
        ensures
            c.name@ == "default"@,
            c.description is None,
            c.options@ == Map::<Seq<char>, Seq<char>>::empty(),
    {
        RendererConfig { name: "default".to_owned(), description: None, options: StrMap::new() }
    }
}

/// A renderer configuration of the given name and description, with no
/// options.
fn named_renderer_config(name: &str, description: &str) -> (c: RendererConfig)
    ensures
        c.name@ == name@,
        c.description matches Some(d) && d@ == description@,
        c.options@ == Map::<Seq<char>, Seq<char>>::empty(),
{
    RendererConfig { name: name.to_owned(), description: Some(description.to_owned()), options: StrMap::new() }
}

/// Renders dashboards for the console.
pub struct ConsoleRenderer {
    pub config: RendererConfig,
}

/// Renders dashboards as HTML.
pub struct HtmlRenderer {
    pub config: RendererConfig,
}

/// Renders dashboard charts.
pub struct ChartRenderer {
    pub config: RendererConfig,
}

/// Renders dashboard tables.
pub struct TableRenderer {
    pub config: RendererConfig,
}

impl ConsoleRenderer {
    /// The renderer named `console`.
    pub fn new() -> (r: ConsoleRenderer)
        ensures
            r.config.name@ == "console"@,
            r.config.description matches Some(d) && d@ == "Console renderer"@,
            r.config.options@ == Map::<Seq<char>, Seq<char>>::empty(),
    {
        ConsoleRenderer { config: named_renderer_config("console", "Console renderer") }
    }
}

impl HtmlRenderer {
    /// The renderer named `html`.
    pub fn new() -> (r: HtmlRenderer)
        ensures
            r.config.name@ == "html"@,
            r.config.description matches Some(d) && d@ == "HTML renderer"@,
            r.config.options@ == Map::<Seq<char>, Seq<char>>::empty(),
    {
        HtmlRenderer { config: named_renderer_config("html", "HTML renderer") }
    }
}

impl ChartRenderer {
    /// The renderer named `chart`.
    pub fn new() -> (r: ChartRenderer)
        ensures
            r.config.name@ == "chart"@,
            r.config.description matches Some(d) && d@ == "Chart renderer"@,
            r.config.options@ == Map::<Seq<char>, Seq<char>>::empty(),
    {
        ChartRenderer { config: named_renderer_config("chart", "Chart renderer") }
    }
}

impl TableRenderer {
    /// The renderer named `table`.
    pub fn new() -> (r: TableRenderer)
        ensures
            r.config.name@ == "table"@,
            r.config.description matches Some(d) && d@ == "Table renderer"@,
            r.config.options@ == Map::<Seq<char>, Seq<char>>::empty(),
    {
        TableRenderer { config: named_renderer_config("table", "Table renderer") }
    }
}

/// Reports to the console through a formatter.
pub struct ConsoleReporter<F> {
    pub formatter: F,
}

impl ConsoleReporter<ConsoleFormatter> {
    /// With a console formatter that includes everything.
    pub fn new() -> (r: ConsoleReporter<ConsoleFormatter>)
        ensures
            r.formatter.config == full_formatter_config(),
    {
        ConsoleReporter { formatter: ConsoleFormatter::new() }
    }
}

impl<F> ConsoleReporter<F> {
    /// With the given formatter.
    pub fn with_formatter(formatter: F) -> (r: ConsoleReporter<F>)
        ensures
            r.formatter == formatter,
    {
        ConsoleReporter { formatter }
    }
}

/// Reports to files in a directory through a formatter.
pub struct FileReporter<F> {
    pub formatter: F,
    pub output_dir: String,
}

/// `s` with every space replaced by an underscore.
pub open spec fn spaces_to_underscores(s: Seq<char>) -> Seq<char> {
    s.map_values(|c: char| if c == ' ' { '_' } else { c })
}

impl<F> FileReporter<F> {
    /// Reports into `output_dir` through `formatter`.
    pub fn new(output_dir: String, formatter: F) -> (r: FileReporter<F>)
        ensures
            r.formatter == formatter,
            r.output_dir@ == output_dir@,
    {
        FileReporter { formatter, output_dir }
    }

    /// The file a result of the given name is written to: the prefix, the
    /// name with spaces replaced by underscores, and `.txt`.
    pub fn result_file_name(prefix: &str, name: &str) -> (f: String)
        ensures
            f@ == prefix@ + spaces_to_underscores(name@) + ".txt"@,
    {
        let mut f = prefix.to_owned();
        let chars = crate::text::to_chars(name);
        let ghost base = f@;
        let mut i: usize = 0;
        while i < chars.len()
            invariant
                i <= chars.len(),
                chars@ == name@,
                f@ == base + spaces_to_underscores(name@).subrange(0, i as int),
            decreases chars.len() - i,
        {
            if chars[i] == ' ' {
                f.append("_");
            } else {
                let piece = name.substring_char(i, i + 1);
                assert(piece@ =~= seq![chars@[i as int]]);
                f.append(piece);
            }
            proof {
                reveal_strlit("_");
            }
            assert(f@ =~= base + spaces_to_underscores(name@).subrange(0, i + 1));
            i += 1;
        }
        assert(spaces_to_underscores(name@).subrange(0, i as int) =~= spaces_to_underscores(name@));
        f.append(".txt");
        f
    }
}

/// Reports to several reporters in turn.
pub struct MultiReporter<R> {
    pub reporters: Vec<R>,
}

impl<R> MultiReporter<R> {
    /// Over the given reporters.
    pub fn new(reporters: Vec<R>) -> (m: MultiReporter<R>)
        ensures
            m.reporters@ == reporters@,
    {
        MultiReporter { reporters }
    }

    /// Adds a reporter after the others.
    pub fn add_reporter(&mut self, reporter: R)
        ensures
            final(self).reporters@ == old(self).reporters@.push(reporter),
    {
        self.reporters.push(reporter);
    }
}

/// A dashboard's title, output and look.
pub struct DashboardConfig {
    pub title: String,
    pub description: Option<String>,
    pub output_dir: String,
    /// Refresh interval in seconds.
    pub refresh_interval: Option<u64>,
    pub theme: Option<String>,
    pub logo: Option<String>,
    pub metadata: StrMap,
}

impl Default for DashboardConfig {
    /// `Test Dashboard`, written to `dashboard`, refreshed every 30
    /// seconds, default theme.
    fn default() -> (c: Self)
        ensures
            c.title@ == "Test Dashboard"@,
            c.description is None,
            c.output_dir@ == "dashboard"@,
            c.refresh_interval == Some(30u64),
            c.theme matches Some(t) && t@ == "default"@,
            c.logo is None,
            c.metadata@ == Map::<Seq<char>, Seq<char>>::empty(),
    {
        DashboardConfig {
            title: "Test Dashboard".to_owned(),
            description: None,
            output_dir: "dashboard".to_owned(),
            refresh_interval: Some(30),
            theme: Some("default".to_owned()),
            logo: None,
            metadata: StrMap::new(),
        }
    }
}

/// A view of a dashboard: which panels it shows and how.
pub struct DashboardView {
    pub id: String,
    pub title: String,
    pub description: Option<String>,
    pub panels: Vec<String>,
    pub layout: String,
    pub theme: Option<String>,
}

impl DashboardView {
    /// A view with no panels, in a grid layout.
    pub fn new(id: String, title: String) -> (v: DashboardView)
        ensures
            v.id@ == id@,
            v.title@ == title@,
            v.description is None,
            v.panels@.len() == 0,
            v.layout@ == "grid"@,
            v.theme is None,
    {
        DashboardView { id, title, description: None, panels: Vec::new(), layout: "grid".to_owned(), theme: None }
    }

    /// Sets the description.
    pub fn with_description(self, description: String) -> (v: DashboardView)
        ensures
            v.id == self.id,
            v.title == self.title,
            v.description matches Some(d) && d@ == description@,
            v.panels == self.panels,
            v.layout == self.layout,
            v.theme == self.theme,
    {
        DashboardView { description: Some(description), ..self }
    }

    /// Adds a panel.
    pub fn with_panel(self, panel_id: String) -> (v: DashboardView)
        ensures
            v.id == self.id,
            v.title == self.title,
            v.description == self.description,
            v.panels@ == self.panels@.push(panel_id),
            v.layout == self.layout,
            v.theme == self.theme,
    {
        let mut v = self;
        v.panels.push(panel_id);
        v
    }

    /// Adds panels, in order.
    pub fn with_panels(self, panel_ids: Vec<String>) -> (v: DashboardView)
        ensures
            v.id == self.id,
            v.title == self.title,
            v.description == self.description,
            v.panels@ == self.panels@ + panel_ids@,
            v.layout == self.layout,
            v.theme == self.theme,
    {
        let mut v = self;
        let mut ids = panel_ids;
        v.panels.append(&mut ids);
        v
    }

    /// Sets the layout.
    pub fn with_layout(self, layout: String) -> (v: DashboardView)
        ensures
            v.id == self.id,
            v.title == self.title,
            v.description == self.description,
            v.panels == self.panels,
            v.layout@ == layout@,
            v.theme == self.theme,
    {
        DashboardView { layout, ..self }
    }

    /// Sets the theme.
    pub fn with_theme(self, theme: String) -> (v: DashboardView)
        ensures
            v.id == self.id,
            v.title == self.title,
            v.description == self.description,
            v.panels == self.panels,
            v.layout == self.layout,
            v.theme matches Some(t) && t@ == theme@,
    {
        DashboardView { theme: Some(theme), ..self }
    }
}

/// A test run shown on a dashboard, with a count of each outcome.
pub struct TestRun {
    pub id: String,
    pub name: String,
    pub description: Option<String>,
    /// Duration in milliseconds.
    pub duration_ms: u64,
    pub results: Vec<TestResult>,
    pub passed_count: usize,
    pub failed_count: usize,
    pub skipped_count: usize,
    pub timed_out_count: usize,
    pub panicked_count: usize,
    pub tags: StrMap,
}

impl TestRun {
    /// An empty run.
    pub fn new(id: String, name: String) -> (r: TestRun)
        ensures
            r.id@ == id@,
            r.name@ == name@,
            r.description is None,
            r.duration_ms == 0,
            r.results@.len() == 0,
            r.passed_count == 0 && r.failed_count == 0 && r.skipped_count == 0 && r.timed_out_count == 0
                && r.panicked_count == 0,
            r.tags@ == Map::<Seq<char>, Seq<char>>::empty(),
    {
        TestRun {
            id,
            name,
            description: None,
            duration_ms: 0,
            results: Vec::new(),
            passed_count: 0,
            failed_count: 0,
            skipped_count: 0,
            timed_out_count: 0,
            panicked_count: 0,
            tags: StrMap::new(),
        }
    }

    /// Adds a result; the counts are brought up to date by
    /// `calculate_counts`.
    pub fn with_result(self, result: TestResult) -> (r: TestRun)
        ensures
            r.results@ == self.results@.push(result),
            r.id == self.id,
            r.name == self.name,
            r.passed_count == self.passed_count,
            r.failed_count == self.failed_count,
    {
        let mut r = self;
        r.results.push(result);
        r
    }

    /// Sets the description.
    pub fn with_description(self, description: String) -> (r: TestRun)
        ensures
            r == (TestRun { description: Some(description), ..self }),
    {
        TestRun { description: Some(description), ..self }
    }

    /// Sets the duration, in milliseconds.
    pub fn with_duration(self, duration_ms: u64) -> (r: TestRun)
        ensures
            r == (TestRun { duration_ms, ..self }),
    {
        TestRun { duration_ms, ..self }
    }

    /// Adds results, in order.
    pub fn with_results(self, results: Vec<TestResult>) -> (r: TestRun)
        ensures
            r.results@ == self.results@ + results@,
            r == (TestRun { results: r.results, ..self }),
    {
        let mut r = self;
        let mut more = results;
        r.results.append(&mut more);
        r
    }

    /// Sets a tag.
    pub fn with_tag(self, key: String, value: String) -> (r: TestRun)
        ensures
            r.tags@ == self.tags@.insert(key@, value@),
            r == (TestRun { tags: r.tags, ..self }),
    {
        let mut r = self;
        r.tags.insert(key, value);
        r
    }

    /// Sets tags, in order.
    pub fn with_tags(self, tags: Vec<(String, String)>) -> (r: TestRun)
        ensures
            r.tags@ == self.tags@.union_prefer_right(crate::kv::map_of(tags@)),
            r == (TestRun { tags: r.tags, ..self }),
    {
        let mut r = self;
        let mut i: usize = 0;
        let ghost start = r.tags@;
        assert(start =~= start.union_prefer_right(crate::kv::map_of(tags@.subrange(0, 0))));
        while i < tags.len()
            invariant
                i <= tags.len(),
                r == (TestRun { tags: r.tags, ..self }),
                start == self.tags@,
                r.tags@ == start.union_prefer_right(crate::kv::map_of(tags@.subrange(0, i as int))),
            decreases tags.len() - i,
        {
            assert(tags@.subrange(0, i + 1).drop_last() =~= tags@.subrange(0, i as int));
            r.tags.insert(tags[i].0.clone(), tags[i].1.clone());
            assert(r.tags@ =~= start.union_prefer_right(crate::kv::map_of(tags@.subrange(0, i + 1))));
            i += 1;
        }
        assert(tags@.subrange(0, i as int) =~= tags@);
        r
    }

    /// The number of passed tests as last counted.
    pub fn passed_count(&self) -> (n: usize)
        ensures
            n == self.passed_count,
    {
        self.passed_count
    }

    /// The number of failed tests as last counted.
    pub fn failed_count(&self) -> (n: usize)
        ensures
            n == self.failed_count,
    {
        self.failed_count
    }

    /// The number of skipped tests as last counted.
    pub fn skipped_count(&self) -> (n: usize)
        ensures
            n == self.skipped_count,
    {
        self.skipped_count
    }

    /// The number of timed-out tests as last counted.
    pub fn timed_out_count(&self) -> (n: usize)
        ensures
            n == self.timed_out_count,
    {
        self.timed_out_count
    }

    /// The number of panicked tests as last counted.
    pub fn panicked_count(&self) -> (n: usize)
        ensures
            n == self.panicked_count,
    {
        self.panicked_count
    }

    /// Number of results.
    pub fn test_count(&self) -> (n: usize)
        ensures
            n == self.results@.len(),
    {
        self.results.len()
    }

    /// Counts the outcomes of the results afresh.
    pub fn calculate_counts(&mut self)
        ensures
            final(self).results@ == old(self).results@,
            final(self).id == old(self).id,
            final(self).name == old(self).name,
            final(self).passed_count == count_outcome(outcomes_of(old(self).results@), TestOutcome::Passed),
            final(self).failed_count == count_outcome(outcomes_of(old(self).results@), TestOutcome::Failed),
            final(self).skipped_count == count_outcome(outcomes_of(old(self).results@), TestOutcome::Skipped),
            final(self).timed_out_count == count_outcome(outcomes_of(old(self).results@), TestOutcome::TimedOut),
            final(self).panicked_count == count_outcome(outcomes_of(old(self).results@), TestOutcome::Panicked),
    {
        let mut passed: usize = 0;
        let mut failed: usize = 0;
        let mut skipped: usize = 0;
        let mut timed_out: usize = 0;
        let mut panicked: usize = 0;
        let mut i: usize = 0;
        while i < self.results.len()
            invariant
                i <= self.results.len(),
                passed == count_outcome(outcomes_of(self.results@.subrange(0, i as int)), TestOutcome::Passed),
                failed == count_outcome(outcomes_of(self.results@.subrange(0, i as int)), TestOutcome::Failed),
                skipped == count_outcome(outcomes_of(self.results@.subrange(0, i as int)), TestOutcome::Skipped),
                timed_out == count_outcome(outcomes_of(self.results@.subrange(0, i as int)), TestOutcome::TimedOut),
                panicked == count_outcome(outcomes_of(self.results@.subrange(0, i as int)), TestOutcome::Panicked),
            decreases self.results.len() - i,
        {
            let ghost pre = outcomes_of(self.results@.subrange(0, i as int));
            proof {
                crate::model::lemma_count_le(pre, TestOutcome::Passed);
                crate::model::lemma_count_le(pre, TestOutcome::Failed);
                crate::model::lemma_count_le(pre, TestOutcome::Skipped);
                crate::model::lemma_count_le(pre, TestOutcome::TimedOut);
                crate::model::lemma_count_le(pre, TestOutcome::Panicked);
            }
            assert(outcomes_of(self.results@.subrange(0, i + 1)).drop_last() =~= pre);
            match self.results[i].outcome {
                TestOutcome::Passed => passed += 1,
                TestOutcome::Failed => failed += 1,
                TestOutcome::Skipped => skipped += 1,
                TestOutcome::TimedOut => timed_out += 1,
                TestOutcome::Panicked => panicked += 1,
            }
            i += 1;
        }
        assert(self.results@.subrange(0, i as int) =~= self.results@);
        self.passed_count = passed;
        self.failed_count = failed;
        self.skipped_count = skipped;
        self.timed_out_count = timed_out;
        self.panicked_count = panicked;
    }
}

/// The tests of all runs, and how many of them passed, failed and were
/// skipped, by the runs' counts.
#[derive(Debug, Clone, Copy)]
pub struct DashboardTotals {
    pub tests: usize,
    pub passed: usize,
    pub failed: usize,
    pub skipped: usize,
}

/// The number of tests over the runs.
pub open spec fn total_tests(runs: Seq<TestRun>) -> int
    decreases runs.len(),
{
    if runs.len() == 0 {
        0
    } else {
        total_tests(runs.drop_last()) + runs.last().results@.len()
    }
}

/// A count a run keeps.
#[derive(Debug, Clone, Copy, PartialEq, Eq, Structural)]
pub enum RunCount {
    Passed,
    Failed,
    Skipped,
}

/// The count of a run.
pub open spec fn run_count(r: TestRun, which: RunCount) -> int {
    match which {
        RunCount::Passed => r.passed_count as int,
        RunCount::Failed => r.failed_count as int,
        RunCount::Skipped => r.skipped_count as int,
    }
}

/// The sum of one count over the runs.
pub open spec fn total_count(runs: Seq<TestRun>, which: RunCount) -> int
    decreases runs.len(),
{
    if runs.len() == 0 {
        0
    } else {
        total_count(runs.drop_last(), which) + run_count(runs.last(), which)
    }
}

proof fn lemma_totals_grow(runs: Seq<TestRun>, k: int, which: RunCount)
    requires
        0 <= k <= runs.len(),
    ensures
        0 <= total_tests(runs.subrange(0, k)) <= total_tests(runs),
        0 <= total_count(runs.subrange(0, k), which) <= total_count(runs, which),
    decreases runs.len() - k,
{
    lemma_totals_nonneg(runs.subrange(0, k), which);
    if k < runs.len() {
        lemma_totals_grow(runs, k + 1, which);
        assert(runs.subrange(0, k + 1).drop_last() =~= runs.subrange(0, k));
    } else {
        assert(runs.subrange(0, k) =~= runs);
    }
}

proof fn lemma_totals_nonneg(runs: Seq<TestRun>, which: RunCount)
    ensures
        total_tests(runs) >= 0,
        total_count(runs, which) >= 0,
    decreases runs.len(),
{
    if runs.len() > 0 {
        lemma_totals_nonneg(runs.drop_last(), which);
    }
}

/// Every sum over the runs fits in a `usize`.
pub open spec fn totals_fit(runs: Seq<TestRun>) -> bool {
    &&& total_tests(runs) <= usize::MAX
    &&& total_count(runs, RunCount::Passed) <= usize::MAX
    &&& total_count(runs, RunCount::Failed) <= usize::MAX
    &&& total_count(runs, RunCount::Skipped) <= usize::MAX
}

/// The totals a dashboard shows over its runs, when they fit in a `usize`;
/// the pass rate, passed over tests, is the runner's to compute.
pub fn dashboard_totals(runs: &Vec<TestRun>) -> (t: Option<DashboardTotals>)
    ensures
        totals_fit(runs@) ==> (t matches Some(x) && x.tests == total_tests(runs@) && x.passed == total_count(
            runs@,
            RunCount::Passed,
        ) && x.failed == total_count(runs@, RunCount::Failed) && x.skipped == total_count(runs@, RunCount::Skipped)),
        !totals_fit(runs@) ==> t is None,
{
    let mut t = DashboardTotals { tests: 0, passed: 0, failed: 0, skipped: 0 };
    let mut i: usize = 0;
    while i < runs.len()
        invariant
            i <= runs.len(),
            t.tests == total_tests(runs@.subrange(0, i as int)),
            t.passed == total_count(runs@.subrange(0, i as int), RunCount::Passed),
            t.failed == total_count(runs@.subrange(0, i as int), RunCount::Failed),
            t.skipped == total_count(runs@.subrange(0, i as int), RunCount::Skipped),
        decreases runs.len() - i,
    {
        proof {
            lemma_totals_grow(runs@, i + 1, RunCount::Passed);
            lemma_totals_grow(runs@, i + 1, RunCount::Failed);
            lemma_totals_grow(runs@, i + 1, RunCount::Skipped);
        }
        assert(runs@.subrange(0, i + 1).drop_last() =~= runs@.subrange(0, i as int));
        let r = &runs[i];
        let tests = t.tests.checked_add(r.results.len());
        let passed = t.passed.checked_add(r.passed_count);
        let failed = t.failed.checked_add(r.failed_count);
        let skipped = t.skipped.checked_add(r.skipped_count);
        match (tests, passed, failed, skipped) {
            (Some(a), Some(b), Some(c), Some(d)) => {
                t = DashboardTotals { tests: a, passed: b, failed: c, skipped: d };
            },
            _ => {
                return None;
            },
        }
        i += 1;
    }
    assert(runs@.subrange(0, i as int) =~= runs@);
    Some(t)
}

/// The dashboard server's settings.
pub struct DashboardServerConfig {
    pub host: String,
    pub port: u16,
    pub title: String,
    pub description: Option<String>,
    pub static_dir: String,
    pub data_dir: String,
    /// Refresh interval in seconds.
    pub refresh_interval: u64,
    pub theme: String,
    pub logo: Option<String>,
    pub metadata: StrMap,
    pub enable_websocket: bool,
    pub enable_auth: bool,
    pub auth_username: Option<String>,
    pub auth_password_hash: Option<String>,
    pub enable_https: bool,
    pub https_cert: Option<String>,
    pub https_key: Option<String>,
}

impl Default for DashboardServerConfig {
    /// Serves `Test Dashboard` on 127.0.0.1:8080 from `static` and `data`,
    /// refreshed every 30 seconds, with WebSocket updates, and without
    /// authentication or HTTPS.
    fn default() -> (c: Self)
        ensures
            c.host@ == "127.0.0.1"@,
            c.port == 8080,
            c.title@ == "Test Dashboard"@,
            c.description is None,
            c.static_dir@ == "static"@,
            c.data_dir@ == "data"@,
            c.refresh_interval == 30,
            c.theme@ == "default"@,
            c.logo is None,
            c.metadata@ == Map::<Seq<char>, Seq<char>>::empty(),
            c.enable_websocket,
            !c.enable_auth,
            c.auth_username is None,
            c.auth_password_hash is None,
            !c.enable_https,
            c.https_cert is None,
            c.https_key is None,
    {
        DashboardServerConfig {
            host: "127.0.0.1".to_owned(),
            port: 8080,
            title: "Test Dashboard".to_owned(),
            description: None,
            static_dir: "static".to_owned(),
            data_dir: "data".to_owned(),
            refresh_interval: 30,
            theme: "default".to_owned(),
            logo: None,
            metadata: StrMap::new(),
            enable_websocket: true,
            enable_auth: false,
            auth_username: None,
            auth_password_hash: None,
            enable_https: false,
            https_cert: None,
            https_key: None,
        }
    }
}

/// Loads Handlebars templates from files.
pub struct HandlebarsTemplateLoader;

impl HandlebarsTemplateLoader {
    /// A loader.
    pub fn new() -> (l: HandlebarsTemplateLoader)
    {
        HandlebarsTemplateLoader
    }

    /// Is the file a template file, with the extension `hbs`?
    pub fn is_template_file(extension: Option<&str>) -> (b: bool)
        ensures
            b == (extension matches Some(e) && e@ == "hbs"@),
    {
        match extension {
            Some(e) => crate::kv::eq_str(e, "hbs"),
            None => false,
        }
    }
}

} // verus!
