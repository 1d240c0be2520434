//! Test execution engine decisions: the execution options, which test cases
//! of a suite run, in which order the cases and suites run, which timeout a
//! test gets, and when a run stops early.

use vstd::prelude::*;
use rand::seq::SliceRandom;
use rand::SeedableRng;
use crate::model::{priority_rank, TestCase, TestCategory, TestHarnessError, TestOutcome, TestPriority, TestSuite};
use crate::ordering::{
    all_known, first_unknown, has_topological_order, is_prioritized_order, is_topological_order,
    prioritized_order, str_seq, str_seq_seq, topological_order, DependencyError,
};
use crate::text::{contains_str, contains_string, is_substring, occurs_at, views};

verus! {

/// Number of logical CPUs of this machine.
#[verifier::external_body]
fn available_cpus() -> (n: usize)
    ensures
        n >= 1,
{
    num_cpus::get()
}

/// The outcome of shuffling `items` with a random number generator seeded
/// with `seed`.
pub uninterp spec fn seeded_shuffle(items: Seq<usize>, seed: u64) -> Seq<usize>;

/// Shuffles `items` with `rand`'s standard generator seeded from `seed`
/// (`StdRng::seed_from_u64`, then `SliceRandom::shuffle`). The result is a
/// permutation of `items`, and the same items and seed give the same result.
#[verifier::external_body]
fn shuffle_with_seed(items: Vec<usize>, seed: u64) -> (r: Vec<usize>)
    ensures
        r@ == seeded_shuffle(items@, seed),
        r@.to_multiset() == items@.to_multiset(),
{
    let mut items = items;
    let mut rng = rand::rngs::StdRng::seed_from_u64(seed);
    items.shuffle(&mut rng);
    items
}

/// Options of a test run.
#[derive(Debug, Clone)]
pub struct TestExecutionOptions {
    /// Maximum number of tests run at once.
    pub max_parallel_tests: usize,
    /// Timeout of a test that sets none, in milliseconds.
    pub default_timeout_ms: u64,
    /// Stop the run at the first test that fails, times out or panics.
    pub fail_fast: bool,
    /// Report skipped tests.
    pub include_skipped: bool,
    /// Retry failed tests.
    pub retry_failed: bool,
    /// How often a failed test is retried.
    pub max_retries: usize,
    /// Run only tests of these categories.
    pub include_categories: Option<Vec<TestCategory>>,
    /// Do not run tests of these categories.
    pub exclude_categories: Option<Vec<TestCategory>>,
    /// Run only tests with at least one of these tags.
    pub include_tags: Option<Vec<String>>,
    /// Do not run tests with any of these tags.
    pub exclude_tags: Option<Vec<String>>,
    /// Run only tests whose name contains one of these texts.
    pub include_tests: Option<Vec<String>>,
    /// Do not run tests whose name contains one of these texts.
    pub exclude_tests: Option<Vec<String>>,
    /// Shuffle the selected tests.
    pub shuffle: bool,
    /// Seed of the shuffle; the current time when absent.
    pub shuffle_seed: Option<u64>,
    /// Order tests by priority within each dependency level.
    pub prioritize: bool,
    /// Run only tests of this priority or a higher one.
    pub max_priority: Option<TestPriority>,
}

/// The default options: as many parallel tests as CPUs (at least one), a
/// timeout of one minute, three retries (retrying off), skipped tests
/// reported, prioritizing on, and no filter, shuffle or fail-fast.
pub open spec fn default_options(o: TestExecutionOptions) -> bool {
    &&& o.max_parallel_tests >= 1
    &&& o.default_timeout_ms == 60_000
    &&& !o.fail_fast
    &&& o.include_skipped
    &&& !o.retry_failed
    &&& o.max_retries == 3
    &&& o.include_categories is None
    &&& o.exclude_categories is None
    &&& o.include_tags is None
    &&& o.exclude_tags is None
    &&& o.include_tests is None
    &&& o.exclude_tests is None
    &&& !o.shuffle
    &&& o.shuffle_seed is None
    &&& o.prioritize
    &&& o.max_priority is None
}

impl Default for TestExecutionOptions {
    /// As many parallel tests as CPUs, a timeout of one minute, three
    /// retries (retrying off), skipped tests reported, prioritizing on, and
    /// no filter, shuffle or fail-fast.
    fn default() -> (o: Self)
        ensures
            default_options(o),
    {
        TestExecutionOptions {
            max_parallel_tests: available_cpus(),
            default_timeout_ms: 60_000,
            fail_fast: false,
            include_skipped: true,
            retry_failed: false,
            max_retries: 3,
            include_categories: None,
            exclude_categories: None,
            include_tags: None,
            exclude_tags: None,
            include_tests: None,
            exclude_tests: None,
            shuffle: false,
            shuffle_seed: None,
            prioritize: true,
            max_priority: None,
        }
    }
}

/// Some text of `texts` occurs in `name`.
pub open spec fn names_any(texts: Seq<String>, name: Seq<char>) -> bool {
    exists|k: int| 0 <= k < texts.len() && is_substring(#[trigger] texts[k]@, name)
}

/// Some tag of `tags` is listed in `set`.
pub open spec fn tags_any(tags: Seq<String>, set: Seq<String>) -> bool {
    exists|t: int| 0 <= t < tags.len() && views(set).contains(#[trigger] tags[t]@)
}

/// The options let the test case run.
pub open spec fn passes_filters(o: TestExecutionOptions, c: TestCase) -> bool {
    &&& (o.include_tests matches Some(v) ==> names_any(v@, c.name@))
    &&& (o.exclude_tests matches Some(v) ==> !names_any(v@, c.name@))
    &&& (o.include_categories matches Some(v) ==> v@.contains(c.category))
    &&& (o.exclude_categories matches Some(v) ==> !v@.contains(c.category))
    &&& (o.include_tags matches Some(v) ==> tags_any(c.tags@, v@))
    &&& (o.exclude_tags matches Some(v) ==> !tags_any(c.tags@, v@))
    &&& (o.max_priority matches Some(m) ==> priority_rank(c.priority) <= priority_rank(m))
}

/// The positions of the test cases that the options let run, in order.
pub open spec fn selected(o: TestExecutionOptions, cases: Seq<TestCase>) -> Seq<usize>
    decreases cases.len(),
{
    if cases.len() == 0 {
        Seq::empty()
    } else {
        let rest = selected(o, cases.drop_last());
        if passes_filters(o, cases.last()) {
            rest.push((cases.len() - 1) as usize)
        } else {
            rest
        }
    }
}

/// Every position that `selected` gives is that of a case the options let
/// run.
proof fn lemma_selected_passes(o: TestExecutionOptions, cases: Seq<TestCase>, x: usize)
    requires
        selected(o, cases).contains(x),
        cases.len() <= usize::MAX,
    ensures
        x < cases.len(),
        passes_filters(o, cases[x as int]),
    decreases cases.len(),
{
    if cases.len() > 0 {
        let rest = selected(o, cases.drop_last());
        if rest.contains(x) {
            lemma_selected_passes(o, cases.drop_last(), x);
            assert(cases.drop_last()[x as int] == cases[x as int]);
        } else {
            let i = choose|i: int| 0 <= i < selected(o, cases).len() && selected(o, cases)[i] == x;
            assert(passes_filters(o, cases.last()));
            assert(i == rest.len());
            assert(x as int == cases.len() - 1);
        }
    }
}

/// Every case the options let run has its position in `selected`.
proof fn lemma_passing_is_selected(o: TestExecutionOptions, cases: Seq<TestCase>, p: int)
    requires
        0 <= p < cases.len(),
        cases.len() <= usize::MAX,
        passes_filters(o, cases[p]),
    ensures
        selected(o, cases).contains(p as usize),
    decreases cases.len(),
{
    if p < cases.len() - 1 {
        assert(cases.drop_last()[p] == cases[p]);
        lemma_passing_is_selected(o, cases.drop_last(), p);
        let rest = selected(o, cases.drop_last());
        let i = choose|i: int| 0 <= i < rest.len() && rest[i] == p as usize;
        if passes_filters(o, cases.last()) {
            assert(selected(o, cases)[i] == p as usize);
        }
    } else {
        let rest = selected(o, cases.drop_last());
        assert(selected(o, cases)[rest.len() as int] == p as usize);
    }
}

/// Law: when the only filter is a list of excluded texts, a test case
/// whose name contains none of them is selected.
pub proof fn lemma_only_excluded_names_are_dropped(o: TestExecutionOptions, cases: Seq<TestCase>, p: int)
    requires
        0 <= p < cases.len(),
        cases.len() <= usize::MAX,
        o.include_tests is None,
        o.include_categories is None,
        o.exclude_categories is None,
        o.include_tags is None,
        o.exclude_tags is None,
        o.max_priority is None,
        o.exclude_tests is Some,
        forall|k: int, at: int|
            0 <= k < o.exclude_tests.unwrap()@.len() && 0 <= at && at + o.exclude_tests.unwrap()@[k]@.len()
                <= cases[p].name@.len() ==> #[trigger] cases[p].name@.subrange(at, at + o.exclude_tests.unwrap()@[k]@.len())
                != o.exclude_tests.unwrap()@[k]@,
    ensures
        selected(o, cases).contains(p as usize),
{
    if names_any(o.exclude_tests.unwrap()@, cases[p].name@) {
        let k = choose|k: int| 0 <= k < o.exclude_tests.unwrap()@.len() && is_substring(#[trigger] o.exclude_tests.unwrap()@[k]@, cases[p].name@);
        let at = choose|at: int| #[trigger] occurs_at(cases[p].name@, o.exclude_tests.unwrap()@[k]@, at);
        assert(cases[p].name@.subrange(at, at + o.exclude_tests.unwrap()@[k]@.len()) == o.exclude_tests.unwrap()@[k]@);
    }
    lemma_passing_is_selected(o, cases, p);
}

/// Law: a test case whose name contains one of the excluded texts is never
/// selected, whatever the other options say.
pub proof fn lemma_excluded_name_never_selected(o: TestExecutionOptions, cases: Seq<TestCase>, p: int, k: int, at: int)
    requires
        0 <= p < cases.len(),
        cases.len() <= usize::MAX,
        o.exclude_tests is Some,
        0 <= k < o.exclude_tests.unwrap()@.len(),
        0 <= at && at + o.exclude_tests.unwrap()@[k]@.len() <= cases[p].name@.len(),
        cases[p].name@.subrange(at, at + o.exclude_tests.unwrap()@[k]@.len()) == o.exclude_tests.unwrap()@[k]@,
    ensures
        !selected(o, cases).contains(p as usize),
        !selected(o, cases).to_multiset().contains(p as usize),
{
    broadcast use vstd::seq_lib::group_to_multiset_ensures;
    assert(occurs_at(cases[p].name@, o.exclude_tests.unwrap()@[k]@, at));
    if selected(o, cases).contains(p as usize) {
        lemma_selected_passes(o, cases, p as usize);
        assert(names_any(o.exclude_tests.unwrap()@, cases[p].name@));
    }
}

/// Does some text of `texts` occur in `name`?
fn any_name_matches(texts: &Vec<String>, name: &String) -> (b: bool)
    ensures
        b == names_any(texts@, name@),
{
    let mut k: usize = 0;
    while k < texts.len()
        invariant
            k <= texts.len(),
            forall|j: int| 0 <= j < k ==> !is_substring(#[trigger] texts@[j]@, name@),
        decreases texts.len() - k,
    {
        if contains_str(name.as_str(), texts[k].as_str()) {
            return true;
        }
        k += 1;
    }
    false
}

/// Is some tag of `tags` listed in `set`?
fn any_tag_listed(tags: &Vec<String>, set: &Vec<String>) -> (b: bool)
    ensures
        b == tags_any(tags@, set@),
{
    let mut t: usize = 0;
    while t < tags.len()
        invariant
            t <= tags.len(),
            forall|j: int| 0 <= j < t ==> !views(set@).contains(#[trigger] tags@[j]@),
        decreases tags.len() - t,
    {
        if contains_string(set, &tags[t]) {
            return true;
        }
        t += 1;
    }
    false
}

/// Is `c` listed in `v`?
fn contains_category(v: &Vec<TestCategory>, c: TestCategory) -> (b: bool)
    ensures
        b == v@.contains(c),
{
    let mut i: usize = 0;
    while i < v.len()
        invariant
            i <= v.len(),
            forall|j: int| 0 <= j < i ==> v@[j] != c,
        decreases v.len() - i,
    {
        if v[i] == c {
            return true;
        }
        i += 1;
    }
    false
}

impl TestExecutionOptions {
    /// Do these options let the test case run? Its name must contain one of
    /// the included texts and none of the excluded ones, its category be
    /// included and not excluded, one of its tags be included and none
    /// excluded, and its priority be no lower than the maximum priority;
    /// each condition holds when its option is absent.
    pub fn allows(&self, c: &TestCase) -> (b: bool)
        ensures
            b == passes_filters(*self, *c),
            forall|k: int, at: int|
                #![trigger self.exclude_tests.unwrap()@[k], occurs_at(c.name@, self.exclude_tests.unwrap()@[k]@, at)]
                self.exclude_tests is Some && 0 <= k < self.exclude_tests.unwrap()@.len() && occurs_at(
                    c.name@,
                    self.exclude_tests.unwrap()@[k]@,
                    at,
                ) ==> !b,
    {
        if let Some(v) = &self.include_tests {
            if !any_name_matches(v, &c.name) {
                return false;
            }
        }
        if let Some(v) = &self.exclude_tests {
            if any_name_matches(v, &c.name) {
                return false;
            }
        }
        if let Some(v) = &self.include_categories {
            if !contains_category(v, c.category) {
                return false;
            }
        }
        if let Some(v) = &self.exclude_categories {
            if contains_category(v, c.category) {
                return false;
            }
        }
        if let Some(v) = &self.include_tags {
            if !any_tag_listed(&c.tags, v) {
                return false;
            }
        }
        if let Some(v) = &self.exclude_tags {
            if any_tag_listed(&c.tags, v) {
                return false;
            }
        }
        if let Some(m) = &self.max_priority {
            if c.priority.rank() > m.rank() {
                return false;
            }
        }
        true
    }
}


/// The names of a list of test cases.
pub open spec fn case_names(cases: Seq<TestCase>) -> Seq<Seq<char>> {
    cases.map_values(|c: TestCase| c.name@)
}

/// The dependency names of each of a list of test cases.
pub open spec fn case_deps(cases: Seq<TestCase>) -> Seq<Seq<Seq<char>>> {
    cases.map_values(|c: TestCase| views(c.dependencies@))
}

/// The priority ranks of a list of test cases.
pub open spec fn case_ranks(cases: Seq<TestCase>) -> Seq<int> {
    cases.map_values(|c: TestCase| priority_rank(c.priority) as int)
}

/// The names of a list of suites.
pub open spec fn suite_names(suites: Seq<TestSuite>) -> Seq<Seq<char>> {
    suites.map_values(|s: TestSuite| s.name@)
}

/// The dependency names of each of a list of suites.
pub open spec fn suite_deps(suites: Seq<TestSuite>) -> Seq<Seq<Seq<char>>> {
    suites.map_values(|s: TestSuite| views(s.dependencies@))
}

/// The priority ranks of a list of suites.
pub open spec fn suite_ranks(suites: Seq<TestSuite>) -> Seq<int> {
    suites.map_values(|s: TestSuite| priority_rank(s.priority) as int)
}

/// What is being ordered by its dependencies.
#[derive(Debug, Clone, Copy, PartialEq, Eq, Structural)]
pub enum DependencyKind {
    TestCase,
    Suite,
    Step,
}

/// The message reporting that `item` depends on `dep`, which names none.
pub open spec fn unknown_dependency_message(kind: DependencyKind, item: Seq<char>, dep: Seq<char>) -> Seq<char> {
    match kind {
        DependencyKind::TestCase => "Test case "@ + item + " depends on unknown test case "@ + dep,
        DependencyKind::Suite => "Suite "@ + item + " depends on unknown suite "@ + dep,
        DependencyKind::Step => "Step "@ + item + " depends on unknown step "@ + dep,
    }
}

/// What ordering items of the given names, dependencies and ranks gives,
/// reported as the engine reports it: an unknown dependency or a cycle is
/// an execution error whose message names what went wrong.
pub open spec fn dependency_sort_outcome(
    names: Seq<Seq<char>>,
    deps: Seq<Seq<Seq<char>>>,
    ranks: Seq<int>,
    prioritize: bool,
    kind: DependencyKind,
    cycle_message: Seq<char>,
    r: Result<Vec<usize>, TestHarnessError>,
) -> bool {
    &&& !all_known(names, deps) ==> exists|i: int, k: int|
        #[trigger] first_unknown(names, deps, i, k) && (r matches Err(TestHarnessError::ExecutionError(m))
            && m@ == unknown_dependency_message(kind, names[i], deps[i][k]))
    &&& all_known(names, deps) ==> (r is Ok <==> has_topological_order(names, deps))
    &&& all_known(names, deps) && !has_topological_order(names, deps) ==> (r matches Err(
        TestHarnessError::ExecutionError(m),
    ) && m@ == cycle_message)
    &&& r matches Ok(order) ==> is_topological_order(names, deps, order@)
    &&& prioritize ==> (r matches Ok(order) ==> is_prioritized_order(names, deps, ranks, order@))
}

/// Copies a list of strings.
pub(crate) fn copy_strings(v: &Vec<String>) -> (r: Vec<String>)
    ensures
        views(r@) == views(v@),
{
    let mut r: Vec<String> = Vec::new();
    let mut i: usize = 0;
    while i < v.len()
        invariant
            i <= v.len(),
            views(r@) == views(v@).subrange(0, i as int),
        decreases v.len() - i,
    {
        let ghost before = r@;
        let c = v[i].clone();
        assert(c@ == v@[i as int]@);
        r.push(c);
        assert(views(r@) =~= views(before).push(c@));
        assert(views(r@) =~= views(v@).subrange(0, i + 1));
        i += 1;
    }
    assert(views(v@).subrange(0, v.len() as int) =~= views(v@));
    r
}

/// Orders items by their dependencies and, when asked, by priority within
/// each dependency level; reports errors with messages about `kind`.
pub(crate) fn dependency_sort(
    names: &Vec<String>,
    deps: &Vec<Vec<String>>,
    ranks: &Vec<u8>,
    prioritize: bool,
    kind: DependencyKind,
    cycle_message: &str,
) -> (r: Result<Vec<usize>, TestHarnessError>)
    requires
        deps.len() == names.len(),
        ranks.len() == names.len(),
        forall|x: int| 0 <= x < ranks.len() ==> ranks@[x] < 4,
    ensures
        dependency_sort_outcome(
            str_seq(names@),
            str_seq_seq(deps@),
            ranks@.map_values(|k: u8| k as int),
            prioritize,
            kind,
            cycle_message@,
            r,
        ),
{
    let ghost ns = str_seq(names@);
    let ghost ds = str_seq_seq(deps@);
    let sorted = if prioritize {
        prioritized_order(names, deps, ranks)
    } else {
        topological_order(names, deps)
    };
    match sorted {
        Ok(order) => Ok(order),
        Err(DependencyError::UnknownDependency { item, dependency }) => {
            assert(deps@[item as int]@.len() == ds[item as int].len());
            let (prefix, middle) = match kind {
                DependencyKind::TestCase => ("Test case ", " depends on unknown test case "),
                DependencyKind::Suite => ("Suite ", " depends on unknown suite "),
                DependencyKind::Step => ("Step ", " depends on unknown step "),
            };
            let mut m = prefix.to_owned();
            m.append(names[item].as_str());
            m.append(middle);
            m.append(deps[item][dependency].as_str());
            assert(m@ =~= unknown_dependency_message(kind, ns[item as int], ds[item as int][dependency as int]));
            Err(TestHarnessError::ExecutionError(m))
        },
        Err(DependencyError::Cycle) => Err(TestHarnessError::ExecutionError(cycle_message.to_owned())),
    }
}

/// The test engine: the options of a run and the decisions they drive.
/// The environment, plugins and reporter of a run are held by the runner
/// that executes the tests.
pub struct TestEngine {
    pub options: TestExecutionOptions,
}

/// Builds a test engine.
pub struct TestEngineBuilder {
    pub options: TestExecutionOptions,
}

impl TestEngineBuilder {
    /// A builder with default options.
    pub fn new() -> (b: TestEngineBuilder)
        ensures
            default_options(b.options),
    {
        TestEngineBuilder { options: TestExecutionOptions::default() }
    }

    /// Sets the options.
    pub fn with_options(self, options: TestExecutionOptions) -> (b: TestEngineBuilder)
        ensures
            b.options == options,
    {
        TestEngineBuilder { options }
    }

    /// The engine.
    pub fn build(self) -> (e: TestEngine)
        ensures
            e.options == self.options,
    {
        TestEngine { options: self.options }
    }
}

impl TestEngine {
    /// An engine with default options.
    pub fn new() -> (e: TestEngine)
        ensures
            default_options(e.options),
    {
        TestEngineBuilder::new().build()
    }

    /// A builder with default options.
    pub fn builder() -> (b: TestEngineBuilder)
        ensures
            default_options(b.options),
    {
        TestEngineBuilder::new()
    }

    /// The positions of the test cases to run: those the options allow, in
    /// order, shuffled when the options ask for it with the options' seed,
    /// or `clock_seed` (the current time in seconds) when they give none.
    pub fn filter_test_cases(&self, cases: &Vec<TestCase>, clock_seed: u64) -> (r: Vec<usize>)
        ensures
            !self.options.shuffle ==> r@ == selected(self.options, cases@),
            self.options.shuffle ==> r@ == seeded_shuffle(
                selected(self.options, cases@),
                match self.options.shuffle_seed {
                    Some(s) => s,
                    None => clock_seed,
                },
            ),
            r@.to_multiset() == selected(self.options, cases@).to_multiset(),
            forall|p: int, k: int, at: int|
                #![trigger r@.contains(p as usize), self.options.exclude_tests.unwrap()@[k], occurs_at(cases@[p].name@, self.options.exclude_tests.unwrap()@[k]@, at)]
                0 <= p < cases.len() && self.options.exclude_tests is Some && 0 <= k < self.options.exclude_tests.unwrap()@.len()
                    && occurs_at(cases@[p].name@, self.options.exclude_tests.unwrap()@[k]@, at) ==> !r@.contains(p as usize),
    {
        let mut kept: Vec<usize> = Vec::new();
        let mut i: usize = 0;
        while i < cases.len()
            invariant
                i <= cases.len(),
                kept@ == selected(self.options, cases@.subrange(0, i as int)),
            decreases cases.len() - i,
        {
            assert(cases@.subrange(0, i + 1).drop_last() =~= cases@.subrange(0, i as int));
            if self.options.allows(&cases[i]) {
                kept.push(i);
            }
            i += 1;
        }
        assert(cases@.subrange(0, cases.len() as int) =~= cases@);
        proof {
            broadcast use vstd::seq_lib::group_to_multiset_ensures;
            assert forall|p: int, k: int, at: int|
                0 <= p < cases.len() && self.options.exclude_tests is Some && 0 <= k < self.options.exclude_tests.unwrap()@.len()
                    && occurs_at(cases@[p].name@, self.options.exclude_tests.unwrap()@[k]@, at) implies !kept@.to_multiset().contains(p as usize) by {
                lemma_excluded_name_never_selected(self.options, cases@, p, k, at);
            }
        }
        if self.options.shuffle {
            let seed = match self.options.shuffle_seed {
                Some(s) => s,
                None => clock_seed,
            };
            shuffle_with_seed(kept, seed)
        } else {
            kept
        }
    }

    /// Orders test cases so that each runs after the cases it depends on,
    /// and, when the options ask for it, by priority within each dependency
    /// level. Returns the positions of the cases in running order.
    pub fn sort_test_cases(&self, cases: &Vec<TestCase>) -> (r: Result<Vec<usize>, TestHarnessError>)
        ensures
            dependency_sort_outcome(
                case_names(cases@),
                case_deps(cases@),
                case_ranks(cases@),
                self.options.prioritize,
                DependencyKind::TestCase,
                "Cyclic dependencies detected in test cases"@,
                r,
            ),
    {
        let mut names: Vec<String> = Vec::new();
        let mut deps: Vec<Vec<String>> = Vec::new();
        let mut ranks: Vec<u8> = Vec::new();
        let mut i: usize = 0;
        while i < cases.len()
            invariant
                i <= cases.len(),
                names.len() == i,
                deps.len() == i,
                ranks.len() == i,
                str_seq(names@) == case_names(cases@).subrange(0, i as int),
                str_seq_seq(deps@) == case_deps(cases@).subrange(0, i as int),
                ranks@.map_values(|k: u8| k as int) == case_ranks(cases@).subrange(0, i as int),
                forall|x: int| 0 <= x < ranks.len() ==> ranks@[x] < 4,
            decreases cases.len() - i,
        {
            names.push(cases[i].name.clone());
            deps.push(copy_strings(&cases[i].dependencies));
            ranks.push(cases[i].priority.rank());
            assert(str_seq(names@) =~= case_names(cases@).subrange(0, i + 1));
            assert(str_seq_seq(deps@) =~= case_deps(cases@).subrange(0, i + 1));
            assert(ranks@.map_values(|k: u8| k as int) =~= case_ranks(cases@).subrange(0, i + 1));
            i += 1;
        }
        assert(case_names(cases@).subrange(0, i as int) =~= case_names(cases@));
        assert(case_deps(cases@).subrange(0, i as int) =~= case_deps(cases@));
        assert(case_ranks(cases@).subrange(0, i as int) =~= case_ranks(cases@));
        dependency_sort(
            &names,
            &deps,
            &ranks,
            self.options.prioritize,
            DependencyKind::TestCase,
            "Cyclic dependencies detected in test cases",
        )
    }
}


impl TestEngine {
    /// Orders suites so that each runs after the suites it depends on, and,
    /// when the options ask for it, by priority within each dependency level.
    /// Returns the positions of the suites in running order.
    pub fn sort_suites(&self, suites: &Vec<TestSuite>) -> (r: Result<Vec<usize>, TestHarnessError>)
        ensures
            dependency_sort_outcome(
                suite_names(suites@),
                suite_deps(suites@),
                suite_ranks(suites@),
                self.options.prioritize,
                DependencyKind::Suite,
                "Cyclic dependencies detected in test suites"@,
                r,
            ),
    {
        let mut names: Vec<String> = Vec::new();
        let mut deps: Vec<Vec<String>> = Vec::new();
        let mut ranks: Vec<u8> = Vec::new();
        let mut i: usize = 0;
        while i < suites.len()
            invariant
                i <= suites.len(),
                names.len() == i,
                deps.len() == i,
                ranks.len() == i,
                str_seq(names@) == suite_names(suites@).subrange(0, i as int),
                str_seq_seq(deps@) == suite_deps(suites@).subrange(0, i as int),
                ranks@.map_values(|k: u8| k as int) == suite_ranks(suites@).subrange(0, i as int),
                forall|x: int| 0 <= x < ranks.len() ==> ranks@[x] < 4,
            decreases suites.len() - i,
        {
            names.push(suites[i].name.clone());
            deps.push(copy_strings(&suites[i].dependencies));
            ranks.push(suites[i].priority.rank());
            assert(str_seq(names@) =~= suite_names(suites@).subrange(0, i + 1));
            assert(str_seq_seq(deps@) =~= suite_deps(suites@).subrange(0, i + 1));
            assert(ranks@.map_values(|k: u8| k as int) =~= suite_ranks(suites@).subrange(0, i + 1));
            i += 1;
        }
        assert(suite_names(suites@).subrange(0, i as int) =~= suite_names(suites@));
        assert(suite_deps(suites@).subrange(0, i as int) =~= suite_deps(suites@));
        assert(suite_ranks(suites@).subrange(0, i as int) =~= suite_ranks(suites@));
        dependency_sort(
            &names,
            &deps,
            &ranks,
            self.options.prioritize,
            DependencyKind::Suite,
            "Cyclic dependencies detected in test suites",
        )
    }

    /// The timeout of a test, in milliseconds: its own, or else the default
    /// of the options.
    pub fn test_timeout_ms(&self, c: &TestCase) -> (t: u64)
        ensures
            t == match c.timeout_ms {
                Some(own) => own,
                None => self.options.default_timeout_ms,
            },
    {
        match c.timeout_ms {
            Some(own) => own,
            None => self.options.default_timeout_ms,
        }
    }

    /// After a test of this outcome, does a fail-fast run stop?
    pub fn stops_after_test(&self, outcome: TestOutcome) -> (b: bool)
        ensures
            b == (self.options.fail_fast && is_failure(outcome)),
    {
        self.options.fail_fast && (match outcome {
            TestOutcome::Failed | TestOutcome::TimedOut | TestOutcome::Panicked => true,
            _ => false,
        })
    }

    /// After a suite whose tests did not all pass, does a fail-fast run stop?
    pub fn stops_after_suite(&self, all_passed: bool) -> (b: bool)
        ensures
            b == (self.options.fail_fast && !all_passed),
    {
        self.options.fail_fast && !all_passed
    }
}

/// A test that failed, timed out or panicked.
pub open spec fn is_failure(o: TestOutcome) -> bool {
    o == TestOutcome::Failed || o == TestOutcome::TimedOut || o == TestOutcome::Panicked
}

/// How many tests of a sequential run are run when they end with these
/// outcomes: all of them, or with fail-fast those up to and including the
/// first failure.
pub open spec fn tests_run(fail_fast: bool, outcomes: Seq<TestOutcome>) -> nat
    decreases outcomes.len(),
{
    if outcomes.len() == 0 {
        0
    } else if fail_fast && is_failure(outcomes[0]) {
        1
    } else {
        1 + tests_run(fail_fast, outcomes.drop_first())
    }
}

/// A sequential run of a list of tests: which test runs next, and whether
/// the run has stopped. The runner asks for the next test, runs it, and
/// reports its outcome.
pub struct SequentialRun {
    total: usize,
    next: usize,
    stopped: bool,
    fail_fast: bool,
    outcomes: Ghost<Seq<TestOutcome>>,
}

impl SequentialRun {
    /// The outcomes reported so far.
    pub closed spec fn reported(&self) -> Seq<TestOutcome> {
        self.outcomes@
    }

    /// The number of tests of the run.
    pub closed spec fn size(&self) -> nat {
        self.total as nat
    }

    /// Fail-fast is on.
    pub closed spec fn is_fail_fast(&self) -> bool {
        self.fail_fast
    }

    /// The run's state agrees with the outcomes reported.
    pub closed spec fn well_formed(&self) -> bool {
        &&& self.next as nat == self.outcomes@.len()
        &&& self.next <= self.total
        &&& self.stopped == (self.fail_fast && self.outcomes@.len() > 0 && is_failure(self.outcomes@.last()))
        &&& forall|i: int| 0 <= i < self.outcomes@.len() - 1 ==> !(self.fail_fast && is_failure(#[trigger] self.outcomes@[i]))
    }

    /// A run of `total` tests, none run yet.
    pub fn new(total: usize, fail_fast: bool) -> (r: SequentialRun)
        ensures
            r.well_formed(),
            r.reported().len() == 0,
            r.size() == total,
            r.is_fail_fast() == fail_fast,
    {
        SequentialRun { total, next: 0, stopped: false, fail_fast, outcomes: Ghost(Seq::empty()) }
    }

    /// The position of the test to run next, or `None` when the run is over:
    /// every test has run, or fail-fast stopped it after a failure.
    pub fn next_test(&self) -> (r: Option<usize>)
        requires
            self.well_formed(),
        ensures
            match r {
                Some(i) => i == self.reported().len() && i < self.size() && !(self.is_fail_fast()
                    && self.reported().len() > 0 && is_failure(self.reported().last())),
                None => self.reported().len() == self.size() || (self.is_fail_fast() && self.reported().len() > 0
                    && is_failure(self.reported().last())),
            },
    {
        if self.stopped || self.next == self.total {
            None
        } else {
            Some(self.next)
        }
    }

    /// Records the outcome of the test that `next_test` gave.
    pub fn record(&mut self, outcome: TestOutcome)
        requires
            old(self).well_formed(),
            old(self).reported().len() < old(self).size(),
            !(old(self).is_fail_fast() && old(self).reported().len() > 0 && is_failure(old(self).reported().last())),
        ensures
            final(self).well_formed(),
            final(self).reported() == old(self).reported().push(outcome),
            final(self).size() == old(self).size(),
            final(self).is_fail_fast() == old(self).is_fail_fast(),
    {
        self.next = self.next + 1;
        self.stopped = self.fail_fast && (match outcome {
            TestOutcome::Failed | TestOutcome::TimedOut | TestOutcome::Panicked => true,
            _ => false,
        });
        self.outcomes = Ghost(self.outcomes@.push(outcome));
    }
}

/// Law: when a sequential run is over, the tests run are exactly those
/// that `tests_run` counts for their outcomes: all of them, or with
/// fail-fast up to and including the first failure.
pub proof fn lemma_sequential_run_stops_at_first_failure(run: SequentialRun, outcomes: Seq<TestOutcome>)
    requires
        run.well_formed(),
        outcomes.len() == run.size(),
        run.reported() == outcomes.subrange(0, run.reported().len() as int),
        run.reported().len() == run.size() || (run.is_fail_fast() && run.reported().len() > 0 && is_failure(
            run.reported().last(),
        )),
    ensures
        run.reported().len() == tests_run(run.is_fail_fast(), outcomes),
{
    let n = run.reported().len() as int;
    assert forall|i: int| 0 <= i < n - 1 implies !(run.is_fail_fast() && is_failure(#[trigger] outcomes[i])) by {
        assert(run.reported()[i] == outcomes[i]);
    }
    if n > 0 {
        assert(run.reported().last() == outcomes[n - 1]);
    }
    lemma_tests_run_prefix(run.is_fail_fast(), outcomes, n);
}

proof fn lemma_tests_run_prefix(fail_fast: bool, outcomes: Seq<TestOutcome>, n: int)
    requires
        0 <= n <= outcomes.len(),
        forall|i: int| 0 <= i < n - 1 ==> !(fail_fast && is_failure(#[trigger] outcomes[i])),
        n == outcomes.len() || (fail_fast && n > 0 && is_failure(outcomes[n - 1])),
    ensures
        n == tests_run(fail_fast, outcomes),
    decreases outcomes.len(),
{
    if outcomes.len() > 0 && n > 0 {
        if !(fail_fast && is_failure(outcomes[0])) {
            let rest = outcomes.drop_first();
            assert forall|i: int| 0 <= i < n - 2 implies !(fail_fast && is_failure(#[trigger] rest[i])) by {
                assert(rest[i] == outcomes[i + 1]);
            }
            if n < outcomes.len() {
                assert(rest[n - 2] == outcomes[n - 1]);
            }
            lemma_tests_run_prefix(fail_fast, rest, n - 1);
        } else {
            if n > 1 {
                assert(!(fail_fast && is_failure(outcomes[0])));
            }
        }
    } else if outcomes.len() > 0 && n == 0 {
        assert(false);
    }
}

} // verus!
