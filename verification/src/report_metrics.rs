//! Metrics of a test report: metric kinds and aggregations, and the time a
//! run took, with the duration of each test.

use vstd::prelude::*;
use crate::kv::eq_str;
use crate::registry::{distinct_names, named_map};

verus! {

/// Kind of a metric.
#[derive(Debug, Clone, Copy, PartialEq, Eq, Structural)]
pub enum MetricType {
    Counter,
    Gauge,
    Histogram,
    Summary,
    Timer,
}

/// How the values of a metric are aggregated.
#[derive(Debug, Clone, Copy, PartialEq, Eq, Structural)]
pub enum MetricAggregation {
    Sum,
    Average,
    Min,
    Max,
    Percentile(u8),
    Count,
}

/// The sum of the durations of a list of entries.
pub open spec fn entries_total(entries: Seq<(String, u128)>) -> int
    decreases entries.len(),
{
    if entries.len() == 0 {
        0
    } else {
        entries_total(entries.drop_last()) + entries.last().1
    }
}

/// The time a run took, in nanoseconds.
pub struct TimeMetrics {
    total_duration: u128,
    setup_duration: Option<u128>,
    teardown_duration: Option<u128>,
    test_durations: Vec<(String, u128)>,
}

impl TimeMetrics {
    #[verifier::type_invariant]
    closed spec fn inv(&self) -> bool {
        distinct_names(self.test_durations@)
    }

    /// The total duration of the run.
    pub closed spec fn total(&self) -> u128 {
        self.total_duration
    }

    /// The setup duration, if recorded.
    pub closed spec fn setup(&self) -> Option<u128> {
        self.setup_duration
    }

    /// The teardown duration, if recorded.
    pub closed spec fn teardown(&self) -> Option<u128> {
        self.teardown_duration
    }

    /// The total duration of the run.
    pub fn total_duration(&self) -> (d: u128)
        ensures
            d == self.total(),
    {
        self.total_duration
    }

    /// The setup duration, if recorded.
    pub fn setup_duration(&self) -> (d: Option<u128>)
        ensures
            d == self.setup(),
    {
        self.setup_duration
    }

    /// The teardown duration, if recorded.
    pub fn teardown_duration(&self) -> (d: Option<u128>)
        ensures
            d == self.teardown(),
    {
        self.teardown_duration
    }

    /// The duration of each test, by test.
    pub closed spec fn durations(&self) -> Map<Seq<char>, u128> {
        named_map(self.test_durations@)
    }

    /// The sum of the durations of the tests.
    pub closed spec fn total_test_time(&self) -> int {
        entries_total(self.test_durations@)
    }

    /// The number of tests with a duration.
    pub closed spec fn test_count(&self) -> nat {
        self.test_durations@.len()
    }

    /// Metrics of a run of the given total duration, with no setup,
    /// teardown or test durations.
    pub fn new(total_duration: u128) -> (m: TimeMetrics)
        ensures
            m.total() == total_duration,
            m.setup() is None,
            m.teardown() is None,
            m.durations() == Map::<Seq<char>, u128>::empty(),
            m.test_count() == 0,
            m.total_test_time() == 0,
    {
        TimeMetrics { total_duration, setup_duration: None, teardown_duration: None, test_durations: Vec::new() }
    }

    /// Sets the setup duration.
    pub fn with_setup_duration(self, duration: u128) -> (m: TimeMetrics)
        ensures
            m.total() == self.total(),
            m.setup() == Some(duration),
            m.teardown() == self.teardown(),
            m.durations() == self.durations(),
            m.test_count() == self.test_count(),
            m.total_test_time() == self.total_test_time(),
    {
        proof {
            use_type_invariant(&self);
        }
        TimeMetrics { setup_duration: Some(duration), ..self }
    }

    /// Sets the teardown duration.
    pub fn with_teardown_duration(self, duration: u128) -> (m: TimeMetrics)
        ensures
            m.total() == self.total(),
            m.setup() == self.setup(),
            m.teardown() == Some(duration),
            m.durations() == self.durations(),
            m.test_count() == self.test_count(),
            m.total_test_time() == self.total_test_time(),
    {
        proof {
            use_type_invariant(&self);
        }
        TimeMetrics { teardown_duration: Some(duration), ..self }
    }

    /// Records the duration of a test; a test recorded before gets the new
    /// duration.
    pub fn add_test_duration(&mut self, test_id: String, duration: u128)
        ensures
            final(self).durations() == old(self).durations().insert(test_id@, duration),
            final(self).total() == old(self).total(),
            final(self).setup() == old(self).setup(),
            final(self).teardown() == old(self).teardown(),
            old(self).durations().contains_key(test_id@) ==> final(self).test_count() == old(self).test_count()
                && final(self).total_test_time() == old(self).total_test_time() - old(self).durations()[test_id@]
                + duration,
            !old(self).durations().contains_key(test_id@) ==> final(self).test_count() == old(self).test_count() + 1
                && final(self).total_test_time() == old(self).total_test_time() + duration,
    {
        proof {
            use_type_invariant(&*self);
            crate::registry::lemma_named_map(self.test_durations@);
        }
        let ghost before = self.test_durations@;
        let found = position_of(&self.test_durations, test_id.as_str());
        let i: usize = match found {
            Some(p) => p,
            None => self.test_durations.len(),
        };
        let mut entries: Vec<(String, u128)> = Vec::new();
        std::mem::swap(&mut entries, &mut self.test_durations);
        if i < entries.len() {
            let ghost k = test_id@;
            entries.set(i, (test_id, duration));
            proof {
                assert(distinct_names(entries@));
                crate::registry::lemma_named_map(entries@);
                assert forall|x: Seq<char>| #[trigger] named_map(entries@).contains_key(x) == named_map(before).insert(k, duration).contains_key(x) by {
                    if named_map(before).contains_key(x) {
                        let j = choose|j: int| 0 <= j < before.len() && before[j].0@ == x;
                        assert(entries@[j].0@ == x || j == i);
                    }
                }
                assert forall|x: Seq<char>| #[trigger] named_map(entries@).contains_key(x) implies named_map(entries@)[x] == named_map(before).insert(k, duration)[x] by {
                    let j = choose|j: int| 0 <= j < entries@.len() && entries@[j].0@ == x;
                    if j != i {
                        assert(before[j] == entries@[j]);
                    }
                }
                assert(named_map(entries@) =~= named_map(before).insert(k, duration));
                lemma_total_update(before, i as int, duration);
                assert(before.update(i as int, entries@[i as int]) =~= entries@);
            }
        } else {
            let ghost k = test_id@;
            entries.push((test_id, duration));
            proof {
                assert(entries@.drop_last() =~= before);
                assert(distinct_names(entries@));
                assert(!named_map(before).contains_key(k));
            }
        }
        self.test_durations = entries;
    }

    /// The average test duration, in nanoseconds (the quotient reduced
    /// modulo 2^64, as a duration is built from a 64-bit count of
    /// nanoseconds); `None` when no test has a duration.
    pub fn average_test_duration(&self) -> (r: Option<u64>)
        requires
            self.total_test_time() <= u128::MAX,
        ensures
            self.test_count() == 0 ==> r is None,
            self.test_count() > 0 ==> r == Some((self.total_test_time() / (self.test_count() as int)) as u64),
    {
        if self.test_durations.len() == 0 {
            return None;
        }
        let mut sum: u128 = 0;
        let mut i: usize = 0;
        while i < self.test_durations.len()
            invariant
                i <= self.test_durations.len(),
                entries_total(self.test_durations@) <= u128::MAX,
                sum as int == entries_total(self.test_durations@.subrange(0, i as int)),
            decreases self.test_durations.len() - i,
        {
            proof {
                lemma_entries_total_prefix(self.test_durations@, i + 1);
            }
            assert(self.test_durations@.subrange(0, i + 1).drop_last() =~= self.test_durations@.subrange(0, i as int));
            sum = sum + self.test_durations[i].1;
            i += 1;
        }
        assert(self.test_durations@.subrange(0, i as int) =~= self.test_durations@);
        let n = self.test_durations.len() as u128;
        Some((sum / n) as u64)
    }
}

/// Position of the entry of `name`.
fn position_of(entries: &Vec<(String, u128)>, name: &str) -> (r: Option<usize>)
    ensures
        match r {
            Some(i) => i < entries.len() && entries@[i as int].0@ == name@,
            None => forall|j: int| 0 <= j < entries.len() ==> entries@[j].0@ != name@,
        },
{
    let mut i: usize = 0;
    while i < entries.len()
        invariant
            i <= entries.len(),
            forall|j: int| 0 <= j < i ==> entries@[j].0@ != name@,
        decreases entries.len() - i,
    {
        if eq_str(entries[i].0.as_str(), name) {
            return Some(i);
        }
        i += 1;
    }
    None
}

proof fn lemma_entries_total_nonneg(s: Seq<(String, u128)>)
    ensures
        entries_total(s) >= 0,
    decreases s.len(),
{
    if s.len() > 0 {
        lemma_entries_total_nonneg(s.drop_last());
    }
}

proof fn lemma_entries_total_prefix(s: Seq<(String, u128)>, k: int)
    requires
        0 <= k <= s.len(),
    ensures
        entries_total(s.subrange(0, k)) <= entries_total(s),
    decreases s.len() - k,
{
    if k < s.len() {
        lemma_entries_total_prefix(s, k + 1);
        assert(s.subrange(0, k + 1).drop_last() =~= s.subrange(0, k));
        lemma_entries_total_nonneg(s.subrange(0, k));
    } else {
        assert(s.subrange(0, k) =~= s);
    }
}

proof fn lemma_total_update(s: Seq<(String, u128)>, i: int, v: u128)
    requires
        0 <= i < s.len(),
    ensures
        forall|name: String| #[trigger] entries_total(s.update(i, (name, v))) == entries_total(s) - s[i].1 + v,
    decreases s.len(),
{
    assert forall|name: String| #[trigger] entries_total(s.update(i, (name, v))) == entries_total(s) - s[i].1 + v by {
        let u = s.update(i, (name, v));
        if i == s.len() - 1 {
            assert(u.drop_last() =~= s.drop_last());
        } else {
            lemma_total_update(s.drop_last(), i, v);
            assert(u.drop_last() =~= s.drop_last().update(i, (name, v)));
            assert(entries_total(s.drop_last().update(i, (name, v))) == entries_total(s.drop_last()) - s.drop_last()[i].1 + v);
        }
    }
}

} // verus!
