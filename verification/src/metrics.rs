//! Metric kinds and aggregations, and the summary statistics of a series of
//! durations: total, average, extremes, median and high percentiles.

use vstd::prelude::*;
use crate::kv::{eq_str, StrMap};

verus! {

broadcast use vstd::seq_lib::group_to_multiset_ensures;

/// Kind of a metric.
#[derive(Debug, Clone, Copy, PartialEq, Eq, Structural, Hash)]
pub enum MetricType {
    Counter,
    Gauge,
    Histogram,
    Summary,
    Timer,
}

impl MetricType {
    /// The lower-case name of the kind.
    pub fn name(&self) -> (s: &'static str)
        ensures
            s@ == match *self {
                MetricType::Counter => "counter"@,
                MetricType::Gauge => "gauge"@,
                MetricType::Histogram => "histogram"@,
                MetricType::Summary => "summary"@,
                MetricType::Timer => "timer"@,
            },
    {
        match self {
            MetricType::Counter => "counter",
            MetricType::Gauge => "gauge",
            MetricType::Histogram => "histogram",
            MetricType::Summary => "summary",
            MetricType::Timer => "timer",
        }
    }
}

/// How the values of a metric are aggregated.
#[derive(Debug, Clone, Copy, PartialEq, Eq, Structural, Hash)]
pub enum MetricAggregation {
    Sum,
    Average,
    Min,
    Max,
    Count,
    Percentile(u8),
}

/// The values of `s` are in increasing order.
pub open spec fn sorted_seq(s: Seq<u128>) -> bool {
    forall|i: int, j: int| 0 <= i <= j < s.len() ==> s[i] <= s[j]
}

/// The values of `s` in ascending order.
pub open spec fn ascending(s: Seq<u128>) -> Seq<u128> {
    s.sort_by(|a: u128, b: u128| a <= b)
}

/// The ascending order of `s` is sorted and holds the values of `s`.
pub proof fn lemma_ascending(s: Seq<u128>)
    ensures
        sorted_seq(ascending(s)),
        ascending(s).to_multiset() == s.to_multiset(),
        ascending(s).len() == s.len(),
{
    let leq = |a: u128, b: u128| a <= b;
    assert(vstd::relations::total_ordering(leq));
    s.lemma_sort_by_ensures(leq);
    let t = ascending(s);
    assert forall|i: int, j: int| 0 <= i <= j < t.len() implies t[i] <= t[j] by {
        if i < j {
            assert(leq(t[i], t[j]));
        }
    }
    s.to_multiset_ensures();
    t.to_multiset_ensures();
}

/// A sorted sequence of the values of `s` is their ascending order.
proof fn lemma_ascending_unique(s: Seq<u128>, t: Seq<u128>)
    requires
        sorted_seq(t),
        t.to_multiset() == s.to_multiset(),
    ensures
        t == ascending(s),
{
    let leq = |a: u128, b: u128| a <= b;
    assert(vstd::relations::total_ordering(leq));
    s.lemma_sort_by_ensures(leq);
    assert(vstd::relations::sorted_by(t, leq)) by {
        assert forall|i: int, j: int| 0 <= i < j < t.len() implies #[trigger] leq(t[i], t[j]) by {}
    }
    vstd::seq_lib::lemma_sorted_unique(t, ascending(s), leq);
}

/// The sum of the values of `s`.
pub open spec fn total(s: Seq<u128>) -> int
    decreases s.len(),
{
    if s.len() == 0 {
        0
    } else {
        total(s.drop_last()) + s.last()
    }
}

/// Summary statistics of durations, in nanoseconds.
#[derive(Debug, Clone, Copy, PartialEq, Eq, Structural)]
pub struct TimeMetrics {
    pub total_duration: u128,
    pub avg_duration: u128,
    pub min_duration: u128,
    pub max_duration: u128,
    pub median_duration: u128,
    pub p90_duration: u128,
    pub p95_duration: u128,
    pub p99_duration: u128,
}

/// The position of a percentile in `n` sorted values: `n * q / 100` rounded
/// down, and never past the last value.
pub open spec fn percentile_index(n: int, q: int) -> int {
    let i = n * q / 100;
    if i < n - 1 {
        i
    } else {
        n - 1
    }
}

/// The statistics of the sorted series `t`, whose count the average divides
/// by modulo 2^32.
pub open spec fn stats_of(d: Seq<u128>, t: Seq<u128>) -> TimeMetrics {
    let n = d.len() as int;
    TimeMetrics {
        total_duration: total(d) as u128,
        avg_duration: (total(d) / (n % 0x1_0000_0000)) as u128,
        min_duration: t[0],
        max_duration: t[n - 1],
        median_duration: t[n / 2],
        p90_duration: t[percentile_index(n, 90)],
        p95_duration: t[percentile_index(n, 95)],
        p99_duration: t[percentile_index(n, 99)],
    }
}

/// Inserts `x` into the sorted vector at its place.
fn insert_sorted(v: &mut Vec<u128>, x: u128)
    requires
        sorted_seq(old(v)@),
    ensures
        sorted_seq(final(v)@),
        final(v)@.to_multiset() == old(v)@.to_multiset().insert(x),
{
    let mut pos: usize = 0;
    while pos < v.len() && v[pos] <= x
        invariant
            pos <= v.len(),
            forall|j: int| 0 <= j < pos ==> v@[j] <= x,
        decreases v.len() - pos,
    {
        pos += 1;
    }
    let ghost before = v@;
    v.insert(pos, x);
    proof {
        assert(v@ == before.insert(pos as int, x));
        assert forall|i: int, j: int| 0 <= i <= j < v@.len() implies v@[i] <= v@[j] by {
            if j < pos {
                assert(v@[i] == before[i] && v@[j] == before[j]);
            } else if j == pos {
                if i < pos {
                    assert(v@[i] == before[i]);
                }
            } else {
                assert(v@[j] == before[j - 1]);
                if i < pos {
                    assert(v@[i] == before[i]);
                } else if i == pos {
                    assert(pos < before.len());
                    assert(before[pos as int] > x);
                } else {
                    assert(v@[i] == before[i - 1]);
                }
            }
        }
    }
}

/// The durations in increasing order.
pub fn sorted_durations(d: &Vec<u128>) -> (t: Vec<u128>)
    ensures
        t@ == ascending(d@),
        sorted_seq(t@),
        t@.to_multiset() == d@.to_multiset(),
        t@.len() == d@.len(),
{
    let mut t: Vec<u128> = Vec::new();
    let mut i: usize = 0;
    while i < d.len()
        invariant
            i <= d.len(),
            sorted_seq(t@),
            t@.to_multiset() == d@.subrange(0, i as int).to_multiset(),
        decreases d.len() - i,
    {
        insert_sorted(&mut t, d[i]);
        assert(d@.subrange(0, i + 1) =~= d@.subrange(0, i as int).push(d@[i as int]));
        i += 1;
    }
    assert(d@.subrange(0, d.len() as int) =~= d@);
    proof {
        t@.to_multiset_ensures();
        d@.to_multiset_ensures();
        lemma_ascending_unique(d@, t@);
    }
    t
}

/// The smallest value of a series is the first of its sorted order.
proof fn lemma_sorted_extremes(d: Seq<u128>, t: Seq<u128>)
    requires
        sorted_seq(t),
        t.to_multiset() == d.to_multiset(),
        t.len() == d.len(),
        d.len() > 0,
    ensures
        forall|i: int| 0 <= i < d.len() ==> t[0] <= #[trigger] d[i] <= t[t.len() - 1],
        d.contains(t[0]),
        d.contains(t[t.len() - 1]),
{
    assert forall|i: int| 0 <= i < d.len() implies t[0] <= #[trigger] d[i] <= t[t.len() - 1] by {
        assert(d.to_multiset().count(d[i]) > 0);
        assert(t.to_multiset().count(d[i]) > 0);
        assert(t.contains(d[i]));
        let k = choose|k: int| 0 <= k < t.len() && t[k] == d[i];
    }
    assert(t.to_multiset().count(t[0]) > 0);
    assert(d.to_multiset().count(t[0]) > 0);
    assert(t.to_multiset().count(t[t.len() - 1]) > 0);
    assert(d.to_multiset().count(t[t.len() - 1]) > 0);
}

impl TimeMetrics {
    /// The statistics of a series of durations (in nanoseconds): all zero for
    /// no durations; else their sum, their sum divided by their count (the
    /// count taken modulo 2^32, as the divisor of a duration is a 32-bit
    /// number), the smallest and largest, and from their sorted order the value
    /// at half the count and at 90, 95 and 99 percent of the count, rounded
    /// down and at most the last position.
    pub fn new(durations: &Vec<u128>) -> (m: TimeMetrics)
        requires
            total(durations@) <= u128::MAX,
            (durations.len() as int) % 0x1_0000_0000int != 0 || durations.len() == 0,
            (durations.len() as int) < 0x20_0000_0000_0000int,
        ensures
            durations.len() == 0 ==> m == (TimeMetrics {
                total_duration: 0,
                avg_duration: 0,
                min_duration: 0,
                max_duration: 0,
                median_duration: 0,
                p90_duration: 0,
                p95_duration: 0,
                p99_duration: 0,
            }),
            durations.len() > 0 ==> m == stats_of(durations@, ascending(durations@)),
            durations.len() > 0 ==> forall|i: int| 0 <= i < durations.len() ==> m.min_duration <= #[trigger] durations@[i]
                <= m.max_duration,
    {
        let n = durations.len();
        if n == 0 {
            return TimeMetrics {
                total_duration: 0,
                avg_duration: 0,
                min_duration: 0,
                max_duration: 0,
                median_duration: 0,
                p90_duration: 0,
                p95_duration: 0,
                p99_duration: 0,
            };
        }
        let mut sum: u128 = 0;
        let mut i: usize = 0;
        while i < n
            invariant
                i <= n,
                n == durations.len(),
                total(durations@) <= u128::MAX,
                sum as int == total(durations@.subrange(0, i as int)),
            decreases n - i,
        {
            proof {
                lemma_total_prefix_le(durations@, i + 1);
            }
            assert(durations@.subrange(0, i + 1).drop_last() =~= durations@.subrange(0, i as int));
            sum = sum + durations[i];
            i += 1;
        }
        assert(durations@.subrange(0, n as int) =~= durations@);
        let divisor: u128 = ((n as u64) % 0x1_0000_0000u64) as u128;
        let avg = sum / divisor;
        let t = sorted_durations(durations);
        proof {
            lemma_sorted_extremes(durations@, t@);
        }
        let i90 = percentile(n, 90);
        let i95 = percentile(n, 95);
        let i99 = percentile(n, 99);
        let m = TimeMetrics {
            total_duration: sum,
            avg_duration: avg,
            min_duration: t[0],
            max_duration: t[n - 1],
            median_duration: t[n / 2],
            p90_duration: t[i90],
            p95_duration: t[i95],
            p99_duration: t[i99],
        };
        assert(m == stats_of(durations@, t@));
        m
    }
}

/// The position of percentile `q` among `n` sorted values.
fn percentile(n: usize, q: usize) -> (i: usize)
    requires
        0 < n,
        (n as int) < 0x20_0000_0000_0000int,
        q < 100,
    ensures
        i == percentile_index(n as int, q as int),
        i < n,
{
    assert((n as int) * (q as int) < 0x20_0000_0000_0000int * 100) by (nonlinear_arith)
        requires
            0 < n,
            (n as int) < 0x20_0000_0000_0000int,
            q < 100,
    ;
    let p: u64 = (n as u64) * (q as u64) / 100;
    assert((n as int) * (q as int) / 100 <= n as int) by (nonlinear_arith)
        requires
            0 < n,
            q < 100,
    ;
    if (p as usize) < n - 1 {
        p as usize
    } else {
        n - 1
    }
}

proof fn lemma_total_prefix_le(s: Seq<u128>, k: int)
    requires
        0 <= k <= s.len(),
    ensures
        total(s.subrange(0, k)) <= total(s),
        0 <= total(s.subrange(0, k)),
    decreases s.len() - k,
{
    if k < s.len() {
        lemma_total_prefix_le(s, k + 1);
        assert(s.subrange(0, k + 1).drop_last() =~= s.subrange(0, k));
    } else {
        assert(s.subrange(0, k) =~= s);
    }
    lemma_total_nonneg(s.subrange(0, k));
}

proof fn lemma_total_nonneg(s: Seq<u128>)
    ensures
        total(s) >= 0,
    decreases s.len(),
{
    if s.len() > 0 {
        lemma_total_nonneg(s.drop_last());
    }
}

/// Law: the statistics of a series are ordered: the smallest value, the
/// median and the 90th, 95th and 99th percentiles never decrease, up to the
/// largest value.
pub proof fn lemma_statistics_ordered(d: Seq<u128>)
    requires
        d.len() > 0,
    ensures
        ({
            let m = stats_of(d, ascending(d));
            m.min_duration <= m.median_duration <= m.p90_duration <= m.p95_duration <= m.p99_duration
                <= m.max_duration
        }),
{
    lemma_ascending(d);
    let t = ascending(d);
    let n = d.len() as int;
    assert(n * 50 / 100 <= n * 90 / 100 <= n * 95 / 100 <= n * 99 / 100) by (nonlinear_arith)
        requires
            n > 0,
    ;
    assert(n / 2 == n * 50 / 100) by (nonlinear_arith)
        requires
            n > 0,
    ;
    assert(n / 2 <= n - 1);
}


/// The positions, in order, of the metrics of type `t`.
pub open spec fn type_positions(types: Seq<MetricType>, t: MetricType) -> Seq<usize>
    decreases types.len(),
{
    if types.len() == 0 {
        Seq::empty()
    } else {
        let rest = type_positions(types.drop_last(), t);
        if types.last() == t {
            rest.push((types.len() - 1) as usize)
        } else {
            rest
        }
    }
}

/// The positions, in order, of the metrics of type `t`, among metrics of
/// these types.
pub fn select_by_type(types: &Vec<MetricType>, t: MetricType) -> (r: Vec<usize>)
    ensures
        r@ == type_positions(types@, t),
{
    let mut r: Vec<usize> = Vec::new();
    let mut i: usize = 0;
    while i < types.len()
        invariant
            i <= types.len(),
            r@ == type_positions(types@.subrange(0, i as int), t),
        decreases types.len() - i,
    {
        assert(types@.subrange(0, i + 1).drop_last() =~= types@.subrange(0, i as int));
        if types[i] == t {
            r.push(i);
        }
        i += 1;
    }
    assert(types@.subrange(0, i as int) =~= types@);
    r
}

/// The metric's tags give `key` the value `value`.
pub open spec fn has_tag(tags: StrMap, key: Seq<char>, value: Seq<char>) -> bool {
    tags@.contains_key(key) && tags@[key] == value
}

/// The positions, in order, of the metrics whose tags give `key` the value
/// `value`.
pub open spec fn tag_positions(tags: Seq<StrMap>, key: Seq<char>, value: Seq<char>) -> Seq<usize>
    decreases tags.len(),
{
    if tags.len() == 0 {
        Seq::empty()
    } else {
        let rest = tag_positions(tags.drop_last(), key, value);
        if has_tag(tags.last(), key, value) {
            rest.push((tags.len() - 1) as usize)
        } else {
            rest
        }
    }
}

/// The positions, in order, of the metrics whose tags give `key` the value
/// `value`, among metrics of these tags.
pub fn select_by_tag(tags: &Vec<StrMap>, key: &str, value: &str) -> (r: Vec<usize>)
    ensures
        r@ == tag_positions(tags@, key@, value@),
{
    let mut r: Vec<usize> = Vec::new();
    let mut i: usize = 0;
    while i < tags.len()
        invariant
            i <= tags.len(),
            r@ == tag_positions(tags@.subrange(0, i as int), key@, value@),
        decreases tags.len() - i,
    {
        assert(tags@.subrange(0, i + 1).drop_last() =~= tags@.subrange(0, i as int));
        let hit = match tags[i].get(key) {
            Some(v) => eq_str(v.as_str(), value),
            None => false,
        };
        if hit {
            r.push(i);
        }
        i += 1;
    }
    assert(tags@.subrange(0, i as int) =~= tags@);
    r
}

} // verus!
