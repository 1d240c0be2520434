//! Performance tests: kinds of metrics, the parameters of a load, and when
//! each simulated user starts.

use vstd::prelude::*;
use crate::environment::{param_json, param_json_text, ParamValue};
use crate::kv::StrMap;

verus! {

/// A kind of performance metric.
#[derive(Debug, Clone, Copy, PartialEq, Eq, Structural, Hash)]
pub enum MetricType {
    /// Latency in milliseconds.
    Latency,
    /// Requests per second.
    Throughput,
    /// Errors as a percentage.
    ErrorRate,
    /// CPU usage as a percentage.
    CpuUsage,
    /// Memory usage in megabytes.
    MemoryUsage,
    /// Disk usage in megabytes.
    DiskUsage,
    /// Network usage in megabytes.
    NetworkUsage,
    /// A custom metric by number.
    Custom(u32),
}

impl MetricType {
    /// The name of the kind; a custom metric is `Custom(` its number `)`.
    pub fn name(&self) -> (s: String)
        ensures
            s@ == match *self {
                MetricType::Latency => "Latency"@,
                MetricType::Throughput => "Throughput"@,
                MetricType::ErrorRate => "ErrorRate"@,
                MetricType::CpuUsage => "CpuUsage"@,
                MetricType::MemoryUsage => "MemoryUsage"@,
                MetricType::DiskUsage => "DiskUsage"@,
                MetricType::NetworkUsage => "NetworkUsage"@,
                MetricType::Custom(id) => "Custom("@ + crate::chars::decimal(id as nat) + ")"@,
            },
    {
        match self {
            MetricType::Latency => "Latency".to_owned(),
            MetricType::Throughput => "Throughput".to_owned(),
            MetricType::ErrorRate => "ErrorRate".to_owned(),
            MetricType::CpuUsage => "CpuUsage".to_owned(),
            MetricType::MemoryUsage => "MemoryUsage".to_owned(),
            MetricType::DiskUsage => "DiskUsage".to_owned(),
            MetricType::NetworkUsage => "NetworkUsage".to_owned(),
            MetricType::Custom(id) => {
                let mut s = "Custom(".to_owned();
                s.append(crate::chars::decimal_string(*id as u64).as_str());
                s.append(")");
                s
            },
        }
    }
}

/// The parameters of a load: how many users, for how long, how fast.
#[derive(Debug)]
pub struct PerformanceTestParams {
    pub concurrent_users: usize,
    /// How long the load runs, in milliseconds.
    pub duration_ms: u64,
    /// Time over which the users start, in milliseconds.
    pub ramp_up_time_ms: u64,
    /// Time over which the users stop, in milliseconds.
    pub ramp_down_time_ms: u64,
    /// Pause between a user's requests, in milliseconds.
    pub think_time_ms: u64,
    /// Timeout of a request, in milliseconds.
    pub request_timeout_ms: u64,
    pub max_requests_per_second: Option<usize>,
    /// Custom parameters, each by the JSON text of its value.
    pub custom_params: StrMap,
}

impl Default for PerformanceTestParams {
    /// Ten users for a minute, ten seconds of ramp-up and ramp-down, 100
    /// milliseconds of think time, ten-second request timeouts, no rate
    /// limit and no custom parameters.
    fn default() -> (p: Self)
        ensures
            p.concurrent_users == 10,
            p.duration_ms == 60_000,
            p.ramp_up_time_ms == 10_000,
            p.ramp_down_time_ms == 10_000,
            p.think_time_ms == 100,
            p.request_timeout_ms == 10_000,
            p.max_requests_per_second is None,
            p.custom_params@ == Map::<Seq<char>, Seq<char>>::empty(),
    {
        PerformanceTestParams {
            concurrent_users: 10,
            duration_ms: 60_000,
            ramp_up_time_ms: 10_000,
            ramp_down_time_ms: 10_000,
            think_time_ms: 100,
            request_timeout_ms: 10_000,
            max_requests_per_second: None,
            custom_params: StrMap::new(),
        }
    }
}

impl PerformanceTestParams {
    /// The default parameters.
    pub fn new() -> (p: Self)
        ensures
            p.concurrent_users == 10,
            p.duration_ms == 60_000,
            p.ramp_up_time_ms == 10_000,
            p.ramp_down_time_ms == 10_000,
            p.think_time_ms == 100,
            p.request_timeout_ms == 10_000,
            p.max_requests_per_second is None,
            p.custom_params@ == Map::<Seq<char>, Seq<char>>::empty(),
    {
        PerformanceTestParams::default()
    }

    /// Sets the number of concurrent users.
    pub fn with_concurrent_users(self, concurrent_users: usize) -> (p: Self)
        ensures
            p == (PerformanceTestParams { concurrent_users: concurrent_users, ..self }),
    {
        PerformanceTestParams { concurrent_users: concurrent_users, ..self }
    }

    /// Sets how long the load runs, in milliseconds.
    pub fn with_duration(self, duration_ms: u64) -> (p: Self)
        ensures
            p == (PerformanceTestParams { duration_ms: duration_ms, ..self }),
    {
        PerformanceTestParams { duration_ms: duration_ms, ..self }
    }

    /// Sets the ramp-up time, in milliseconds.
    pub fn with_ramp_up_time(self, ramp_up_time_ms: u64) -> (p: Self)
        ensures
            p == (PerformanceTestParams { ramp_up_time_ms: ramp_up_time_ms, ..self }),
    {
        PerformanceTestParams { ramp_up_time_ms: ramp_up_time_ms, ..self }
    }

    /// Sets the ramp-down time, in milliseconds.
    pub fn with_ramp_down_time(self, ramp_down_time_ms: u64) -> (p: Self)
        ensures
            p == (PerformanceTestParams { ramp_down_time_ms: ramp_down_time_ms, ..self }),
    {
        PerformanceTestParams { ramp_down_time_ms: ramp_down_time_ms, ..self }
    }

    /// Sets the pause between a user's requests, in milliseconds.
    pub fn with_think_time(self, think_time_ms: u64) -> (p: Self)
        ensures
            p == (PerformanceTestParams { think_time_ms: think_time_ms, ..self }),
    {
        PerformanceTestParams { think_time_ms: think_time_ms, ..self }
    }

    /// Sets the timeout of a request, in milliseconds.
    pub fn with_request_timeout(self, request_timeout_ms: u64) -> (p: Self)
        ensures
            p == (PerformanceTestParams { request_timeout_ms: request_timeout_ms, ..self }),
    {
        PerformanceTestParams { request_timeout_ms: request_timeout_ms, ..self }
    }

    /// Sets the largest number of requests per second.
    pub fn with_max_requests_per_second(self, max_requests_per_second: usize) -> (p: Self)
        ensures
            p == (PerformanceTestParams { max_requests_per_second: Some(max_requests_per_second), ..self }),
    {
        PerformanceTestParams { max_requests_per_second: Some(max_requests_per_second), ..self }
    }

    /// Adds a custom parameter, by the JSON text of its value.
    pub fn with_custom_param(self, key: String, value: ParamValue) -> (p: Self)
        ensures
            p.custom_params@ == self.custom_params@.insert(key@, param_json(value)),
            p == (PerformanceTestParams { custom_params: p.custom_params, ..self }),
    {
        let mut p = self;
        let text = param_json_text(&value);
        p.custom_params.insert(key, text);
        p
    }
}

/// The default parameters of a load.
pub fn create_performance_test_params() -> (p: PerformanceTestParams)
    ensures
        p.concurrent_users == 10,
        p.duration_ms == 60_000,
        p.max_requests_per_second is None,
{
    PerformanceTestParams::new()
}

/// When user `user` starts, in milliseconds after the load begins: the
/// ramp-up time is shared evenly among the users after the first, each
/// share rounded down; with one user or no ramp-up all start at once.
pub open spec fn start_delay(p: PerformanceTestParams, user: int) -> int {
    if p.concurrent_users > 1 && p.ramp_up_time_ms > 0 {
        ((p.ramp_up_time_ms as int) / ((p.concurrent_users - 1) as int)) * user
    } else {
        0
    }
}

/// When user `user` starts, as `start_delay` describes.
pub fn user_start_delay_ms(p: &PerformanceTestParams, user: usize) -> (d: u128)
    requires
        user < p.concurrent_users,
    ensures
        d == start_delay(*p, user as int),
{
    if p.concurrent_users > 1 && p.ramp_up_time_ms > 0 {
        let share = p.ramp_up_time_ms as u128 / (p.concurrent_users - 1) as u128;
        assert(share * user <= (p.ramp_up_time_ms as u128) * (user as u128)) by (nonlinear_arith)
            requires
                share <= p.ramp_up_time_ms,
        ;
        assert((p.ramp_up_time_ms as u128) * (user as u128) <= 0xffff_ffff_ffff_ffffu128 * 0xffff_ffff_ffff_ffffu128)
            by (nonlinear_arith);
        share * user as u128
    } else {
        0
    }
}

/// Law: users start in order, and none starts after the ramp-up ends.
pub proof fn lemma_start_delays_within_ramp_up(p: PerformanceTestParams, a: int, b: int)
    requires
        0 <= a <= b < p.concurrent_users,
    ensures
        start_delay(p, a) <= start_delay(p, b) <= p.ramp_up_time_ms,
{
    if p.concurrent_users > 1 && p.ramp_up_time_ms > 0 {
        let n = (p.concurrent_users - 1) as int;
        let r = p.ramp_up_time_ms as int;
        assert((r / n) * a <= (r / n) * b) by (nonlinear_arith)
            requires
                0 <= a <= b,
                n > 0,
                r >= 0,
        ;
        assert((r / n) * b <= r) by (nonlinear_arith)
            requires
                0 <= b <= n,
                n > 0,
                r >= 0,
        ;
    }
}

} // verus!
