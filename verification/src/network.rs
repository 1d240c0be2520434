//! Raw network requests and responses of the network mock, and the network
//! conditions that the simulator imposes: latency presets, bandwidth
//! presets and the latency of one simulated exchange.

use vstd::prelude::*;
use rand::Rng;
use crate::kv::StrMap;

verus! {

/// A raw network request.
#[derive(Debug)]
pub struct NetworkRequest {
    pub protocol: String,
    pub host: String,
    pub port: u16,
    pub path: String,
    pub method: String,
    pub headers: StrMap,
    pub body: Option<Vec<u8>>,
}

impl NetworkRequest {
    /// A request with no headers and no body.
    pub fn new(protocol: String, host: String, port: u16, path: String, method: String) -> (r: NetworkRequest)
        ensures
            r.protocol@ == protocol@,
            r.host@ == host@,
            r.port == port,
            r.path@ == path@,
            r.method@ == method@,
            r.headers@ == Map::<Seq<char>, Seq<char>>::empty(),
            r.body is None,
    {
        NetworkRequest { protocol, host, port, path, method, headers: StrMap::new(), body: None }
    }

    /// Sets a header.
    pub fn with_header(self, key: String, value: String) -> (r: NetworkRequest)
        ensures
            r.protocol == self.protocol,
            r.host == self.host,
            r.port == self.port,
            r.path == self.path,
            r.method == self.method,
            r.headers@ == self.headers@.insert(key@, value@),
            r.body == self.body,
    {
        let mut r = self;
        r.headers.insert(key, value);
        r
    }

    /// Sets the body.
    pub fn with_body(self, body: Vec<u8>) -> (r: NetworkRequest)
        ensures
            r.protocol == self.protocol,
            r.host == self.host,
            r.port == self.port,
            r.path == self.path,
            r.method == self.method,
            r.headers@ == self.headers@,
            r.body matches Some(b) && b@ == body@,
    {
        let mut r = self;
        r.body = Some(body);
        r
    }
}

/// A raw network response.
#[derive(Debug)]
pub struct NetworkResponse {
    pub status_code: u16,
    pub headers: StrMap,
    pub body: Option<Vec<u8>>,
}

impl NetworkResponse {
    /// A response with no headers and no body.
    pub fn new(status_code: u16) -> (r: NetworkResponse)
        ensures
            r.status_code == status_code,
            r.headers@ == Map::<Seq<char>, Seq<char>>::empty(),
            r.body is None,
    {
        NetworkResponse { status_code, headers: StrMap::new(), body: None }
    }

    /// Sets a header.
    pub fn with_header(self, key: String, value: String) -> (r: NetworkResponse)
        ensures
            r.status_code == self.status_code,
            r.headers@ == self.headers@.insert(key@, value@),
            r.body == self.body,
    {
        let mut r = self;
        r.headers.insert(key, value);
        r
    }

    /// Sets the body.
    pub fn with_body(self, body: Vec<u8>) -> (r: NetworkResponse)
        ensures
            r.status_code == self.status_code,
            r.headers@ == self.headers@,
            r.body matches Some(b) && b@ == body@,
    {
        let mut r = self;
        r.body = Some(body);
        r
    }
}

/// A named quality of network.
#[derive(Debug, Clone, Copy, PartialEq, Eq, Structural)]
pub enum NetworkConditionType {
    Perfect,
    Good,
    Average,
    Poor,
    VeryPoor,
    Custom,
}

impl NetworkConditionType {
    /// The display name of the condition.
    pub fn name(&self) -> (s: String)
        ensures
            s@ == match *self {
                NetworkConditionType::Perfect => "Perfect"@,
                NetworkConditionType::Good => "Good"@,
                NetworkConditionType::Average => "Average"@,
                NetworkConditionType::Poor => "Poor"@,
                NetworkConditionType::VeryPoor => "Very Poor"@,
                NetworkConditionType::Custom => "Custom"@,
            },
    {
        match self {
            NetworkConditionType::Perfect => "Perfect".to_owned(),
            NetworkConditionType::Good => "Good".to_owned(),
            NetworkConditionType::Average => "Average".to_owned(),
            NetworkConditionType::Poor => "Poor".to_owned(),
            NetworkConditionType::VeryPoor => "Very Poor".to_owned(),
            NetworkConditionType::Custom => "Custom".to_owned(),
        }
    }
}

/// Simulated latency: a base between `min_ms` and `max_ms`, plus a jitter
/// of up to `jitter_ms`.
#[derive(Debug, Clone, Copy, PartialEq, Eq, Structural)]
pub struct LatencyConfig {
    pub enabled: bool,
    pub min_ms: u64,
    pub max_ms: u64,
    pub jitter_ms: u64,
}

impl Default for LatencyConfig {
    /// Latency off, all bounds zero.
    fn default() -> (c: Self)
        ensures
            c == (LatencyConfig { enabled: false, min_ms: 0, max_ms: 0, jitter_ms: 0 }),
    {
        LatencyConfig { enabled: false, min_ms: 0, max_ms: 0, jitter_ms: 0 }
    }
}

/// Simulated bandwidth limit, in kilobits per second.
#[derive(Debug, Clone, Copy, PartialEq, Eq, Structural)]
pub struct BandwidthConfig {
    pub enabled: bool,
    pub kbps: u64,
}

impl Default for BandwidthConfig {
    /// Bandwidth limit off.
    fn default() -> (c: Self)
        ensures
            c == (BandwidthConfig { enabled: false, kbps: 0 }),
    {
        BandwidthConfig { enabled: false, kbps: 0 }
    }
}

/// The latency and bandwidth that a named condition sets.
pub open spec fn condition_preset(c: NetworkConditionType) -> Option<(LatencyConfig, BandwidthConfig)> {
    match c {
        NetworkConditionType::Perfect => Some(
            (
                LatencyConfig { enabled: false, min_ms: 0, max_ms: 0, jitter_ms: 0 },
                BandwidthConfig { enabled: false, kbps: 0 },
            ),
        ),
        NetworkConditionType::Good => Some(
            (
                LatencyConfig { enabled: true, min_ms: 20, max_ms: 50, jitter_ms: 5 },
                BandwidthConfig { enabled: true, kbps: 5000 },
            ),
        ),
        NetworkConditionType::Average => Some(
            (
                LatencyConfig { enabled: true, min_ms: 50, max_ms: 100, jitter_ms: 10 },
                BandwidthConfig { enabled: true, kbps: 1000 },
            ),
        ),
        NetworkConditionType::Poor => Some(
            (
                LatencyConfig { enabled: true, min_ms: 100, max_ms: 300, jitter_ms: 30 },
                BandwidthConfig { enabled: true, kbps: 500 },
            ),
        ),
        NetworkConditionType::VeryPoor => Some(
            (
                LatencyConfig { enabled: true, min_ms: 300, max_ms: 1000, jitter_ms: 100 },
                BandwidthConfig { enabled: true, kbps: 100 },
            ),
        ),
        NetworkConditionType::Custom => None,
    }
}

/// The latency and bandwidth that a named condition sets; `None` for a
/// custom condition, which keeps the current configuration.
pub fn preset_for(c: NetworkConditionType) -> (r: Option<(LatencyConfig, BandwidthConfig)>)
    ensures
        r == condition_preset(c),
{
    match c {
        NetworkConditionType::Perfect => Some(
            (
                LatencyConfig { enabled: false, min_ms: 0, max_ms: 0, jitter_ms: 0 },
                BandwidthConfig { enabled: false, kbps: 0 },
            ),
        ),
        NetworkConditionType::Good => Some(
            (
                LatencyConfig { enabled: true, min_ms: 20, max_ms: 50, jitter_ms: 5 },
                BandwidthConfig { enabled: true, kbps: 5000 },
            ),
        ),
        NetworkConditionType::Average => Some(
            (
                LatencyConfig { enabled: true, min_ms: 50, max_ms: 100, jitter_ms: 10 },
                BandwidthConfig { enabled: true, kbps: 1000 },
            ),
        ),
        NetworkConditionType::Poor => Some(
            (
                LatencyConfig { enabled: true, min_ms: 100, max_ms: 300, jitter_ms: 30 },
                BandwidthConfig { enabled: true, kbps: 500 },
            ),
        ),
        NetworkConditionType::VeryPoor => Some(
            (
                LatencyConfig { enabled: true, min_ms: 300, max_ms: 1000, jitter_ms: 100 },
                BandwidthConfig { enabled: true, kbps: 100 },
            ),
        ),
        NetworkConditionType::Custom => None,
    }
}

/// Whether a named condition loses packets, and how many in a burst;
/// `None` for a custom condition, which keeps the current configuration.
/// The probability of a loss is set by the runner.
pub fn packet_loss_preset(c: NetworkConditionType) -> (r: Option<(bool, u32)>)
    ensures
        r == match c {
            NetworkConditionType::Perfect => Some((false, 1u32)),
            NetworkConditionType::Good => Some((true, 1u32)),
            NetworkConditionType::Average => Some((true, 2u32)),
            NetworkConditionType::Poor => Some((true, 3u32)),
            NetworkConditionType::VeryPoor => Some((true, 5u32)),
            NetworkConditionType::Custom => None,
        },
{
    match c {
        NetworkConditionType::Perfect => Some((false, 1)),
        NetworkConditionType::Good => Some((true, 1)),
        NetworkConditionType::Average => Some((true, 2)),
        NetworkConditionType::Poor => Some((true, 3)),
        NetworkConditionType::VeryPoor => Some((true, 5)),
        NetworkConditionType::Custom => None,
    }
}

/// A number drawn from the thread's random generator, uniformly between
/// `lo` and `hi` inclusive (`Rng::gen_range`).
#[verifier::external_body]
pub(crate) fn random_between(lo: u64, hi: u64) -> (r: u64)
    requires
        lo <= hi,
    ensures
        lo <= r <= hi,
{
    rand::thread_rng().gen_range(lo..=hi)
}

/// The latency of one simulated exchange, given the base and jitter drawn:
/// the base is `min_ms` when the bounds agree, the jitter zero when there is
/// none.
pub fn latency_from_draws(config: &LatencyConfig, base_draw: u64, jitter_draw: u64) -> (ms: u64)
    requires
        config.max_ms + config.jitter_ms <= u64::MAX,
        config.min_ms <= base_draw <= config.max_ms,
        jitter_draw <= config.jitter_ms,
    ensures
        ms == (if config.min_ms == config.max_ms { config.min_ms } else { base_draw }) + (if config.jitter_ms > 0 {
            jitter_draw
        } else {
            0
        }),
{
    let base = if config.min_ms == config.max_ms {
        config.min_ms
    } else {
        base_draw
    };
    let jitter = if config.jitter_ms > 0 {
        jitter_draw
    } else {
        0
    };
    base + jitter
}

/// Draws the latency of one simulated exchange: between `min_ms` and
/// `max_ms + jitter_ms`.
pub fn simulated_latency_ms(config: &LatencyConfig) -> (ms: u64)
    requires
        config.min_ms <= config.max_ms,
        config.max_ms + config.jitter_ms <= u64::MAX,
    ensures
        config.min_ms <= ms <= config.max_ms + config.jitter_ms,
        config.min_ms == config.max_ms && config.jitter_ms == 0 ==> ms == config.min_ms,
{
    let base_draw = if config.min_ms == config.max_ms {
        config.min_ms
    } else {
        random_between(config.min_ms, config.max_ms)
    };
    let jitter_draw = if config.jitter_ms > 0 {
        random_between(0, config.jitter_ms)
    } else {
        0
    };
    latency_from_draws(config, base_draw, jitter_draw)
}

} // verus!
