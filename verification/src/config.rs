//! Run configuration.
//!
//! A run probes a non-empty list of hosts, sending a bounded number of
//! probes per host at a fixed cadence. The host list is required; the probe
//! count and the inter-probe interval have defaults, and the interval is
//! clamped to a minimum before any scheduling begins.
use crate::duration::PingDuration;
use vstd::prelude::*;

verus! {

/// Probes sent per host when no count is given.
pub const DEFAULT_PACKET_COUNT: u16 = 5;

/// Inter-probe interval when no delay is given: one second.
pub const DEFAULT_INTERVAL_MICROS: u64 = 1_000_000;

/// Smallest allowed inter-probe interval: a tenth of a second. A smaller
/// delay argument is raised to this before scheduling begins.
pub const MIN_INTERVAL_MICROS: u64 = 100_000;

/// How many seconds one probe may stay outstanding before it settles as
/// lost. Fixed, independent of the cadence interval.
pub const PROBE_TIMEOUT_SECS: u64 = 5;

/// A usage error that aborts the run before any probing.
#[derive(Clone, Copy, Debug, PartialEq, Eq, Structural)]
pub enum ConfigError {
    /// No hosts were supplied.
    NoHosts,
}

impl ConfigError {
    /// The diagnostic line for this error.
    pub fn message(&self) -> (s: String)
        ensures
            s@ == "No hosts specified."@,
    {
        String::from_str("No hosts specified.")
    }
}

/// The interval actually used: the given delay, or the default when absent,
/// raised to the minimum clamp.
pub open spec fn spec_clamped_interval(delay: Option<PingDuration>) -> int {
    let d = match delay {
        Some(p) => p.micros as int,
        None => DEFAULT_INTERVAL_MICROS as int,
    };
    if d < MIN_INTERVAL_MICROS {
        MIN_INTERVAL_MICROS as int
    } else {
        d
    }
}

/// The validated configuration of one run.
#[derive(Clone, Debug)]
pub struct PingConfig {
    /// The hosts to probe, as given.
    pub hosts: Vec<String>,
    /// How many probes each host receives.
    pub packet_count: u16,
    /// The fixed interval between successive probes to one host.
    pub interval: PingDuration,
}

impl PingConfig {
    /// Builds the configuration from the raw arguments: the hosts are
    /// required, the count defaults, and the delay defaults and is clamped
    /// to the minimum interval.
    pub fn from_args(hosts: Option<Vec<String>>, count: Option<u16>, delay: Option<PingDuration>)
        -> (r: Result<PingConfig, ConfigError>)
        ensures
            r is Err <==> hosts is None,
            r matches Err(e) ==> e == ConfigError::NoHosts,
            r matches Ok(c) ==> {
                &&& hosts matches Some(h) && c.hosts == h
                &&& c.packet_count == match count {
                    Some(n) => n,
                    None => DEFAULT_PACKET_COUNT,
                }
                &&& c.interval.micros == spec_clamped_interval(delay)
            },
    {
        match hosts {
            None => Err(ConfigError::NoHosts),
            Some(h) => {
                let packet_count = match count {
                    Some(n) => n,
                    None => DEFAULT_PACKET_COUNT,
                };
                let given = match delay {
                    Some(p) => p.micros,
                    None => DEFAULT_INTERVAL_MICROS,
                };
                let micros = if given < MIN_INTERVAL_MICROS {
                    MIN_INTERVAL_MICROS
                } else {
                    given
                };
                Ok(PingConfig { hosts: h, packet_count, interval: PingDuration { micros } })
            },
        }
    }
}

} // verus!
