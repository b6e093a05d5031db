//! The fixed configuration of the service.

use crate::poller::{labels, vote_variants, STATS_UPDATE_INTERVAL};
use crate::session::{CLIENT_TIMEOUT, HEARTBEAT_INTERVAL};
use vstd::prelude::*;

verus! {

/// What the service is started with. All times are in milliseconds.
#[derive(Clone, Debug, PartialEq, Eq)]
pub struct Config {
    /// Time between two ticks of the poller.
    pub poll_interval: u64,
    /// Time between two liveness probes on a connection.
    pub probe_interval: u64,
    /// How long a viewer may stay silent before its connection is closed.
    pub probe_timeout: u64,
    /// The labels of the categories that are tallied, in snapshot order.
    pub categories: Vec<String>,
}

impl Default for Config {
    /// The reference configuration: a snapshot every second, a probe every
    /// five seconds, a timeout of two probe intervals, and the categories
    /// `a` and `b`.
    fn default() -> (config: Config)
        ensures
            config.poll_interval == STATS_UPDATE_INTERVAL,
            config.probe_interval == HEARTBEAT_INTERVAL,
            config.probe_timeout == CLIENT_TIMEOUT,
            labels(config.categories@) == seq!["a"@, "b"@],
    {
        Config {
            poll_interval: STATS_UPDATE_INTERVAL,
            probe_interval: HEARTBEAT_INTERVAL,
            probe_timeout: CLIENT_TIMEOUT,
            categories: vote_variants(),
        }
    }
}

} // verus!
