use vstd::prelude::*;

use crate::types::Term;

verus! {

/// Lower end of the election timeout range, in milliseconds.
pub const ELECTION_TIMEOUT_MIN_MS: u64 = 150;

/// Upper end (exclusive) of the election timeout range, in milliseconds.
pub const ELECTION_TIMEOUT_MAX_MS: u64 = 300;

/// Per-node tunables, fixed at construction. Durations are in milliseconds.
#[derive(Clone, Copy, Debug, PartialEq, Eq, Structural)]
pub struct RaftConfig {
    /// The election timer is armed with a duration drawn from
    /// `election_timeout_min_ms..election_timeout_max_ms`.
    pub election_timeout_min_ms: u64,
    pub election_timeout_max_ms: u64,
    /// Fixed period of a leader's heartbeat.
    pub heartbeat_period_ms: u64,
    pub max_term: Term,
}

impl Default for RaftConfig {
    /// Election timeout in 150..300 ms, heartbeat at half the minimum timeout, no term bound.
    fn default() -> (r: RaftConfig)
        ensures
            r.election_timeout_min_ms == ELECTION_TIMEOUT_MIN_MS,
            r.election_timeout_max_ms == ELECTION_TIMEOUT_MAX_MS,
            r.heartbeat_period_ms == ELECTION_TIMEOUT_MIN_MS / 2,
            r.max_term == u64::MAX,
    {
        RaftConfig {
            election_timeout_min_ms: ELECTION_TIMEOUT_MIN_MS,
            election_timeout_max_ms: ELECTION_TIMEOUT_MAX_MS,
            heartbeat_period_ms: ELECTION_TIMEOUT_MIN_MS / 2,
            max_term: u64::MAX,
        }
    }
}

} // verus!
