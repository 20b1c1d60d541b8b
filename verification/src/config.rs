//! Configuration constants of a guardian node.

use vstd::prelude::*;

verus! {

/// Timeout of measurement registry requests, in seconds.
pub const MEASUREMENT_REGISTRY_TIMEOUT_SECS: u64 = 30;
/// Interval between scans for revoked measurements, in seconds.
pub const MEASUREMENT_REVOCATION_SCAN_INTERVAL_SECS: u64 = 300;
/// Port of the guardian API.
pub const GUARDIAN_API_PORT: u16 = 8443;
/// Largest request body the guardian API accepts, in bytes.
pub const GUARDIAN_API_MAX_REQUEST_SIZE: usize = 1048576;
/// Request timeout of the guardian API, in seconds.
pub const GUARDIAN_API_REQUEST_TIMEOUT_SECS: u64 = 30;
/// Port of the consensus (Raft) API.
pub const CONSENSUS_API_PORT: u16 = 8444;
/// Number of log lines pushed in one batch.
pub const LOG_PUSH_BATCH_SIZE: usize = 50;
/// Interval between log pushes, in seconds.
pub const LOG_PUSH_INTERVAL_SECS: u64 = 5;
/// Interval between metric collections, in seconds.
pub const METRICS_COLLECTION_INTERVAL_SECS: u64 = 15;
/// Whether histograms are collected.
pub const METRICS_ENABLE_HISTOGRAMS: bool = true;
/// Size at which the log file is rotated, in megabytes.
pub const MAX_LOG_FILE_SIZE_MB: u64 = 12;
/// Interval between gossip pulls, in seconds.
pub const GOSSIP_PULL_INTERVAL_SECS: u64 = 300;
/// Largest number of peers in one gossip message.
pub const GOSSIP_MAX_PEERS_PER_MESSAGE: usize = 50;
/// Oldest advertisement that gossip accepts, in hours.
pub const GOSSIP_MAX_ADVERTISEMENT_AGE_HOURS: u64 = 24;
/// Interval between writes of the peer cache, in seconds.
pub const PEER_CACHE_PERSIST_INTERVAL_SECS: u64 = 3600;
/// Port of the observability API.
pub const OBSERVABILITY_API_PORT: u16 = 8445;
/// Worker threads of the observability API.
pub const OBSERVABILITY_API_WORKERS: usize = 2;
/// Request timeout of the observability API, in seconds.
pub const OBSERVABILITY_API_TIMEOUT_SECS: u64 = 5;

} // verus!
