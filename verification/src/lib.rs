//! TEE guardian: attestation bookkeeping, quote parsing and cluster-formation
//! decisions, with their contracts proved by Verus.

pub mod hex;
pub mod bytes;
pub mod identity;
pub mod text;
pub mod node;
pub mod clock;
pub mod errors;
pub mod api;
pub mod crypto;
pub mod json;
pub mod measurement;
pub mod tee;
pub mod tdx;
pub mod snp;
pub mod evidence;
pub mod registry;
pub mod protocol;
pub mod registry_client;
pub mod btree_keys;
pub mod trusted_peers;
pub mod network;
pub mod config;
pub mod gossip;
pub mod membership;
pub mod coordinator;
pub mod log_store;
pub mod cluster;
pub mod certificates;
pub mod x509;
pub mod quote_certs;
pub mod assoc;
pub mod logging;
pub mod records;
pub mod raft_network;
pub mod report;
pub mod snp_report;
