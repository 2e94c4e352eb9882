//! The configuration of the application, as the loader hands it over.

use vstd::prelude::*;

verus! {

/// Where the application would listen. The relay itself does not use it.
#[derive(Clone, Debug)]
pub struct ServerConfig {
    pub host: String,
    pub port: String,
}

/// How to reach the database that keeps the watermarks and the ledger.
#[derive(Clone, Debug)]
pub struct DatabaseConfig {
    pub db_url: String,
    pub max_connect_pool: u32,
    pub min_connect_pool: u32,
    /// In seconds.
    pub connect_timeout: u64,
    /// In seconds.
    pub acquire_timeout: u64,
}

/// Where the indexing backend takes invitations.
#[derive(Clone, Debug)]
pub struct IndexdbBackendConfig {
    pub invite_url: String,
}

/// How to reach the pub/sub network.
#[derive(Clone, Debug)]
pub struct WakuConfig {
    pub node_url: String,
    pub send_api: String,
    pub pubsub_topic: String,
    pub content_topic: String,
    pub node_addr: String,
    pub cluster_id: String,
    pub shared: String,
    pub waku_bin: String,
}

/// How to reach the polled network.
#[derive(Clone, Debug)]
pub struct NostrConfig {
    pub priv_key: String,
    pub ws_url: String,
}

/// The whole configuration.
#[derive(Clone, Debug)]
pub struct Config {
    pub server: ServerConfig,
    pub database: DatabaseConfig,
    pub indexdb_backend: IndexdbBackendConfig,
    pub waku: WakuConfig,
    pub nostr: NostrConfig,
}

} // verus!
