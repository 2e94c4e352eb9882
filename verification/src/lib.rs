//! An event relay between two decentralized networks: cursor-tracked polling,
//! a deduplication ledger, a bounded forwarding channel and the bookkeeping of
//! the transport that bridges to the pub/sub backend.

pub mod config;
pub mod consts;
pub mod backoff;
pub mod channel;
pub mod cli;
pub mod cursor;
pub mod direction;
pub mod error;
pub mod event;
pub mod laws;
pub mod logging;
pub mod migrate;
pub mod pipeline;
pub mod sink;
pub mod source;
pub mod supervisor;
pub mod transport;
