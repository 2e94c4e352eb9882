//! Constants that the whole application shares.

use vstd::prelude::*;

verus! {

/// Format string for the timestamp in log file names.
pub const LOG_TIME_FORMAT: &'static str = "%Y-%m-%d_%H-%M-%S";

/// Directory for log files.
pub const LOG_PATH: &'static str = "logs";

/// Base name for log files.
pub const LOG_BASE_NAME: &'static str = "app";

/// Environment variable that overrides the default logging level.
pub const LOG_KEY_ENV: &'static str = "RUST_LOG";

/// Logging level where the environment sets none.
pub const LOG_DEFAULT_LEVEL: &'static str = "info";

/// Version of the command-line interface.
pub const CLI_VERSION: &'static str = "1.0";

/// How many events the channel of a pipeline holds.
pub const CHANNEL_CAPACITY: usize = 100;

/// The most events to ask for in one fetch.
pub const FETCH_LIMIT: usize = 100;

/// How long a fetch may take, in seconds.
pub const FETCH_TIMEOUT_SECS: u64 = 10;

/// The pause between two cycles of a pipeline, in seconds.
pub const POLL_INTERVAL_SECS: u64 = 10;

/// The pause after a failed fetch or a failed ledger write, in seconds.
pub const FETCH_BACKOFF_SECS: u64 = 10;

/// How often one event is offered to the sink before it is given up.
pub const MAX_FORWARD_ATTEMPTS: u32 = 4;

/// The shortest pause between two attempts, in seconds.
pub const RETRY_BASE_SECS: u64 = 1;

/// The longest pause between two attempts, in seconds.
pub const RETRY_CEILING_SECS: u64 = 60;

/// How often connecting to the pub/sub backend is tried at startup.
pub const STARTUP_CONNECT_ATTEMPTS: u32 = 5;

} // verus!
