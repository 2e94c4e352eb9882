//! What the logging setup works out before it opens a file.

use vstd::prelude::*;
use crate::consts::{LOG_BASE_NAME, LOG_DEFAULT_LEVEL};

verus! {

/// The name of the log file that is started at the time that `stamp` spells
/// out.
pub open spec fn spec_log_file_name(stamp: Seq<char>) -> Seq<char> {
    stamp + "_"@ + LOG_BASE_NAME@ + ".log"@
}

/// The name of the log file that is started at the time that `stamp` spells
/// out: the stamp, an underscore, the base name, and `.log`.
pub fn log_file_name(stamp: &str) -> (r: String)
    ensures
        r@ == spec_log_file_name(stamp@),
{
    let mut name = stamp.to_owned();
    name.append("_");
    name.append(LOG_BASE_NAME);
    name.append(".log");
    name
}

/// The logging level: what the environment asks for, or else the default.
pub fn log_level(from_env: Option<String>) -> (r: String)
    ensures
        r@ == match from_env {
            Some(level) => level@,
            None => LOG_DEFAULT_LEVEL@,
        },
{
    match from_env {
        Some(level) => level,
        None => LOG_DEFAULT_LEVEL.to_owned(),
    }
}

} // verus!
