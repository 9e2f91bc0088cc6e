//! How much the program logs.

use vstd::prelude::*;

verus! {

/// The least severe level of message that is still logged.
#[derive(Clone, Copy, Debug, PartialEq, Eq, Structural)]
pub enum LogLevel {
    Debug,
    Info,
}

/// The level for a run: debug messages too when it is verbose, otherwise
/// informational ones and above.
pub fn log_level(is_verbose: bool) -> (level: LogLevel)
    ensures
        is_verbose ==> level == LogLevel::Debug,
        !is_verbose ==> level == LogLevel::Info,
{
    if is_verbose {
        LogLevel::Debug
    } else {
        LogLevel::Info
    }
}

} // verus!
