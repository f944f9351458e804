//! The logging context, reduced to an explicit value.
//!
//! The host wires the actual sink (a console appender) at startup; the
//! library models the process-wide logging state it controls: which maximum
//! level is enabled, with a narrow administrative entry point to change it
//! at run time.

use vstd::prelude::*;

verus! {

/// A maximum log level, most severe first.
#[derive(Clone, Copy, Debug, PartialEq, Eq, Structural)]
pub enum LogLevel {
    Error,
    Warn,
    Info,
    Debug,
    Trace,
}

/// The explicitly initialized logging context.
#[derive(Clone, Copy, Debug, PartialEq, Eq, Structural)]
pub struct LoggerConfig {
    /// The maximum level currently enabled.
    pub level: LogLevel,
}

/// The level table the runtime control indexes into: 0 is `Error`, 4 is
/// `Trace`.
pub open spec fn level_of_index(i: int) -> LogLevel {
    if i == 0 {
        LogLevel::Error
    } else if i == 1 {
        LogLevel::Warn
    } else if i == 2 {
        LogLevel::Info
    } else if i == 3 {
        LogLevel::Debug
    } else {
        LogLevel::Trace
    }
}

/// Initialize the logging context.  A fresh dispatch applies no filter, so
/// every level up to `Trace` is enabled.
pub fn setup_logger() -> (r: LoggerConfig)
    ensures
        r.level == LogLevel::Trace,
{
    LoggerConfig { level: LogLevel::Trace }
}

/// The debug-only runtime log-level control: set the maximum enabled level
/// by its index in the level table, 0 (`Error`) through 4 (`Trace`).  The
/// table has five entries; an index past it is the caller's fault.
pub fn set_log_level(config: &mut LoggerConfig, level: usize)
    requires
        level < 5,
    ensures
        final(config).level == level_of_index(level as int),
{
    let new_level = if level == 0 {
        LogLevel::Error
    } else if level == 1 {
        LogLevel::Warn
    } else if level == 2 {
        LogLevel::Info
    } else if level == 3 {
        LogLevel::Debug
    } else {
        LogLevel::Trace
    };
    config.level = new_level;
}

} // verus!
