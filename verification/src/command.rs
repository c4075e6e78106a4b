//! What a command line asks of a run, taken as plain values, and what
//! follows from it before any package is looked at.

use vstd::prelude::*;

verus! {

/// The levels from which messages are shown, each showing more than the
/// one before it.
#[derive(Clone, Copy, Debug, PartialEq, Eq, Structural)]
pub enum LogLevel {
    Off,
    Error,
    Warn,
    Info,
    Debug,
    Trace,
}

/// The level for this tool's own messages and the level for the messages
/// of everything else.
#[derive(Clone, Copy, Debug, PartialEq, Eq, Structural)]
pub struct LogFilter {
    pub own: LogLevel,
    pub others: LogLevel,
}

/// The filter that the counts of the verbose and quiet flags ask for.
///
/// With less than two of each, everything else is shown from `Error`, and
/// this tool from `Info` without a flag, from `Debug` with one verbose
/// flag, and from `Warn` with one quiet flag alone. With two or more of
/// either, one level holds for all: `Debug` for two verbose flags and
/// `Trace` for more, without a quiet flag; `Error` for two quiet flags
/// without a verbose one; `Off` for every other combination.
pub open spec fn log_filter_of(verbose: u8, quiet: u8) -> LogFilter {
    if verbose < 2 && quiet < 2 {
        LogFilter {
            own: if verbose == 0 && quiet == 0 {
                LogLevel::Info
            } else if verbose == 1 {
                LogLevel::Debug
            } else {
                LogLevel::Warn
            },
            others: LogLevel::Error,
        }
    } else {
        let level = if quiet == 0 {
            if verbose == 2 {
                LogLevel::Debug
            } else {
                LogLevel::Trace
            }
        } else if verbose == 0 && quiet == 2 {
            LogLevel::Error
        } else {
            LogLevel::Off
        };
        LogFilter { own: level, others: level }
    }
}

/// The filter that the counts of the verbose and quiet flags ask for.
pub fn log_filter(verbose: u8, quiet: u8) -> (filter: LogFilter)
    ensures
        filter == log_filter_of(verbose, quiet),
{
    if verbose < 2 && quiet < 2 {
        let own = if verbose == 0 && quiet == 0 {
            LogLevel::Info
        } else if verbose == 1 {
            LogLevel::Debug
        } else {
            LogLevel::Warn
        };
        LogFilter { own, others: LogLevel::Error }
    } else {
        let level = match (verbose, quiet) {
            (2, 0) => LogLevel::Debug,
            (_, 0) => LogLevel::Trace,
            (0, 2) => LogLevel::Error,
            _ => LogLevel::Off,
        };
        LogFilter { own: level, others: level }
    }
}

/// What to do with the configuration that an import has made.
#[derive(Clone, Copy, Debug, PartialEq, Eq, Structural)]
pub enum WritePlan {
    /// A configuration exists and may not be replaced: nothing is written.
    Refuse,
    /// The configuration is written as a new file.
    Create,
    /// The configuration is written over whatever is there; `replaces`
    /// says that a configuration was there, which deserves a warning.
    Overwrite { replaces: bool },
}

/// The plan for writing an imported configuration, given whether one
/// exists already and whether the user forces the import.
pub fn write_plan(exists: bool, force: bool) -> (plan: WritePlan)
    ensures
        plan == (if force {
            WritePlan::Overwrite { replaces: exists }
        } else if exists {
            WritePlan::Refuse
        } else {
            WritePlan::Create
        }),
{
    if force {
        WritePlan::Overwrite { replaces: exists }
    } else if exists {
        WritePlan::Refuse
    } else {
        WritePlan::Create
    }
}

} // verus!
