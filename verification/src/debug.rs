//! Messages of the validation layers.

use crate::vk::{SEVERITY_ERROR, SEVERITY_INFO, SEVERITY_VERBOSE, SEVERITY_WARNING};
use vstd::prelude::*;

verus! {

/// How important a message is.
#[derive(Clone, Copy, PartialEq, Eq, Structural, Debug)]
pub enum LogLevel {
    Debug,
    Info,
    Warn,
    Error,
}

/// How important a message with a severity is; one of several severities is a warning.
pub fn level_of(severity: u32) -> (level: LogLevel)
    ensures
        level == (if severity == SEVERITY_VERBOSE {
            LogLevel::Debug
        } else if severity == SEVERITY_INFO {
            LogLevel::Info
        } else if severity == SEVERITY_ERROR {
            LogLevel::Error
        } else {
            LogLevel::Warn
        }),
{
    match severity {
        SEVERITY_VERBOSE => LogLevel::Debug,
        SEVERITY_INFO => LogLevel::Info,
        SEVERITY_WARNING => LogLevel::Warn,
        SEVERITY_ERROR => LogLevel::Error,
        _ => LogLevel::Warn,
    }
}

/// The severities that messages are asked for with.
pub fn message_severities() -> (severities: u32)
    ensures
        severities == SEVERITY_VERBOSE | SEVERITY_WARNING | SEVERITY_ERROR,
{
    SEVERITY_VERBOSE | SEVERITY_WARNING | SEVERITY_ERROR
}

} // verus!
