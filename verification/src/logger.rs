//! The logger's pure parts.
//!
//! Writing a record out goes through the platform's console; what lives
//! here is what a record's prefix is made of: the uptime split into
//! minutes and seconds, and the one-letter label of each severity.

use vstd::prelude::*;

verus! {

/// The console logger. Wiring it into a logging facade and printing are
/// the platform's business.
#[derive(Default)]
pub struct ProsLogger;

/// A record's severity, most severe first.
#[derive(Clone, Copy, Debug, PartialEq, Eq, Structural)]
pub enum LogLevel {
    Error,
    Warn,
    Info,
    Debug,
    Trace,
}

/// The one-letter label a record is prefixed with.
pub fn level_label(level: LogLevel) -> (r: &'static str)
    ensures
        r@ == (match level {
            LogLevel::Error => "E"@,
            LogLevel::Warn => "W"@,
            LogLevel::Info => "I"@,
            LogLevel::Debug => "D"@,
            LogLevel::Trace => "T"@,
        }),
{
    match level {
        LogLevel::Error => "E",
        LogLevel::Warn => "W",
        LogLevel::Info => "I",
        LogLevel::Debug => "D",
        LogLevel::Trace => "T",
    }
}

/// Split an uptime in milliseconds into whole minutes, the seconds left
/// over past those minutes, and the whole seconds: a prefix shows
/// "m and s" when at least a minute has passed and plain seconds
/// otherwise.
pub fn split_uptime(millis: u32) -> (r: (u32, u32, u32))
    ensures
        r.0 == millis / 1000 / 60,
        r.1 == (millis / 1000) % 60,
        r.2 == millis / 1000,
{
    let seconds = millis / 1000;
    (seconds / 60, seconds % 60, seconds)
}

} // verus!
