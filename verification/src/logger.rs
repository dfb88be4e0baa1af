//! Log entries shown in the console window.
use vstd::prelude::*;
use crate::wide::{fmt_timestamp, push_str_units, utf16_encode, decimal2, clock_of};

verus! {

#[derive(Clone, Copy, Debug, PartialEq, Eq, Structural)]
pub enum LogLevel {
    Error,
    Warning,
    Info,
    Trace,
}

#[derive(Clone, Debug)]
pub struct LogEntry {
    /// Seconds since the Unix epoch.
    pub timestamp: u64,
    pub level: LogLevel,
    pub message: String,
}

pub open spec fn level_tag(level: LogLevel) -> Seq<char> {
    match level {
        LogLevel::Error => " [ERROR] "@,
        LogLevel::Warning => " [WARN] "@,
        LogLevel::Info => " [INFO] "@,
        LogLevel::Trace => " [TRACE] "@,
    }
}

/// The text of the time stamp "[HH:MM:SS]" of a log entry.
pub open spec fn stamp_units(ts: u64) -> Seq<u16> {
    let (h, m, s) = clock_of(ts);
    utf16_encode("["@) + decimal2(h) + utf16_encode(":"@) + decimal2(m) + utf16_encode(":"@)
        + decimal2(s) + utf16_encode("]"@)
}

/// "[HH:MM:SS] [LEVEL] message" for one console line, null-terminated.
pub fn format_log_entry(entry: &LogEntry) -> (r: Vec<u16>)
    ensures
        r@ == (stamp_units(entry.timestamp) + utf16_encode(level_tag(entry.level))
            + utf16_encode(entry.message@)).push(0u16),
{
    let mut out = fmt_timestamp(entry.timestamp);
    out.pop();
    let tag = match entry.level {
        LogLevel::Error => " [ERROR] ",
        LogLevel::Warning => " [WARN] ",
        LogLevel::Info => " [INFO] ",
        LogLevel::Trace => " [TRACE] ",
    };
    push_str_units(&mut out, tag);
    push_str_units(&mut out, entry.message.as_str());
    out.push(0);
    out
}

} // verus!
