use vstd::prelude::*;
use crate::time::{now_utc_millis, local_seconds_of_day, format_clock, clock_text};

verus! {

/// Log level for structured logging.
#[derive(Debug, Clone, Copy, PartialEq, Eq, Structural)]
pub enum LogLevel {
    Info,
    Success,
    Warning,
    Error,
}

/// An RGB color, for the caller's display layer to interpret.
#[derive(Debug, Clone, Copy, PartialEq, Eq, Structural)]
pub struct Rgb {
    pub red: u8,
    pub green: u8,
    pub blue: u8,
}

/// The color of each log level.
pub open spec fn level_color(level: LogLevel) -> Rgb {
    match level {
        LogLevel::Info => Rgb { red: 200, green: 200, blue: 200 },
        LogLevel::Success => Rgb { red: 76, green: 175, blue: 80 },
        LogLevel::Warning => Rgb { red: 255, green: 152, blue: 0 },
        LogLevel::Error => Rgb { red: 244, green: 67, blue: 54 },
    }
}

/// The icon of each log level.
pub open spec fn level_icon(level: LogLevel) -> Seq<char> {
    match level {
        LogLevel::Info => "\u{2139}"@,
        LogLevel::Success => "\u{2713}"@,
        LogLevel::Warning => "\u{26A0}"@,
        LogLevel::Error => "\u{2717}"@,
    }
}

/// The prefix of each log level.
pub open spec fn level_prefix(level: LogLevel) -> Seq<char> {
    match level {
        LogLevel::Info => "INFO"@,
        LogLevel::Success => "SUCCESS"@,
        LogLevel::Warning => "WARNING"@,
        LogLevel::Error => "ERROR"@,
    }
}

impl LogLevel {
    /// Returns the color for this log level.
    pub fn color(&self) -> (r: Rgb)
        ensures
            r == level_color(*self),
    {
        match self {
            LogLevel::Info => Rgb { red: 200, green: 200, blue: 200 },
            LogLevel::Success => Rgb { red: 76, green: 175, blue: 80 },
            LogLevel::Warning => Rgb { red: 255, green: 152, blue: 0 },
            LogLevel::Error => Rgb { red: 244, green: 67, blue: 54 },
        }
    }

    /// Returns the icon/symbol for this log level.
    pub fn icon(&self) -> (r: &'static str)
        ensures
            r@ == level_icon(*self),
    {
        match self {
            LogLevel::Info => "\u{2139}",
            LogLevel::Success => "\u{2713}",
            LogLevel::Warning => "\u{26A0}",
            LogLevel::Error => "\u{2717}",
        }
    }

    /// Returns the prefix for this log level.
    pub fn prefix(&self) -> (r: &'static str)
        ensures
            r@ == level_prefix(*self),
    {
        match self {
            LogLevel::Info => "INFO",
            LogLevel::Success => "SUCCESS",
            LogLevel::Warning => "WARNING",
            LogLevel::Error => "ERROR",
        }
    }
}

/// A structured log entry with timestamp, level and message.
#[derive(Debug)]
pub struct LogEntry {
    pub timestamp: i64,
    pub level: LogLevel,
    pub message: String,
}

impl Clone for LogEntry {
    fn clone(&self) -> (r: Self)
        ensures
            r == *self,
    {
        LogEntry { timestamp: self.timestamp, level: self.level, message: self.message.clone() }
    }
}

impl LogEntry {
    /// A fresh entry stamped with the current clock reading.
    pub fn new(level: LogLevel, message: String) -> (r: Self)
        ensures
            r.level == level,
            r.message == message,
    {
        LogEntry { timestamp: now_utc_millis(), level, message }
    }

    pub fn info(message: String) -> (r: Self)
        ensures
            r.level == LogLevel::Info,
            r.message == message,
    {
        LogEntry::new(LogLevel::Info, message)
    }

    pub fn success(message: String) -> (r: Self)
        ensures
            r.level == LogLevel::Success,
            r.message == message,
    {
        LogEntry::new(LogLevel::Success, message)
    }

    pub fn warning(message: String) -> (r: Self)
        ensures
            r.level == LogLevel::Warning,
            r.message == message,
    {
        LogEntry::new(LogLevel::Warning, message)
    }

    pub fn error(message: String) -> (r: Self)
        ensures
            r.level == LogLevel::Error,
            r.message == message,
    {
        LogEntry::new(LogLevel::Error, message)
    }

    /// Formats the entry's local time of day as HH:MM:SS; midnight stands
    /// in when the timestamp is outside the calendar's range.
    pub fn time_str(&self) -> (r: String)
        ensures
            exists|secs: nat| secs < 86400 && r@ == clock_text(secs),
    {
        let secs: u32 = match local_seconds_of_day(self.timestamp) {
            Some(s) => s,
            None => 0,
        };
        let r = format_clock(secs);
        proof {
            assert(secs < 86400 && r@ == clock_text(secs as nat));
        }
        r
    }
}

/// Logger that keeps the most recent entries, up to a fixed capacity.
pub struct StructuredLogger {
    entries: Vec<LogEntry>,
    max_entries: usize,
}

impl StructuredLogger {
    /// The retained entries, oldest first.
    pub closed spec fn entries_spec(&self) -> Seq<LogEntry> {
        self.entries@
    }

    /// How many entries are retained before the oldest is dropped.
    pub closed spec fn capacity_spec(&self) -> nat {
        self.max_entries as nat
    }

    /// A logger with the default capacity of 1000 entries.
    pub fn new() -> (r: Self)
        ensures
            r.entries_spec() == Seq::<LogEntry>::empty(),
            r.capacity_spec() == 1000,
    {
        StructuredLogger::with_capacity(1000)
    }

    /// A logger with the given capacity.
    pub fn with_capacity(max_entries: usize) -> (r: Self)
        ensures
            r.entries_spec() == Seq::<LogEntry>::empty(),
            r.capacity_spec() == max_entries,
    {
        StructuredLogger { entries: Vec::new(), max_entries }
    }

    /// Appends an entry, dropping the oldest once the capacity is passed.
    pub fn log(&mut self, entry: LogEntry)
        ensures
            final(self).capacity_spec() == old(self).capacity_spec(),
            final(self).entries_spec() == if old(self).entries_spec().len() + 1 > old(
                self,
            ).capacity_spec() {
                old(self).entries_spec().push(entry).skip(1)
            } else {
                old(self).entries_spec().push(entry)
            },
    {
        self.entries.push(entry);
        if self.entries.len() > self.max_entries {
            self.entries.remove(0);
            proof {
                assert(self.entries@ =~= old(self).entries@.push(entry).skip(1));
            }
        }
    }

    /// Appends an info entry.
    pub fn info(&mut self, message: String)
        ensures
            logged(*old(self), *final(self), LogLevel::Info, message),
    {
        self.log(LogEntry::info(message));
    }

    /// Appends a success entry.
    pub fn success(&mut self, message: String)
        ensures
            logged(*old(self), *final(self), LogLevel::Success, message),
    {
        self.log(LogEntry::success(message));
    }

    /// Appends a warning entry.
    pub fn warning(&mut self, message: String)
        ensures
            logged(*old(self), *final(self), LogLevel::Warning, message),
    {
        self.log(LogEntry::warning(message));
    }

    /// Appends an error entry.
    pub fn error(&mut self, message: String)
        ensures
            logged(*old(self), *final(self), LogLevel::Error, message),
    {
        self.log(LogEntry::error(message));
    }

    /// All retained entries, oldest first.
    pub fn entries(&self) -> (r: &[LogEntry])
        ensures
            r@ == self.entries_spec(),
    {
        self.entries.as_slice()
    }

    /// Drops every entry.
    pub fn clear(&mut self)
        ensures
            final(self).entries_spec() == Seq::<LogEntry>::empty(),
            final(self).capacity_spec() == old(self).capacity_spec(),
    {
        self.entries.clear();
    }
}

/// How one appended entry of the given level and message relates the
/// logger's states: the entry stands last, and the older entries keep
/// their order, the oldest dropped once the capacity is passed.
pub open spec fn logged(
    before: StructuredLogger,
    after: StructuredLogger,
    level: LogLevel,
    message: String,
) -> bool {
    &&& after.capacity_spec() == before.capacity_spec()
    &&& exists|e: LogEntry|
        e.level == level && e.message == message && after.entries_spec() == (
        if before.entries_spec().len() + 1 > before.capacity_spec() {
            before.entries_spec().push(e).skip(1)
        } else {
            before.entries_spec().push(e)
        })
}

impl Default for StructuredLogger {
    /// The default logger has the default capacity.
    fn default() -> (r: Self)
        ensures
            r.entries_spec() == Seq::<LogEntry>::empty(),
            r.capacity_spec() == 1000,
    {
        StructuredLogger::new()
    }
}

} // verus!
