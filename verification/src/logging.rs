//! The logging policy: severity levels and the filter that decides
//! which messages a logger emits. Writing the selected messages to the
//! console or a file is the surrounding application's step.

use vstd::prelude::*;

verus! {

#[derive(Debug, Clone, Copy, PartialEq, Eq, Structural)]
pub enum LogLevel {
    Debug,
    Info,
    Warning,
    Error,
}

/// A message at `level` passes a logger whose threshold is `min`:
/// everything at or above the threshold, in the order Debug < Info <
/// Warning < Error.
pub open spec fn level_passes(min: LogLevel, level: LogLevel) -> bool {
    match (min, level) {
        (LogLevel::Debug, _) => true,
        (LogLevel::Info, LogLevel::Debug) => false,
        (LogLevel::Info, _) => true,
        (LogLevel::Warning, LogLevel::Debug) => false,
        (LogLevel::Warning, LogLevel::Info) => false,
        (LogLevel::Warning, _) => true,
        (LogLevel::Error, LogLevel::Error) => true,
        (LogLevel::Error, _) => false,
    }
}

/// A logger's configuration: where its file output goes, whether it
/// echoes to the console, and the least severity it emits.
#[derive(Debug)]
pub struct Logger {
    log_file_path: String,
    console_output: bool,
    min_level: LogLevel,
}

impl Logger {
    /// The configured file path (a contract-level accessor).
    pub closed spec fn spec_file_path(&self) -> Seq<char> {
        self.log_file_path@
    }

    /// Whether console echo is on (a contract-level accessor).
    pub closed spec fn spec_console_output(&self) -> bool {
        self.console_output
    }

    /// The severity threshold (a contract-level accessor).
    pub closed spec fn spec_min_level(&self) -> LogLevel {
        self.min_level
    }

    pub fn new(log_file_path: &str, console_output: bool, min_level: LogLevel) -> (r: Self)
        ensures
            r.spec_file_path() == log_file_path@,
            r.spec_console_output() == console_output,
            r.spec_min_level() == min_level,
    {
        Logger { log_file_path: log_file_path.to_owned(), console_output, min_level }
    }

    /// Whether a message at `level` should be emitted, as
    /// [`level_passes`] describes.
    pub fn should_log(&self, level: LogLevel) -> (b: bool)
        ensures
            b == level_passes(self.spec_min_level(), level),
    {
        match (self.min_level, level) {
            (LogLevel::Debug, _) => true,
            (LogLevel::Info, LogLevel::Debug) => false,
            (LogLevel::Info, _) => true,
            (LogLevel::Warning, LogLevel::Debug) => false,
            (LogLevel::Warning, LogLevel::Info) => false,
            (LogLevel::Warning, _) => true,
            (LogLevel::Error, LogLevel::Error) => true,
            (LogLevel::Error, _) => false,
        }
    }

    /// The configured file path, for the caller that performs the
    /// writes.
    pub fn file_path(&self) -> (r: &str)
        ensures
            r@ == self.spec_file_path(),
    {
        self.log_file_path.as_str()
    }

    /// Whether console echo is on.
    pub fn console_output(&self) -> (b: bool)
        ensures
            b == self.spec_console_output(),
    {
        self.console_output
    }
}

} // verus!
