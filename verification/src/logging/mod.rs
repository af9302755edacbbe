use crate::text::{entry_value, insert_entry, keys_distinct, lookup_entry};
use std::time::{Duration, Instant};
use vstd::prelude::*;

verus! {

/// The environment the program runs in.
#[derive(Debug, Clone, Copy, PartialEq, Eq, Structural)]
pub enum LoggingEnvironment {
    /// Development.
    Development,
    /// Testing.
    Testing,
    /// Production.
    Production,
}

/// How log lines are written.
#[derive(Debug, Clone, Copy, PartialEq, Eq, Structural)]
pub enum LogFormat {
    /// For people.
    Pretty,
    /// JSON.
    Json,
    /// Compact.
    Compact,
}

/// The most verbose level that is logged.
#[derive(Debug, Clone, Copy, PartialEq, Eq, Structural)]
pub enum LogLevel {
    /// Trace.
    Trace,
    /// Debug.
    Debug,
    /// Info.
    Info,
    /// Warn.
    Warn,
    /// Error.
    Error,
}

/// Logging settings.
pub struct LoggingConfig {
    /// The environment.
    pub environment: LoggingEnvironment,
    /// The level.
    pub level: LogLevel,
    /// The format.
    pub format: LogFormat,
    /// File to log to, if any.
    pub file_output: Option<String>,
    /// Whether to show the target module.
    pub show_target: bool,
    /// Whether to show thread identifiers.
    pub show_thread_ids: bool,
    /// Whether to show time stamps.
    pub show_timestamp: bool,
}

impl Default for LoggingConfig {
    /// Development, info level, pretty, targets and time stamps shown.
    fn default() -> (r: Self)
        ensures
            r.environment == LoggingEnvironment::Development,
            r.level == LogLevel::Info,
            r.format == LogFormat::Pretty,
            r.file_output is None,
            r.show_target,
            !r.show_thread_ids,
            r.show_timestamp,
    {
        LoggingConfig {
            environment: LoggingEnvironment::Development,
            level: LogLevel::Info,
            format: LogFormat::Pretty,
            file_output: None,
            show_target: true,
            show_thread_ids: false,
            show_timestamp: true,
        }
    }
}

impl LoggingConfig {
    /// Development: debug level, pretty, everything shown.
    pub fn development() -> (r: Self)
        ensures
            r.environment == LoggingEnvironment::Development,
            r.level == LogLevel::Debug,
            r.format == LogFormat::Pretty,
            r.file_output is None,
            r.show_target,
            r.show_thread_ids,
            r.show_timestamp,
    {
        LoggingConfig {
            environment: LoggingEnvironment::Development,
            level: LogLevel::Debug,
            format: LogFormat::Pretty,
            file_output: None,
            show_target: true,
            show_thread_ids: true,
            show_timestamp: true,
        }
    }

    /// Production: info level, JSON, only time stamps shown.
    pub fn production() -> (r: Self)
        ensures
            r.environment == LoggingEnvironment::Production,
            r.level == LogLevel::Info,
            r.format == LogFormat::Json,
            r.file_output is None,
            !r.show_target,
            !r.show_thread_ids,
            r.show_timestamp,
    {
        LoggingConfig {
            environment: LoggingEnvironment::Production,
            level: LogLevel::Info,
            format: LogFormat::Json,
            file_output: None,
            show_target: false,
            show_thread_ids: false,
            show_timestamp: true,
        }
    }

    /// Testing: error level, compact, nothing extra shown.
    pub fn testing() -> (r: Self)
        ensures
            r.environment == LoggingEnvironment::Testing,
            r.level == LogLevel::Error,
            r.format == LogFormat::Compact,
            r.file_output is None,
            !r.show_target,
            !r.show_thread_ids,
            !r.show_timestamp,
    {
        LoggingConfig {
            environment: LoggingEnvironment::Testing,
            level: LogLevel::Error,
            format: LogFormat::Compact,
            file_output: None,
            show_target: false,
            show_thread_ids: false,
            show_timestamp: false,
        }
    }

    /// Whether output is colored: everywhere but in production.
    pub fn uses_ansi(&self) -> (r: bool)
        ensures
            r == (self.environment != LoggingEnvironment::Production),
    {
        self.environment != LoggingEnvironment::Production
    }
}

/// A point in time of the monotonic clock.
#[verifier::external_type_specification]
#[verifier::external_body]
pub struct ExInstant(Instant);

/// The current instant (`Instant::now`).
#[verifier::external_body]
fn instant_now() -> Instant {
    Instant::now()
}

/// Time since `start` (`Instant::elapsed`).
#[verifier::external_body]
fn instant_elapsed(start: &Instant) -> Duration {
    start.elapsed()
}

/// What a timer measured when it finished.
pub struct TimerReport {
    /// The operation timed.
    pub operation: String,
    /// How long it took.
    pub duration: Duration,
    /// Its metadata, each key once, in the order first given.
    pub metadata: Vec<(String, String)>,
}

/// Times an operation and carries metadata about it.
pub struct OperationTimer {
    start: Instant,
    operation: String,
    metadata: Vec<(String, String)>,
}

impl OperationTimer {
    /// The operation timed.
    pub closed spec fn spec_operation(&self) -> Seq<char> {
        self.operation@
    }

    /// The value recorded for `key`, if any.
    pub closed spec fn spec_metadata(&self, key: Seq<char>) -> Option<Seq<char>> {
        entry_value(self.metadata@, key)
    }

    /// The timer's invariant: each metadata key once.
    pub closed spec fn wf(&self) -> bool {
        keys_distinct(self.metadata@)
    }

    /// A timer for `operation`, started now, without metadata.
    pub fn new(operation: &str) -> (r: Self)
        ensures
            r.wf(),
            r.spec_operation() == operation@,
            forall|k: Seq<char>| r.spec_metadata(k) is None,
    {
        OperationTimer { start: instant_now(), operation: String::from_str(operation), metadata: Vec::new() }
    }

    /// The timer with `value` recorded for `key`, replacing an earlier value.
    pub fn with_metadata(self, key: &str, value: &str) -> (r: Self)
        requires
            self.wf(),
        ensures
            r.wf(),
            r.spec_operation() == self.spec_operation(),
            r.spec_metadata(key@) == Some(value@),
            forall|k: Seq<char>| k != key@ ==> r.spec_metadata(k) == self.spec_metadata(k),
    {
        let mut timer = self;
        insert_entry(&mut timer.metadata, key, value);
        timer
    }

    /// The operation timed.
    pub fn operation(&self) -> (r: &str)
        ensures
            r@ == self.spec_operation(),
    {
        self.operation.as_str()
    }

    /// The value recorded for `key`, if any.
    pub fn metadata_value(&self, key: &str) -> (r: Option<&str>)
        requires
            self.wf(),
        ensures
            match self.spec_metadata(key@) {
                Some(v) => r matches Some(x) && x@ == v,
                None => r is None,
            },
    {
        lookup_entry(&self.metadata, key)
    }

    /// Time since the timer started.
    pub fn elapsed(&self) -> Duration {
        instant_elapsed(&self.start)
    }

    /// Stops the timer: what it measured, for the log.
    pub fn finish(self) -> (r: TimerReport)
        ensures
            r.operation@ == self.spec_operation(),
            keys_distinct(r.metadata@) == self.wf(),
            forall|k: Seq<char>| entry_value(r.metadata@, k) == self.spec_metadata(k),
    {
        let duration = instant_elapsed(&self.start);
        TimerReport { operation: self.operation, duration, metadata: self.metadata }
    }
}

} // verus!
