//! Where log records go: to the sink that a frontend has installed, else to the
//! standard error stream.

use vstd::prelude::*;

verus! {

/// The severity of a log record, most severe first.
#[derive(Clone, Copy, Debug, PartialEq, Eq, Structural)]
pub enum Level {
    Error,
    Warn,
    Info,
    Debug,
    Trace,
}

/// One log line. Carries its level so a frontend can map it to a colour.
#[derive(Clone, Debug)]
pub struct LogRecord {
    pub level: Level,
    pub message: String,
}

/// What happens to a log record.
pub enum Route {
    /// It is below the threshold.
    Dropped,
    /// It goes to the installed sink.
    Sink(LogRecord),
    /// Its message goes to the standard error stream.
    Stderr(String),
}

/// Whether records of a level are taken at all: everything down to `Info`.
pub open spec fn is_enabled(level: Level) -> bool {
    level is Error || level is Warn || level is Info
}

/// Whether records of a level are taken at all.
pub fn enabled(level: Level) -> (r: bool)
    ensures
        r == is_enabled(level),
{
    match level {
        Level::Error | Level::Warn | Level::Info => true,
        Level::Debug | Level::Trace => false,
    }
}

/// Where a record goes.
pub fn route(record: LogRecord, sink_installed: bool) -> (route: Route)
    ensures
        route == if !is_enabled(record.level) {
            Route::Dropped
        } else if sink_installed {
            Route::Sink(record)
        } else {
            Route::Stderr(record.message)
        },
{
    if !enabled(record.level) {
        Route::Dropped
    } else if sink_installed {
        Route::Sink(record)
    } else {
        Route::Stderr(record.message)
    }
}

/// Where a record goes that the sink did not take: the standard error stream.
pub fn undelivered(record: LogRecord) -> (route: Route)
    ensures
        route == Route::Stderr(record.message),
{
    Route::Stderr(record.message)
}

/// Debug and trace records are dropped; all others go somewhere.
pub proof fn law_levels_that_pass(level: Level)
    ensures
        is_enabled(level) <==> !(level is Debug) && !(level is Trace),
{
}

} // verus!
