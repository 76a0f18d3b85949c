//! Core value types: snapshots, cursors, output formats and errors.
//!
//! An instant is an `i64` count of nanoseconds since the Unix epoch (UTC).
//! That covers the years 1677 to 2262 and orders instants exactly as the
//! recorder's clock does.

use vstd::prelude::*;
use vstd::string::StringExecFns;

verus! {

/// Nanoseconds in one millisecond.
pub const NANOS_PER_MILLI: i64 = 1_000_000;

/// Nanoseconds in one second.
pub const NANOS_PER_SECOND: i64 = 1_000_000_000;

/// Division that truncates toward zero, as Rust's `/` on integers does.
pub open spec fn div_trunc(a: int, b: int) -> int {
    if a >= 0 {
        a / b
    } else {
        -((-a) / b)
    }
}

/// Whole milliseconds from `from` to `to`, truncated toward zero.
pub open spec fn millis_between(from: int, to: int) -> int {
    div_trunc(to - from, NANOS_PER_MILLI as int)
}

/// Whole seconds from `from` to `to`, truncated toward zero.
pub open spec fn seconds_between(from: int, to: int) -> int {
    div_trunc(to - from, NANOS_PER_SECOND as int)
}

/// Whole milliseconds from `from` to `to`, truncated toward zero.
pub fn millis_diff(from: i64, to: i64) -> (r: i64)
    ensures
        r == millis_between(from as int, to as int),
{
    let d: i128 = (to as i128) - (from as i128);
    let q: i128 = if d >= 0 {
        d / (NANOS_PER_MILLI as i128)
    } else {
        -((-d) / (NANOS_PER_MILLI as i128))
    };
    q as i64
}

/// Whole seconds from `from` to `to`, truncated toward zero.
pub fn seconds_diff(from: i64, to: i64) -> (r: i64)
    ensures
        r == seconds_between(from as int, to as int),
{
    let d: i128 = (to as i128) - (from as i128);
    let q: i128 = if d >= 0 {
        d / (NANOS_PER_SECOND as i128)
    } else {
        -((-d) / (NANOS_PER_SECOND as i128))
    };
    q as i64
}

/// Output format of a command.
#[derive(Clone, Copy, Debug, PartialEq, Eq, Structural)]
pub enum OutputFormat {
    Human,
    Json,
}

/// Identifier of a recorded snapshot.
#[derive(Clone, Copy, Debug, PartialEq, Eq, Structural)]
pub struct SnapshotId(pub i64);

/// Content hash of a stored blob, as hex text.
#[derive(Clone, Debug, PartialEq, Eq)]
pub struct ContentHash(pub String);

/// What happened to a file in a snapshot.
#[derive(Clone, Copy, Debug, PartialEq, Eq, Structural)]
pub enum EventType {
    Create,
    Modify,
    Delete,
}

impl EventType {
    /// The word the history shows for this event.
    pub open spec fn spec_label(self) -> Seq<char> {
        match self {
            EventType::Create => "created"@,
            EventType::Modify => "modified"@,
            EventType::Delete => "deleted"@,
        }
    }

    /// The word the history shows for this event: `created`, `modified` or `deleted`.
    pub fn label(&self) -> (r: &'static str)
        ensures
            r@ == self.spec_label(),
    {
        match self {
            EventType::Create => "created",
            EventType::Modify => "modified",
            EventType::Delete => "deleted",
        }
    }
}

/// One recorded version of one file.
#[derive(Clone, Debug, PartialEq, Eq)]
pub struct Snapshot {
    pub id: SnapshotId,
    /// Path relative to the project root.
    pub file_path: String,
    pub content_hash: ContentHash,
    pub size_bytes: u64,
    /// Nanoseconds since the Unix epoch.
    pub timestamp: i64,
    pub event_type: EventType,
    pub line_count: u64,
    pub lines_added: u64,
    pub lines_removed: u64,
}

/// Position in a history listing: the last snapshot already returned.
#[derive(Clone, Copy, Debug, PartialEq, Eq, Structural)]
pub struct HistoryCursor {
    /// Nanoseconds since the Unix epoch.
    pub timestamp: i64,
    pub id: SnapshotId,
}

/// Errors the recorder reports to its user.
#[derive(Clone, Debug)]
pub enum UnfError {
    /// An argument or option was not acceptable.
    InvalidArgument(String),
    /// A query matched nothing.
    NoResults(String),
    /// The project has no storage yet.
    NotInitialized,
    /// The configuration could not be read or written.
    Config(String),
}

impl UnfError {
    /// The human-readable message carried by this error.
    pub open spec fn spec_message(&self) -> Seq<char> {
        match self {
            UnfError::InvalidArgument(m) => m@,
            UnfError::NoResults(m) => m@,
            UnfError::NotInitialized => "UNFUDGED is not initialized for this project."@,
            UnfError::Config(m) => m@,
        }
    }

    /// The human-readable message carried by this error.
    pub fn message(&self) -> (r: String)
        ensures
            r@ == self.spec_message(),
    {
        match self {
            UnfError::InvalidArgument(m) => m.clone(),
            UnfError::NoResults(m) => m.clone(),
            UnfError::NotInitialized => String::from_str(
                "UNFUDGED is not initialized for this project.",
            ),
            UnfError::Config(m) => m.clone(),
        }
    }
}

/// The exit status of the process after an error: every error ends the
/// process with status 1.
pub fn exit_code(e: &UnfError) -> (r: i32)
    ensures
        r == 1,
{
    let _ = e;
    1
}

} // verus!
