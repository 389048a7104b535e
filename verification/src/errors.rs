//! Error taxonomy of a monitoring session.
//!
//! All three kinds are fatal where they arise: the session reports the
//! failure and stops rather than display state known to be inconsistent with
//! the real build. The state keeps everything applied before the failing
//! message.

use vstd::prelude::*;

verus! {

/// The producer broke the start/finish pairing contract the reducer depends
/// on. The offending message is never applied.
#[derive(Clone, Copy, Debug, PartialEq, Eq, Structural)]
pub enum ProtocolViolation {
    /// A started message named an id that already has a running record.
    DuplicateStart { edge_id: usize },
    /// A finished message named an id with no running record.
    UnmatchedFinish { edge_id: usize },
}

/// Any failure that ends a monitoring session, for the caller that owns the
/// stream and the screen to report.
pub enum MonitorError {
    /// A line of the stream did not decode as any known message shape.
    Decode { line: String },
    /// The message stream broke the start/finish pairing contract.
    Protocol { violation: ProtocolViolation },
    /// The configured file or subprocess could not be opened or spawned.
    SourceUnavailable { reason: String },
}

} // verus!
