//! Live monitor core for a structured build-event stream.
//!
//! The crate reconstructs the state of a running build from a sequence of
//! progress messages: each build step ("edge") is announced by a started
//! message and closed by a finished message, and the reducer merges the two
//! into one record per step while tracking aggregate counters and the overall
//! build phase.

use vstd::prelude::*;

pub mod derivations;
pub mod errors;
pub mod messages;
pub mod state;

verus! {

} // verus!
