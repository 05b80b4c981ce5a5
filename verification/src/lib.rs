//! Verified core of a harbor: a managed filesystem root in which isolated,
//! long-running "ship" processes are provisioned, locked, launched and
//! promoted, each bound exclusively to its own persistent "pier" directory.

use vstd::prelude::*;

pub mod archive;
pub mod config;
pub mod errors;
pub mod filelock;
pub mod harbor;
pub mod text;
pub mod net_util;
pub mod ship;
pub mod urbit;
pub mod util;

verus! {

/// The poll interval, in milliseconds, at which a blocking lock
/// acquisition re-checks the marker file.
pub const POLL_INTERVAL_MILLIS: u64 = 50;

} // verus!
