//! The failure taxonomy shared by every fallible operation of the library.

use vstd::prelude::*;

verus! {

/// Every fallible operation reports one of these typed failures.
/// No partial success is ever reported as success.
#[derive(Clone, Copy, Debug, PartialEq, Eq, Structural)]
pub enum Error {
    /// The named pier, identifier or path does not exist.
    NotFound,
    /// Another handle already holds the pier's lock.
    AlreadyLocked,
    /// The persisted configuration is missing, unreadable or inconsistent.
    ConfigCorrupt,
    /// The archive could not be decoded, or held no recognizable ship directory.
    ArchiveInvalid,
    /// An archive entry was rejected by the fixed safety policy.
    ExtractionRejected,
    /// The port allocator scanned its whole range without success.
    PortsExhausted,
    /// The external ship process could not be started.
    ProcessLaunchFailed,
    /// A control-channel response or ports descriptor was not shaped as required.
    ProtocolViolation,
    /// The operation is not permitted in the pier's current state.
    IllegalStateTransition,
}

/// The exact description of each failure kind.
pub open spec fn error_text(e: Error) -> Seq<char> {
    match e {
        Error::NotFound => "not found"@,
        Error::AlreadyLocked => "already locked"@,
        Error::ConfigCorrupt => "configuration corrupt"@,
        Error::ArchiveInvalid => "invalid archive"@,
        Error::ExtractionRejected => "extraction rejected by safety policy"@,
        Error::PortsExhausted => "no ports available"@,
        Error::ProcessLaunchFailed => "process launch failed"@,
        Error::ProtocolViolation => "protocol violation"@,
        Error::IllegalStateTransition => "illegal state transition"@,
    }
}

impl Error {
    /// A short human-readable description of the failure.
    pub fn describe(&self) -> (r: &'static str)
        ensures
            r@ == error_text(*self),
    {
        match self {
            Error::NotFound => "not found",
            Error::AlreadyLocked => "already locked",
            Error::ConfigCorrupt => "configuration corrupt",
            Error::ArchiveInvalid => "invalid archive",
            Error::ExtractionRejected => "extraction rejected by safety policy",
            Error::PortsExhausted => "no ports available",
            Error::ProcessLaunchFailed => "process launch failed",
            Error::ProtocolViolation => "protocol violation",
            Error::IllegalStateTransition => "illegal state transition",
        }
    }
}

} // verus!
