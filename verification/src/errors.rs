//! The error taxonomy of the engine.
//!
//! Credential resolution failure is the only whole-program error: it aborts
//! before any connection is attempted. Every other variant is scoped to one
//! host's unit and never disturbs the sibling units or the aggregator.

use vstd::prelude::*;

verus! {

/// What can go wrong, and at which scope.
#[derive(Debug, Clone, Copy, PartialEq, Eq)]
pub enum FleetError {
    /// No usable identity material; fatal before any connection attempt.
    CredentialResolution,
    /// Network or transport failure towards one host; isolated to its unit.
    Connection,
    /// One host rejected the offered credential; isolated to its unit.
    Authentication,
    /// A remote event stream ended without ever reporting an exit status.
    IncompleteExecution,
    /// The delivery channel closed while a unit still had output to send.
    ChannelSend,
}

impl FleetError {
    /// A short operator-facing label for error lines.
    pub fn label(&self) -> (s: &'static str)
        ensures
            *self is CredentialResolution ==> s@ == "no identity file found"@,
            *self is Connection ==> s@ == "connection failed"@,
            *self is Authentication ==> s@ == "authentication failed"@,
            *self is IncompleteExecution ==> s@ == "program did not exit cleanly"@,
            *self is ChannelSend ==> s@ == "delivery channel closed early"@,
    {
        match self {
            FleetError::CredentialResolution => "no identity file found",
            FleetError::Connection => "connection failed",
            FleetError::Authentication => "authentication failed",
            FleetError::IncompleteExecution => "program did not exit cleanly",
            FleetError::ChannelSend => "delivery channel closed early",
        }
    }

    /// Whether this error aborts the whole program rather than one unit.
    pub fn is_fatal(&self) -> (b: bool)
        ensures
            b == (*self is CredentialResolution),
    {
        matches!(self, FleetError::CredentialResolution)
    }
}

} // verus!
