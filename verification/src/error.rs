//! What can go wrong inside the relay, and in its configuration.

use vstd::prelude::*;

verus! {

/// Failures of the relay protocol. Each is confined to the connection or the
/// fan-out that met it.
#[derive(Debug, Clone, Copy, PartialEq, Eq, Structural)]
pub enum RelayError {
    /// No free session name was found within the allowed number of draws.
    SessionIdExhausted,
    /// A request was made in a session that has no other member.
    NoTarget,
    /// A peer did not acknowledge before the deadline.
    AckTimeout,
    /// The transport could not decode what a peer sent.
    MalformedPayload,
}

impl RelayError {
    /// The name of a failure, as characters.
    pub open spec fn code_of(self) -> Seq<char> {
        match self {
            RelayError::SessionIdExhausted => "SessionIdExhausted"@,
            RelayError::NoTarget => "NoTarget"@,
            RelayError::AckTimeout => "AckTimeout"@,
            RelayError::MalformedPayload => "MalformedPayload"@,
        }
    }

    /// The name under which the failure is reported to a peer.
    pub fn code(&self) -> (name: &'static str)
        ensures
            name@ == self.code_of(),
    {
        match self {
            RelayError::SessionIdExhausted => "SessionIdExhausted",
            RelayError::NoTarget => "NoTarget",
            RelayError::AckTimeout => "AckTimeout",
            RelayError::MalformedPayload => "MalformedPayload",
        }
    }
}

/// Failures of the start-up configuration. The process does not start on one.
#[derive(Debug, Clone, Copy, PartialEq, Eq, Structural)]
pub enum ConfigError {
    /// The line with this index (counted from zero) of an environment file
    /// is not of the form `KEY=value`.
    MalformedLine(usize),
    /// The configured length of session names is not a number of at least one.
    InvalidLength,
}

} // verus!
