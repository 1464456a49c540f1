//! The kinds of failure and how far each one reaches.

use vstd::prelude::*;

verus! {

/// What went wrong.
#[derive(Clone, Copy, Debug, PartialEq, Eq, Structural)]
pub enum Failure {
    /// The local transport could not be acquired, or the set of accepted
    /// tags was not usable.
    BindError,
    /// The peer could not be reached, refused the protocol, or did not
    /// answer in time.
    DialError,
    /// An inbound connection asked for a tag that no handler serves.
    ProtocolMismatch,
    /// Reading from or writing to a stream failed while a handler ran.
    StreamError,
    /// The peer answered, but not with the bytes that were sent.
    VerificationFailure,
    /// The endpoint was closed.
    Closed,
}

/// What a failure brings down.
#[derive(Clone, Copy, Debug, PartialEq, Eq, Structural)]
pub enum Reach {
    /// The whole process ends.
    Process,
    /// Only the operation that the caller asked for fails.
    Operation,
    /// Only the offending connection is dropped.
    Connection,
    /// Only the handler that met the failure is aborted.
    Handler,
}

impl Failure {
    /// How far this failure reaches.
    pub open spec fn spec_reach(self) -> Reach {
        match self {
            Failure::BindError => Reach::Process,
            Failure::DialError => Reach::Operation,
            Failure::ProtocolMismatch => Reach::Connection,
            Failure::StreamError => Reach::Handler,
            Failure::VerificationFailure => Reach::Operation,
            Failure::Closed => Reach::Operation,
        }
    }

    /// Whether the network itself failed, as opposed to a peer that was
    /// reached and answered wrongly.
    pub open spec fn spec_is_transport(self) -> bool {
        self != Failure::VerificationFailure && self != Failure::ProtocolMismatch
    }

    /// How far this failure reaches.
    #[verifier::when_used_as_spec(spec_reach)]
    pub fn reach(self) -> (reach: Reach)
        ensures
            reach == self.spec_reach(),
    {
        match self {
            Failure::BindError => Reach::Process,
            Failure::ProtocolMismatch => Reach::Connection,
            Failure::StreamError => Reach::Handler,
            Failure::DialError | Failure::VerificationFailure | Failure::Closed => Reach::Operation,
        }
    }

    /// Whether this failure ends the process. Only a failed bind does.
    pub fn is_fatal(self) -> (fatal: bool)
        ensures
            fatal == (self == Failure::BindError),
            fatal == (self.spec_reach() == Reach::Process),
    {
        self == Failure::BindError
    }

    /// Whether the network itself failed.
    #[verifier::when_used_as_spec(spec_is_transport)]
    pub fn is_transport(self) -> (transport: bool)
        ensures
            transport == self.spec_is_transport(),
    {
        match self {
            Failure::VerificationFailure | Failure::ProtocolMismatch => false,
            _ => true,
        }
    }

    /// A short description for logs and for callers.
    pub open spec fn spec_describe(self) -> Seq<char> {
        match self {
            Failure::BindError => "bind error: the local transport could not be acquired"@,
            Failure::DialError => "dial error: the peer could not be reached"@,
            Failure::ProtocolMismatch => "protocol mismatch: no handler serves the requested tag"@,
            Failure::StreamError => "stream error: reading or writing failed"@,
            Failure::VerificationFailure => {
                "verification failure: the peer returned other bytes than were sent"@
            },
            Failure::Closed => "closed: the endpoint was shut down"@,
        }
    }

    /// A short description for logs and for callers.
    pub fn describe(self) -> (text: &'static str)
        ensures
            text@ == self.spec_describe(),
    {
        match self {
            Failure::BindError => "bind error: the local transport could not be acquired",
            Failure::DialError => "dial error: the peer could not be reached",
            Failure::ProtocolMismatch => "protocol mismatch: no handler serves the requested tag",
            Failure::StreamError => "stream error: reading or writing failed",
            Failure::VerificationFailure => {
                "verification failure: the peer returned other bytes than were sent"
            },
            Failure::Closed => "closed: the endpoint was shut down",
        }
    }
}

/// A handler's failure never ends the process: whatever a handler or a
/// dial reports reaches no further than the operation, the connection or
/// the handler itself.
pub proof fn lemma_only_bind_is_fatal(failure: Failure)
    ensures
        failure != Failure::BindError ==> failure.spec_reach() != Reach::Process,
{
}

} // verus!
