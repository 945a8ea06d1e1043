//! The error kinds that the agent core reports.

use vstd::prelude::*;

verus! {

/// What went wrong. Each kind has one stable meaning; none carries a payload,
/// so two errors are equal exactly when they are of the same kind.
#[derive(Clone, Copy, Debug, PartialEq, Eq, Structural)]
pub enum Error {
    /// The candidate or agent was already closed.
    Closed,
    /// The transport failed.
    Io,
    /// A transaction ran out of retransmissions.
    Timeout,
    /// A datagram that looked like STUN could not be decoded.
    StunDecode,
    /// A STUN message failed its integrity or fingerprint check.
    StunAuth,
    /// An address, or the network it is used on, could not be understood.
    AddressParse,
    /// A candidate line names a type that is none of host, srflx, prflx, relay.
    UnknownCandidateType,
    /// Both agents claim the same role.
    RoleConflict,
    /// An operation needs a selected pair and there is none.
    NoSelectedPair,
    /// The delivery buffer has no room for another datagram.
    QueueFull,
    /// Gathering did not finish before its deadline.
    GatherTimeout,
    /// The selected pair's remote stopped answering consent checks.
    ConsentFailed,
    /// A candidate line is malformed.
    InvalidCandidate,
    /// The connection was given up: no pair answers any more.
    ConnectionFailed,
}

impl Error {
    /// The name of the kind, as it is shown to users.
    pub open spec fn name(self) -> Seq<char> {
        match self {
            Error::Closed => "Closed"@,
            Error::Io => "Io"@,
            Error::Timeout => "Timeout"@,
            Error::StunDecode => "StunDecode"@,
            Error::StunAuth => "StunAuth"@,
            Error::AddressParse => "AddressParse"@,
            Error::UnknownCandidateType => "UnknownCandidateType"@,
            Error::RoleConflict => "RoleConflict"@,
            Error::NoSelectedPair => "NoSelectedPair"@,
            Error::QueueFull => "QueueFull"@,
            Error::GatherTimeout => "GatherTimeout"@,
            Error::ConsentFailed => "ConsentFailed"@,
            Error::InvalidCandidate => "InvalidCandidate"@,
            Error::ConnectionFailed => "ConnectionFailed"@,
        }
    }

    /// Renders the kind's name.
    pub fn to_string(&self) -> (s: String)
        ensures
            s@ == self.name(),
    {
        match self {
            Error::Closed => "Closed".to_owned(),
            Error::Io => "Io".to_owned(),
            Error::Timeout => "Timeout".to_owned(),
            Error::StunDecode => "StunDecode".to_owned(),
            Error::StunAuth => "StunAuth".to_owned(),
            Error::AddressParse => "AddressParse".to_owned(),
            Error::UnknownCandidateType => "UnknownCandidateType".to_owned(),
            Error::RoleConflict => "RoleConflict".to_owned(),
            Error::NoSelectedPair => "NoSelectedPair".to_owned(),
            Error::QueueFull => "QueueFull".to_owned(),
            Error::GatherTimeout => "GatherTimeout".to_owned(),
            Error::ConsentFailed => "ConsentFailed".to_owned(),
            Error::InvalidCandidate => "InvalidCandidate".to_owned(),
            Error::ConnectionFailed => "ConnectionFailed".to_owned(),
        }
    }
}

} // verus!
