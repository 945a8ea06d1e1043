//! The two roles of an agent, and what happens when both agents claim one.

use vstd::prelude::*;

verus! {

/// Which agent nominates: the controlling one.
#[derive(Clone, Copy, Debug, PartialEq, Eq, Structural)]
pub enum Role {
    Controlling,
    Controlled,
}

impl Role {
    /// The other role.
    pub open spec fn opposite(self) -> Role {
        match self {
            Role::Controlling => Role::Controlled,
            Role::Controlled => Role::Controlling,
        }
    }

    /// Returns the other role.
    pub fn flipped(&self) -> (r: Role)
        ensures
            r == self.opposite(),
    {
        match self {
            Role::Controlling => Role::Controlled,
            Role::Controlled => Role::Controlling,
        }
    }

    /// Tells whether the role is the controlling one.
    pub fn is_controlling(&self) -> (b: bool)
        ensures
            b == (*self == Role::Controlling),
    {
        match self {
            Role::Controlling => true,
            Role::Controlled => false,
        }
    }
}

/// What an agent does with a binding request, given the role that the sender
/// claims for itself.
#[derive(Clone, Copy, Debug, PartialEq, Eq, Structural)]
pub enum ConflictOutcome {
    /// The sender claims the other role: there is no conflict.
    NoConflict,
    /// The agent keeps its role and answers with error 487, Role Conflict.
    KeepRoleAndReject,
    /// The agent takes the other role and accepts the request.
    SwitchRoleAndAccept,
}

/// The rule for a request whose sender claims the role `claimed` with the
/// tie-breaker `remote_tie`: a conflict arises when the agent holds the same
/// role, and then the agent with the greater tie-breaker keeps it.
pub open spec fn conflict_outcome(
    own: Role,
    own_tie: u64,
    claimed: Role,
    remote_tie: u64,
) -> ConflictOutcome {
    if own != claimed {
        ConflictOutcome::NoConflict
    } else if own_tie > remote_tie {
        ConflictOutcome::KeepRoleAndReject
    } else {
        ConflictOutcome::SwitchRoleAndAccept
    }
}

/// The role that an agent holds after a request was answered by the rule.
pub open spec fn role_after_request(own: Role, own_tie: u64, claimed: Role, remote_tie: u64) -> Role {
    if conflict_outcome(own, own_tie, claimed, remote_tie) == ConflictOutcome::SwitchRoleAndAccept {
        own.opposite()
    } else {
        own
    }
}

/// The role that an agent holds after error 487 came back for a request that
/// it had sent in the role `sent_as`: the other one, whatever it holds now.
pub open spec fn role_after_rejection(sent_as: Role) -> Role {
    sent_as.opposite()
}

/// Decides what to do with a request whose sender claims a role.
pub fn resolve_role_conflict(own: Role, own_tie: u64, claimed: Role, remote_tie: u64) -> (o:
    ConflictOutcome)
    ensures
        o == conflict_outcome(own, own_tie, claimed, remote_tie),
{
    if own != claimed {
        ConflictOutcome::NoConflict
    } else if own_tie > remote_tie {
        ConflictOutcome::KeepRoleAndReject
    } else {
        ConflictOutcome::SwitchRoleAndAccept
    }
}

/// When two agents with different tie-breakers claim the same role, exactly
/// one of them gives it up, whichever request arrives and whichever answer:
/// the agent with the greater tie-breaker rejects the other's request and
/// keeps the role, the agent with the smaller one accepts the other's request
/// and switches, and error 487 reaches only the agent that switches. The
/// roles they end with depend on the two tie-breakers alone.
pub proof fn lemma_role_conflict_resolves(role: Role, tie_a: u64, tie_b: u64)
    requires
        tie_a != tie_b,
    ensures
        (conflict_outcome(role, tie_a, role, tie_b) == ConflictOutcome::SwitchRoleAndAccept) != (
        conflict_outcome(role, tie_b, role, tie_a) == ConflictOutcome::SwitchRoleAndAccept),
        (conflict_outcome(role, tie_a, role, tie_b) == ConflictOutcome::KeepRoleAndReject) == (
        conflict_outcome(role, tie_b, role, tie_a) == ConflictOutcome::SwitchRoleAndAccept),
        role_after_request(role, tie_a, role, tie_b) == (if tie_a > tie_b {
            role
        } else {
            role.opposite()
        }),
        role_after_request(role, tie_b, role, tie_a) == role_after_request(
            role,
            tie_a,
            role,
            tie_b,
        ).opposite(),
        conflict_outcome(role, tie_a, role, tie_b) == ConflictOutcome::KeepRoleAndReject
            ==> role_after_rejection(role) == role_after_request(role, tie_b, role, tie_a),
{
}

} // verus!
