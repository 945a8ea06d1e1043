//! Candidate pairs: a local and a remote candidate, the state of the check
//! between them, and the priority by which pairs are checked.

use crate::role::Role;
use vstd::prelude::*;

verus! {

/// The state of the connectivity check of a pair.
#[derive(Clone, Copy, Debug, PartialEq, Eq, Structural)]
pub enum CandidatePairState {
    /// A check has not been sent, and may be as soon as the pair's turn comes.
    Waiting,
    /// A check has been sent and not yet answered.
    InProgress,
    /// A check was answered as it should be.
    Succeeded,
    /// A check failed, or was never answered.
    Failed,
    /// A check waits for another pair of the same foundation to succeed.
    Frozen,
}

impl CandidatePairState {
    /// The state's name.
    pub open spec fn name(self) -> Seq<char> {
        match self {
            CandidatePairState::Waiting => "waiting"@,
            CandidatePairState::InProgress => "in-progress"@,
            CandidatePairState::Succeeded => "succeeded"@,
            CandidatePairState::Failed => "failed"@,
            CandidatePairState::Frozen => "frozen"@,
        }
    }

    /// True once a check has ended, well or badly.
    pub open spec fn resolved(self) -> bool {
        self == CandidatePairState::Succeeded || self == CandidatePairState::Failed
    }

    /// Renders the state's name.
    pub fn to_string(&self) -> (s: String)
        ensures
            s@ == self.name(),
    {
        match self {
            CandidatePairState::Waiting => "waiting".to_owned(),
            CandidatePairState::InProgress => "in-progress".to_owned(),
            CandidatePairState::Succeeded => "succeeded".to_owned(),
            CandidatePairState::Failed => "failed".to_owned(),
            CandidatePairState::Frozen => "frozen".to_owned(),
        }
    }

    /// Tells whether a check has ended.
    pub fn is_resolved(&self) -> (b: bool)
        ensures
            b == self.resolved(),
    {
        matches!(self, CandidatePairState::Succeeded | CandidatePairState::Failed)
    }
}

/// The pair priority: with `g` the priority of the controlling agent's
/// candidate and `d` that of the controlled agent's,
/// `2^32 * min(g, d) + 2 * max(g, d) + (1 if g > d, else 0)`.
pub open spec fn pair_priority_of(g: nat, d: nat) -> nat {
    let low = if g <= d {
        g
    } else {
        d
    };
    let high = if g <= d {
        d
    } else {
        g
    };
    (0x1_0000_0000 * low + 2 * high + if g > d {
        1nat
    } else {
        0nat
    }) as nat
}

/// The priority that an agent in the given role computes for a pair of its
/// own candidate, of priority `local`, and its peer's, of priority `remote`.
pub open spec fn pair_priority_seen_by(role: Role, local: nat, remote: nat) -> nat {
    match role {
        Role::Controlling => pair_priority_of(local, remote),
        Role::Controlled => pair_priority_of(remote, local),
    }
}

/// The pair priority as far as 64 bits hold it: the formula's value, which
/// fits unless both priorities are the greatest that 32 bits hold, and the
/// greatest 64-bit number in that one case.
pub open spec fn pair_priority_clamped(g: nat, d: nat) -> nat {
    if pair_priority_of(g, d) <= u64::MAX {
        pair_priority_of(g, d)
    } else {
        u64::MAX as nat
    }
}

/// Computes the pair priority from the priorities of the controlling agent's
/// candidate, `g`, and of the controlled agent's, `d`.
pub fn pair_priority(g: u32, d: u32) -> (p: u64)
    ensures
        p == pair_priority_clamped(g as nat, d as nat),
        (g < u32::MAX || d < u32::MAX) ==> p == pair_priority_of(g as nat, d as nat),
{
    let low: u128 = if g <= d {
        g as u128
    } else {
        d as u128
    };
    let high: u128 = if g <= d {
        d as u128
    } else {
        g as u128
    };
    let bit: u128 = if g > d {
        1
    } else {
        0
    };
    let wide: u128 = 0x1_0000_0000 * low + 2 * high + bit;
    if wide <= 0xFFFF_FFFF_FFFF_FFFF {
        wide as u64
    } else {
        0xFFFF_FFFF_FFFF_FFFF
    }
}

/// A local and a remote candidate, named by their places in the agent's two
/// lists, with the state of the check between them.
#[derive(Clone, Copy, Debug, PartialEq, Eq, Structural)]
pub struct CandidatePair {
    /// The place of the local candidate in the agent's list.
    pub local: usize,
    /// The place of the remote candidate in the agent's list.
    pub remote: usize,
    /// The local candidate's priority.
    pub local_priority: u32,
    /// The remote candidate's priority.
    pub remote_priority: u32,
    pub state: CandidatePairState,
    /// Whether the controlling agent has chosen the pair.
    pub nominated: bool,
    /// Whether the pair is the one that carries the agent's data.
    pub selected: bool,
    /// How many checks have been sent on the pair.
    pub binding_request_count: u16,
}

impl CandidatePair {
    /// The pair's priority as an agent in the given role computes it, as far
    /// as 64 bits hold it.
    pub open spec fn priority_as(&self, role: Role) -> nat {
        match role {
            Role::Controlling => pair_priority_clamped(
                self.local_priority as nat,
                self.remote_priority as nat,
            ),
            Role::Controlled => pair_priority_clamped(
                self.remote_priority as nat,
                self.local_priority as nat,
            ),
        }
    }

    /// A new pair: in the given state, neither nominated nor selected, with no
    /// check sent.
    pub fn new(
        local: usize,
        remote: usize,
        local_priority: u32,
        remote_priority: u32,
        state: CandidatePairState,
    ) -> (p: CandidatePair)
        ensures
            p == (CandidatePair {
                local,
                remote,
                local_priority,
                remote_priority,
                state,
                nominated: false,
                selected: false,
                binding_request_count: 0,
            }),
    {
        CandidatePair {
            local,
            remote,
            local_priority,
            remote_priority,
            state,
            nominated: false,
            selected: false,
            binding_request_count: 0,
        }
    }

    /// Computes the pair's priority for an agent in the given role.
    pub fn priority(&self, role: Role) -> (p: u64)
        ensures
            p == self.priority_as(role),
            (self.local_priority < u32::MAX || self.remote_priority < u32::MAX) ==> p
                == pair_priority_seen_by(
                role,
                self.local_priority as nat,
                self.remote_priority as nat,
            ),
    {
        match role {
            Role::Controlling => pair_priority(self.local_priority, self.remote_priority),
            Role::Controlled => pair_priority(self.remote_priority, self.local_priority),
        }
    }
}

/// Both agents compute the same priority for a pair: the controlling agent,
/// for its candidate `a` paired with the peer's `b`, and the controlled
/// agent, for its candidate `b` paired with the peer's `a`.
pub proof fn lemma_pair_priority_agrees(a: nat, b: nat)
    ensures
        pair_priority_seen_by(Role::Controlling, a, b) == pair_priority_seen_by(
            Role::Controlled,
            b,
            a,
        ),
{
}

/// When the agents swap roles, a pair's priority changes by at most its last
/// bit: the two priorities differ by 1 where the candidates' priorities
/// differ, and not at all where they are equal.
pub proof fn lemma_pair_priority_under_role_swap(g: nat, d: nat)
    ensures
        g == d ==> pair_priority_of(g, d) == pair_priority_of(d, g),
        g > d ==> pair_priority_of(g, d) == pair_priority_of(d, g) + 1,
        g < d ==> pair_priority_of(g, d) + 1 == pair_priority_of(d, g),
{
}

} // verus!
