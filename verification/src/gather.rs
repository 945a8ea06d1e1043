//! Gathering: which addresses of the host make candidates, and when
//! gathering is complete.

use crate::error::Error;
use crate::network_type::IpAddress;
use crate::state::GatheringState;
use vstd::prelude::*;

verus! {

/// The time that gathering may take, in nanoseconds, unless it is configured
/// otherwise: ten seconds.
pub const DEFAULT_GATHER_TIMEOUT: u64 = 10_000_000_000;

/// Which addresses of the host make host candidates.
#[derive(Clone, Copy, Debug, PartialEq, Eq, Structural)]
pub struct GatherPolicy {
    /// Whether loopback addresses make candidates.
    pub include_loopback: bool,
    /// Whether IPv4 addresses make candidates.
    pub allow_ipv4: bool,
    /// Whether IPv6 addresses make candidates.
    pub allow_ipv6: bool,
}

/// True for the loopback addresses: 127.0.0.0/8 and ::1.
pub open spec fn loopback(ip: IpAddress) -> bool {
    match ip {
        IpAddress::V4(a) => a / 0x0100_0000 == 127,
        IpAddress::V6(a) => a == 1,
    }
}

/// True when an address of an interface makes a host candidate: the
/// interface is allowed, the address family is allowed, and the address is
/// no loopback address unless those are included.
pub open spec fn eligible(policy: GatherPolicy, ip: IpAddress, interface_allowed: bool) -> bool {
    &&& interface_allowed
    &&& if ip.is_v4() {
        policy.allow_ipv4
    } else {
        policy.allow_ipv6
    }
    &&& policy.include_loopback || !loopback(ip)
}

/// Tells whether an address is a loopback address.
pub fn is_loopback(ip: &IpAddress) -> (b: bool)
    ensures
        b == loopback(*ip),
{
    match ip {
        IpAddress::V4(a) => *a / 0x0100_0000 == 127,
        IpAddress::V6(a) => *a == 1,
    }
}

/// Tells whether an address of an interface makes a host candidate.
pub fn is_eligible(policy: &GatherPolicy, ip: &IpAddress, interface_allowed: bool) -> (b: bool)
    ensures
        b == eligible(*policy, *ip, interface_allowed),
{
    let family_allowed = if ip.is_ipv4() {
        policy.allow_ipv4
    } else {
        policy.allow_ipv6
    };
    interface_allowed && family_allowed && (policy.include_loopback || !is_loopback(ip))
}

/// The progress of gathering: how many sources of candidates have yet to
/// finish, and until when they may.
#[derive(Clone, Copy, Debug, PartialEq, Eq, Structural)]
pub struct Gatherer {
    pub state: GatheringState,
    /// The sources that have not finished: interfaces, STUN servers and TURN
    /// servers that were asked.
    pub outstanding: usize,
    /// When gathering ends, whatever is outstanding.
    pub deadline: u64,
}

impl Gatherer {
    /// The gatherer after gathering began at `now` on a number of sources,
    /// with a time limit: complete at once where there is no source.
    pub open spec fn begun(sources: usize, now: u64, timeout: u64) -> Gatherer {
        Gatherer {
            state: if sources == 0 {
                GatheringState::Complete
            } else {
                GatheringState::Gathering
            },
            outstanding: sources,
            deadline: if now + timeout <= u64::MAX {
                (now + timeout) as u64
            } else {
                u64::MAX
            },
        }
    }

    /// The gatherer after a source finished, with candidates or with an
    /// error: complete once no source is outstanding. A gatherer that is not
    /// gathering stays as it is.
    pub open spec fn after_source(self) -> Gatherer {
        if self.state != GatheringState::Gathering || self.outstanding == 0 {
            self
        } else if self.outstanding == 1 {
            Gatherer { state: GatheringState::Complete, outstanding: 0, ..self }
        } else {
            Gatherer { outstanding: (self.outstanding - 1) as usize, ..self }
        }
    }

    /// True when the time for gathering has run out with sources
    /// outstanding.
    pub open spec fn timed_out(self, now: u64) -> bool {
        self.state == GatheringState::Gathering && now >= self.deadline
    }

    /// A gatherer that has not begun.
    pub fn new() -> (g: Gatherer)
        ensures
            g == (Gatherer { state: GatheringState::New, outstanding: 0, deadline: 0 }),
    {
        Gatherer { state: GatheringState::New, outstanding: 0, deadline: 0 }
    }

    /// Begins to gather from a number of sources.
    pub fn begin(&mut self, sources: usize, now: u64, timeout: u64)
        ensures
            *final(self) == Gatherer::begun(sources, now, timeout),
    {
        self.state = if sources == 0 {
            GatheringState::Complete
        } else {
            GatheringState::Gathering
        };
        self.outstanding = sources;
        self.deadline = now.saturating_add(timeout);
    }

    /// Notes that a source has finished, and returns the state of gathering.
    /// A source that failed counts as finished: it does not end gathering.
    pub fn source_finished(&mut self) -> (state: GatheringState)
        ensures
            *final(self) == old(self).after_source(),
            state == final(self).state,
    {
        if matches!(self.state, GatheringState::Gathering) && self.outstanding > 0 {
            self.outstanding = self.outstanding - 1;
            if self.outstanding == 0 {
                self.state = GatheringState::Complete;
            }
        }
        self.state
    }

    /// Looks at the clock: where the time for gathering has run out,
    /// gathering is complete with what was found, and `GatherTimeout` is
    /// returned; else nothing changes.
    pub fn check_deadline(&mut self, now: u64) -> (r: Result<GatheringState, Error>)
        ensures
            old(self).timed_out(now) ==> r == Err::<GatheringState, Error>(Error::GatherTimeout)
                && *final(self) == (Gatherer { state: GatheringState::Complete, ..*old(self) }),
            !old(self).timed_out(now) ==> r == Ok::<GatheringState, Error>(old(self).state)
                && *final(self) == *old(self),
    {
        if matches!(self.state, GatheringState::Gathering) && now >= self.deadline {
            self.state = GatheringState::Complete;
            Err(Error::GatherTimeout)
        } else {
            Ok(self.state)
        }
    }
}

} // verus!
