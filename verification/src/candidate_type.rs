//! The four kinds of candidate and their type preferences.

use crate::text::chars_of;
use vstd::prelude::*;

verus! {

/// How a candidate's address was learned.
#[derive(Clone, Copy, Debug, PartialEq, Eq, Structural)]
pub enum CandidateType {
    Unspecified,
    /// An address of a local interface.
    Host,
    /// The address a STUN server saw for a host candidate.
    ServerReflexive,
    /// An address learned from a peer's connectivity check.
    PeerReflexive,
    /// An address allocated on a TURN server.
    Relay,
}

impl CandidateType {
    /// The name of the type in a candidate line.
    pub open spec fn name(self) -> Seq<char> {
        match self {
            CandidateType::Host => "host"@,
            CandidateType::ServerReflexive => "srflx"@,
            CandidateType::PeerReflexive => "prflx"@,
            CandidateType::Relay => "relay"@,
            CandidateType::Unspecified => "Unknown candidate type"@,
        }
    }

    /// The type preference: the higher, the sooner a candidate of the type is
    /// checked.
    pub open spec fn preference_of(self) -> nat {
        match self {
            CandidateType::Host => 126,
            CandidateType::PeerReflexive => 110,
            CandidateType::ServerReflexive => 100,
            CandidateType::Relay => 0,
            CandidateType::Unspecified => 0,
        }
    }

    /// The type that a name in a candidate line stands for, if any.
    pub open spec fn of_name(s: Seq<char>) -> Option<CandidateType> {
        if s == "host"@ {
            Some(CandidateType::Host)
        } else if s == "srflx"@ {
            Some(CandidateType::ServerReflexive)
        } else if s == "prflx"@ {
            Some(CandidateType::PeerReflexive)
        } else if s == "relay"@ {
            Some(CandidateType::Relay)
        } else {
            None
        }
    }

    /// The name as a string slice.
    pub fn as_str(&self) -> (s: &'static str)
        ensures
            s@ == self.name(),
    {
        match self {
            CandidateType::Host => "host",
            CandidateType::ServerReflexive => "srflx",
            CandidateType::PeerReflexive => "prflx",
            CandidateType::Relay => "relay",
            CandidateType::Unspecified => "Unknown candidate type",
        }
    }

    /// Renders the name.
    pub fn to_string(&self) -> (s: String)
        ensures
            s@ == self.name(),
    {
        self.as_str().to_owned()
    }

    /// Returns the type preference.
    pub fn preference(&self) -> (p: u16)
        ensures
            p == self.preference_of(),
    {
        match self {
            CandidateType::Host => 126,
            CandidateType::PeerReflexive => 110,
            CandidateType::ServerReflexive => 100,
            CandidateType::Relay | CandidateType::Unspecified => 0,
        }
    }

    /// Reads a type from its name in a candidate line.
    pub fn from_name(word: &Vec<char>) -> (t: Option<CandidateType>)
        ensures
            t == CandidateType::of_name(word@),
    {
        if same_text(word, "host") {
            Some(CandidateType::Host)
        } else if same_text(word, "srflx") {
            Some(CandidateType::ServerReflexive)
        } else if same_text(word, "prflx") {
            Some(CandidateType::PeerReflexive)
        } else if same_text(word, "relay") {
            Some(CandidateType::Relay)
        } else {
            None
        }
    }
}

impl Default for CandidateType {
    fn default() -> (t: CandidateType)
        ensures
            t == CandidateType::Unspecified,
    {
        CandidateType::Unspecified
    }
}

/// Tells whether a word holds exactly the characters of a string.
pub fn same_text(word: &Vec<char>, text: &str) -> (same: bool)
    ensures
        same == (word@ == text@),
{
    let other = chars_of(text);
    if word.len() != other.len() {
        return false;
    }
    let mut i: usize = 0;
    while i < word.len()
        invariant
            i <= word.len(),
            word.len() == other.len(),
            other@ == text@,
            word@.take(i as int) == other@.take(i as int),
        decreases word.len() - i,
    {
        if word[i] != other[i] {
            return false;
        }
        assert(word@.take(i + 1) =~= word@.take(i as int).push(word@[i as int]));
        assert(other@.take(i + 1) =~= other@.take(i as int).push(other@[i as int]));
        i = i + 1;
    }
    assert(word@.take(i as int) =~= word@);
    assert(other@.take(i as int) =~= other@);
    true
}

} // verus!
