//! The direction of a TCP candidate.

use crate::candidate_type::same_text;
use vstd::prelude::*;

verus! {

/// Which side of a TCP connection a candidate takes.
#[derive(Clone, Copy, Debug, PartialEq, Eq, Structural)]
pub enum TcpType {
    /// Not a TCP candidate, or the direction is not known.
    Unspecified,
    /// The candidate opens outbound connections and accepts none.
    Active,
    /// The candidate accepts inbound connections and opens none.
    Passive,
    /// The candidate opens a connection while its peer does the same.
    SimultaneousOpen,
}

impl TcpType {
    /// The name of the direction in a candidate line.
    pub open spec fn name(self) -> Seq<char> {
        match self {
            TcpType::Active => "active"@,
            TcpType::Passive => "passive"@,
            TcpType::SimultaneousOpen => "so"@,
            TcpType::Unspecified => "unspecified"@,
        }
    }

    /// The direction that a name stands for; an unknown name stands for
    /// `Unspecified`.
    pub open spec fn of_name(s: Seq<char>) -> TcpType {
        if s == "active"@ {
            TcpType::Active
        } else if s == "passive"@ {
            TcpType::Passive
        } else if s == "so"@ {
            TcpType::SimultaneousOpen
        } else {
            TcpType::Unspecified
        }
    }

    /// The name as a string slice.
    pub fn as_str(&self) -> (s: &'static str)
        ensures
            s@ == self.name(),
    {
        match self {
            TcpType::Active => "active",
            TcpType::Passive => "passive",
            TcpType::SimultaneousOpen => "so",
            TcpType::Unspecified => "unspecified",
        }
    }

    /// Renders the name.
    pub fn to_string(&self) -> (s: String)
        ensures
            s@ == self.name(),
    {
        self.as_str().to_owned()
    }

    /// Reads a direction from its name.
    pub fn from_name(word: &Vec<char>) -> (t: TcpType)
        ensures
            t == TcpType::of_name(word@),
    {
        if same_text(word, "active") {
            TcpType::Active
        } else if same_text(word, "passive") {
            TcpType::Passive
        } else if same_text(word, "so") {
            TcpType::SimultaneousOpen
        } else {
            TcpType::Unspecified
        }
    }
}

impl Default for TcpType {
    fn default() -> (t: TcpType)
        ensures
            t == TcpType::Unspecified,
    {
        TcpType::Unspecified
    }
}

} // verus!
