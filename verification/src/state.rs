//! The connection and gathering states of an agent.

use vstd::prelude::*;

verus! {

/// How far an agent has come in establishing a connection.
#[derive(Clone, Copy, Debug, PartialEq, Eq, Structural)]
pub enum ConnectionState {
    Unspecified,
    /// The agent is gathering addresses.
    New,
    /// The agent has local and remote candidates and is checking pairs.
    Checking,
    /// A usable pair has been selected.
    Connected,
    /// Every component has a nominated pair and checking has finished.
    Completed,
    /// No pair could be established.
    Failed,
    /// The selected pair stopped answering.
    Disconnected,
    /// The agent has shut down and handles no more requests.
    Closed,
}

impl ConnectionState {
    /// The state's name.
    pub open spec fn name(self) -> Seq<char> {
        match self {
            ConnectionState::Unspecified => "Unspecified"@,
            ConnectionState::New => "New"@,
            ConnectionState::Checking => "Checking"@,
            ConnectionState::Connected => "Connected"@,
            ConnectionState::Completed => "Completed"@,
            ConnectionState::Failed => "Failed"@,
            ConnectionState::Disconnected => "Disconnected"@,
            ConnectionState::Closed => "Closed"@,
        }
    }

    /// The state that a stored number stands for; numbers outside 1..=7 stand
    /// for `Unspecified`.
    pub open spec fn of_number(v: u8) -> ConnectionState {
        if v == 1 {
            ConnectionState::New
        } else if v == 2 {
            ConnectionState::Checking
        } else if v == 3 {
            ConnectionState::Connected
        } else if v == 4 {
            ConnectionState::Completed
        } else if v == 5 {
            ConnectionState::Failed
        } else if v == 6 {
            ConnectionState::Disconnected
        } else if v == 7 {
            ConnectionState::Closed
        } else {
            ConnectionState::Unspecified
        }
    }

    /// True for the two states in which a pair is selected.
    pub open spec fn has_selection(self) -> bool {
        self == ConnectionState::Connected || self == ConnectionState::Completed
    }

    /// Renders the state's name.
    pub fn to_string(&self) -> (s: String)
        ensures
            s@ == self.name(),
    {
        match self {
            ConnectionState::Unspecified => "Unspecified".to_owned(),
            ConnectionState::New => "New".to_owned(),
            ConnectionState::Checking => "Checking".to_owned(),
            ConnectionState::Connected => "Connected".to_owned(),
            ConnectionState::Completed => "Completed".to_owned(),
            ConnectionState::Failed => "Failed".to_owned(),
            ConnectionState::Disconnected => "Disconnected".to_owned(),
            ConnectionState::Closed => "Closed".to_owned(),
        }
    }

    /// Reads a state back from the number it is stored as.
    pub fn from_u8(v: u8) -> (s: ConnectionState)
        ensures
            s == ConnectionState::of_number(v),
    {
        match v {
            1 => ConnectionState::New,
            2 => ConnectionState::Checking,
            3 => ConnectionState::Connected,
            4 => ConnectionState::Completed,
            5 => ConnectionState::Failed,
            6 => ConnectionState::Disconnected,
            7 => ConnectionState::Closed,
            _ => ConnectionState::Unspecified,
        }
    }
}

impl Default for ConnectionState {
    fn default() -> (s: ConnectionState)
        ensures
            s == ConnectionState::Unspecified,
    {
        ConnectionState::Unspecified
    }
}

/// How far an agent has come in gathering its local candidates.
#[derive(Clone, Copy, Debug, PartialEq, Eq, Structural)]
pub enum GatheringState {
    Unspecified,
    /// Gathering has not started.
    New,
    /// Gathering is under way.
    Gathering,
    /// Every source has answered or the deadline has passed.
    Complete,
}

impl GatheringState {
    /// The state's name.
    pub open spec fn name(self) -> Seq<char> {
        match self {
            GatheringState::Unspecified => "unspecified"@,
            GatheringState::New => "new"@,
            GatheringState::Gathering => "gathering"@,
            GatheringState::Complete => "complete"@,
        }
    }

    /// The state that a stored number stands for; numbers outside 1..=3 stand
    /// for `Unspecified`.
    pub open spec fn of_number(v: u8) -> GatheringState {
        if v == 1 {
            GatheringState::New
        } else if v == 2 {
            GatheringState::Gathering
        } else if v == 3 {
            GatheringState::Complete
        } else {
            GatheringState::Unspecified
        }
    }

    /// Renders the state's name.
    pub fn to_string(&self) -> (s: String)
        ensures
            s@ == self.name(),
    {
        match self {
            GatheringState::Unspecified => "unspecified".to_owned(),
            GatheringState::New => "new".to_owned(),
            GatheringState::Gathering => "gathering".to_owned(),
            GatheringState::Complete => "complete".to_owned(),
        }
    }

    /// Reads a state back from the number it is stored as.
    pub fn from_u8(v: u8) -> (s: GatheringState)
        ensures
            s == GatheringState::of_number(v),
    {
        match v {
            1 => GatheringState::New,
            2 => GatheringState::Gathering,
            3 => GatheringState::Complete,
            _ => GatheringState::Unspecified,
        }
    }
}

impl Default for GatheringState {
    fn default() -> (s: GatheringState)
        ensures
            s == GatheringState::Unspecified,
    {
        GatheringState::Unspecified
    }
}

} // verus!
