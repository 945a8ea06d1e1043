//! The agent: the one owner of candidates, pairs, role and selection.
//!
//! Everything that happens to an agent is a call of one of its methods, one
//! at a time. The methods decide; sending, receiving and waiting are left to
//! the caller, who is told what to send.

pub use crate::agent_state::{
    AgentConfig, AgentState, CheckRequest, LivenessAction, TimeoutOutcome, Transaction,
    INITIAL_RTO, MAX_RETRANSMITS, SECOND,
};
use crate::agent_state::{
    lemma_inv_after_pair_changes, lemma_inv_carries, lemma_inv_without_pending, lemma_pair_place,
    retransmit_wait, time_since, transaction_id_from,
};
use crate::candidate_base::CandidateBase;
use crate::error::Error;
use crate::network_type::{NetworkType, SocketAddress};
use crate::pair::{CandidatePair, CandidatePairState};
use crate::role::Role;
use crate::state::{ConnectionState, GatheringState};
use crate::text::append_utf8;
use vstd::prelude::*;
use vstd::string::*;

verus! {

/// The agent.
pub struct Agent {
    role: Role,
    tie_breaker: u64,
    config: AgentConfig,
    remote_ufrag: String,
    remote_pwd: String,
    connection_state: ConnectionState,
    gathering_state: GatheringState,
    local_candidates: Vec<CandidateBase>,
    remote_candidates: Vec<CandidateBase>,
    pairs: Vec<CandidatePair>,
    selected: Option<usize>,
    triggered: Vec<usize>,
    pending: Vec<Transaction>,
    buffer: Vec<Vec<u8>>,
    disconnected_at: u64,
    last_consent_at: u64,
}

impl View for Agent {
    type V = AgentState;

    closed spec fn view(&self) -> AgentState {
        AgentState {
            role: self.role,
            tie_breaker: self.tie_breaker,
            config: self.config,
            remote_ufrag: self.remote_ufrag@,
            remote_pwd: self.remote_pwd@,
            connection_state: self.connection_state,
            gathering_state: self.gathering_state,
            locals: self.local_candidates@,
            remotes: self.remote_candidates@,
            pairs: self.pairs@,
            selected: self.selected,
            triggered: self.triggered@,
            pending: self.pending@,
            buffer: self.buffer@.map_values(|d: Vec<u8>| d@),
            disconnected_at: self.disconnected_at,
            last_consent_at: self.last_consent_at,
        }
    }
}

impl Agent {
    /// An agent is well formed when its state meets the invariant.
    pub open spec fn wf(&self) -> bool {
        self@.inv()
    }

    /// Makes an agent: new, with no candidates, in the role that the
    /// configuration names.
    pub fn new(config: AgentConfig) -> (a: Agent)
        ensures
            a@ == AgentState::initial(config),
            a.wf(),
    {
        let role = if config.is_controlling {
            Role::Controlling
        } else {
            Role::Controlled
        };
        let a = Agent {
            role,
            tie_breaker: config.tie_breaker,
            config,
            remote_ufrag: String::new(),
            remote_pwd: String::new(),
            connection_state: ConnectionState::New,
            gathering_state: GatheringState::New,
            local_candidates: Vec::new(),
            remote_candidates: Vec::new(),
            pairs: Vec::new(),
            selected: None,
            triggered: Vec::new(),
            pending: Vec::new(),
            buffer: Vec::new(),
            disconnected_at: 0,
            last_consent_at: 0,
        };
        assert(a@.buffer =~= Seq::<Seq<u8>>::empty());
        a
    }

    /// Returns the agent's connection state.
    pub fn connection_state(&self) -> (s: ConnectionState)
        ensures
            s == self@.connection_state,
    {
        self.connection_state
    }

    /// Returns the agent's gathering state.
    pub fn gathering_state(&self) -> (s: GatheringState)
        ensures
            s == self@.gathering_state,
    {
        self.gathering_state
    }

    /// Sets the agent's gathering state; a closed agent keeps its own.
    pub fn set_gathering_state(&mut self, state: GatheringState)
        requires
            old(self).wf(),
        ensures
            final(self).wf(),
            final(self)@ == if old(self)@.closed() {
                old(self)@
            } else {
                AgentState { gathering_state: state, ..old(self)@ }
            },
    {
        if !matches!(self.connection_state, ConnectionState::Closed) {
            self.gathering_state = state;
        }
    }

    /// Returns the agent's role.
    pub fn role(&self) -> (r: Role)
        ensures
            r == self@.role,
    {
        self.role
    }

    /// Returns the agent's tie-breaker.
    pub fn tie_breaker(&self) -> (t: u64)
        ensures
            t == self@.tie_breaker,
    {
        self.tie_breaker
    }

    /// Returns the selected pair, if a pair is selected.
    pub fn selected_pair(&self) -> (p: Option<CandidatePair>)
        requires
            self.wf(),
        ensures
            p == match self@.selected {
                Some(s) => Some(self@.pairs[s as int]),
                None => None,
            },
            p is Some <==> self@.connection_state.has_selection(),
    {
        match self.selected {
            Some(s) => Some(self.pairs[s]),
            None => None,
        }
    }

    /// Returns the number of pairs.
    pub fn pair_count(&self) -> (n: usize)
        ensures
            n == self@.pairs.len(),
    {
        self.pairs.len()
    }

    /// Returns the pair at a place in the agent's list.
    pub fn pair(&self, i: usize) -> (p: Option<CandidatePair>)
        ensures
            p == if i < self@.pairs.len() {
                Some(self@.pairs[i as int])
            } else {
                None
            },
    {
        if i < self.pairs.len() {
            Some(self.pairs[i])
        } else {
            None
        }
    }

    /// Returns the local candidates.
    pub fn get_local_candidates(&self) -> (c: &Vec<CandidateBase>)
        ensures
            c@ == self@.locals,
    {
        &self.local_candidates
    }

    /// Returns the remote candidates.
    pub fn get_remote_candidates(&self) -> (c: &Vec<CandidateBase>)
        ensures
            c@ == self@.remotes,
    {
        &self.remote_candidates
    }

    /// Finds the first candidate in a list that equals `c`.
    fn find_candidate(list: &Vec<CandidateBase>, c: &CandidateBase) -> (i: usize)
        ensures
            i == AgentState::place_of(list@, *c),
            i <= list@.len(),
    {
        let mut i: usize = 0;
        assert(list@.skip(0) =~= list@);
        while i < list.len()
            invariant
                i <= list@.len(),
                AgentState::place_of(list@, *c) == i + AgentState::place_of(list@.skip(i as int), *c),
            decreases list.len() - i,
        {
            if list[i].equal(c) {
                return i;
            }
            assert(list@.skip(i as int).drop_first() =~= list@.skip(i + 1));
            i = i + 1;
        }
        i
    }

    /// Computes the state in which a new pair starts.
    fn first_state(&self, l: usize, r: usize) -> (state: CandidatePairState)
        requires
            self@.pairs_refer_to_candidates(),
            l < self@.locals.len(),
            r < self@.remotes.len(),
        ensures
            state == self@.first_state(l as int, r as int),
    {
        let local_foundation = self.local_candidates[l].foundation();
        let remote_foundation = self.remote_candidates[r].foundation();
        let mut any_shares = false;
        let mut any_succeeded = false;
        let mut i: usize = 0;
        while i < self.pairs.len()
            invariant
                i <= self.pairs@.len(),
                self@.pairs_refer_to_candidates(),
                l < self@.locals.len(),
                r < self@.remotes.len(),
                local_foundation@ == self@.locals[l as int].foundation_text(),
                remote_foundation@ == self@.remotes[r as int].foundation_text(),
                any_shares <==> exists|j: int|
                    0 <= j < i && #[trigger] self@.shares_foundation(j, l as int, r as int),
                any_succeeded <==> exists|j: int|
                    0 <= j < i && #[trigger] self@.shares_foundation(j, l as int, r as int)
                        && self@.pairs[j].state == CandidatePairState::Succeeded,
            decreases self.pairs.len() - i,
        {
            let p = self.pairs[i];
            assert(self@.pairs[i as int].local < self@.locals.len());
            let shares = self.local_candidates[p.local].foundation() == local_foundation
                && self.remote_candidates[p.remote].foundation() == remote_foundation;
            assert(shares == self@.shares_foundation(i as int, l as int, r as int));
            if shares {
                any_shares = true;
                if matches!(p.state, CandidatePairState::Succeeded) {
                    any_succeeded = true;
                }
            }
            i = i + 1;
        }
        if any_shares && !any_succeeded {
            CandidatePairState::Frozen
        } else {
            CandidatePairState::Waiting
        }
    }

    /// Adds the pair of two candidates that are not paired yet.
    fn push_pair(&mut self, l: usize, r: usize)
        requires
            old(self).wf(),
            l < old(self)@.locals.len(),
            r < old(self)@.remotes.len(),
            forall|i: int|
                0 <= i < old(self)@.pairs.len() ==> !#[trigger] old(self)@.pair_is(
                    i,
                    l as int,
                    r as int,
                ),
        ensures
            final(self).wf(),
            final(self)@ == old(self)@.with_pair(l as int, r as int),
    {
        let state = self.first_state(l, r);
        let pair = CandidatePair::new(
            l,
            r,
            self.local_candidates[l].priority(),
            self.remote_candidates[r].priority(),
            state,
        );
        let ghost before = self@;
        self.pairs.push(pair);
        proof {
            assert(self@.pairs =~= before.with_pair(l as int, r as int).pairs);
            assert forall|i: int, j: int|
                0 <= i < self@.pairs.len() && 0 <= j < self@.pairs.len() && i != j implies !((
            #[trigger] self@.pairs[i]).local == (#[trigger] self@.pairs[j]).local
                && self@.pairs[i].remote == self@.pairs[j].remote) by {
                if i < before.pairs.len() {
                    assert(!before.pair_is(i, l as int, r as int));
                }
                if j < before.pairs.len() {
                    assert(!before.pair_is(j, l as int, r as int));
                }
            }
            assert forall|i: int| 0 <= i < self@.pairs.len() implies ((
            #[trigger] self@.pairs[i]).selected <==> self@.selected_is(i)) by {
                if i < before.pairs.len() {
                    assert(before.pairs[i].selected <==> before.selected_is(i));
                }
            }
        }
    }

    /// Adds a remote candidate and pairs it with the local candidates.
    ///
    /// Returns the candidate's place in the list of remote candidates: that of
    /// an equal candidate where one is known, and then nothing changes. A
    /// closed agent fails with `Closed`.
    pub fn add_remote_candidate(&mut self, c: CandidateBase) -> (r: Result<usize, Error>)
        requires
            old(self).wf(),
        ensures
            final(self).wf(),
            old(self)@.closed() ==> r == Err::<usize, Error>(Error::Closed) && final(self)@ == old(
                self,
            )@,
            !old(self)@.closed() ==> final(self)@ == old(self)@.with_remote(c) && r == Ok::<
                usize,
                Error,
            >(AgentState::place_of(old(self)@.remotes, c) as usize),
            r matches Ok(place) ==> place < final(self)@.remotes.len() && place
                == AgentState::place_of(old(self)@.remotes, c),
            final(self)@.locals == old(self)@.locals,
            final(self)@.remotes == old(self)@.remotes || final(self)@.remotes == old(
                self,
            )@.remotes.push(c),
            final(self)@.connection_state == old(self)@.connection_state,
            final(self)@.role == old(self)@.role,
            final(self)@.tie_breaker == old(self)@.tie_breaker,
    {
        if matches!(self.connection_state, ConnectionState::Closed) {
            return Err(Error::Closed);
        }
        let place = Self::find_candidate(&self.remote_candidates, &c);
        if place < self.remote_candidates.len() {
            return Ok(place);
        }
        let ghost before = self@;
        self.remote_candidates.push(c);
        let ghost base = self@;
        assert(base == (AgentState { remotes: before.remotes.push(c), ..before }));
        let mut l: usize = 0;
        while l < self.local_candidates.len()
            invariant
                l <= self@.locals.len(),
                self.wf(),
                base.locals == self@.locals,
                base.remotes == self@.remotes,
                base.remotes.len() == place + 1,
                self@.connection_state == base.connection_state,
                self@.role == base.role,
                self@.tie_breaker == base.tie_breaker,
                self@ == base.paired_with_newest_remote(l as nat),
                forall|i: int|
                    0 <= i < self@.pairs.len() && (#[trigger] self@.pairs[i]).remote == place
                        ==> self@.pairs[i].local < l,
            decreases self.local_candidates.len() - l,
        {
            let pairable = self.local_candidates[l].component == self.remote_candidates[place].component
                && self.local_candidates[l].network_type
                == self.remote_candidates[place].network_type;
            if pairable {
                assert forall|i: int| 0 <= i < self@.pairs.len() implies !#[trigger] self@.pair_is(
                    i,
                    l as int,
                    place as int,
                ) by {
                    if self@.pairs[i].remote == place {
                        assert(self@.pairs[i].local < l);
                    }
                }
                self.push_pair(l, place);
            }
            l = l + 1;
        }
        Ok(place)
    }

    /// Adds a local candidate and pairs it with the remote candidates.
    ///
    /// Returns the candidate's place in the list of local candidates: that of
    /// an equal candidate where one is known, and then nothing changes. A
    /// closed agent fails with `Closed`.
    pub fn add_local_candidate(&mut self, c: CandidateBase) -> (r: Result<usize, Error>)
        requires
            old(self).wf(),
        ensures
            final(self).wf(),
            old(self)@.closed() ==> r == Err::<usize, Error>(Error::Closed) && final(self)@ == old(
                self,
            )@,
            !old(self)@.closed() ==> final(self)@ == old(self)@.with_local(c) && r == Ok::<
                usize,
                Error,
            >(AgentState::place_of(old(self)@.locals, c) as usize),
            r matches Ok(place) ==> place < final(self)@.locals.len() && place
                == AgentState::place_of(old(self)@.locals, c),
            final(self)@.remotes == old(self)@.remotes,
            final(self)@.locals == old(self)@.locals || final(self)@.locals == old(
                self,
            )@.locals.push(c),
            final(self)@.connection_state == old(self)@.connection_state,
            final(self)@.role == old(self)@.role,
            final(self)@.tie_breaker == old(self)@.tie_breaker,
    {
        if matches!(self.connection_state, ConnectionState::Closed) {
            return Err(Error::Closed);
        }
        let place = Self::find_candidate(&self.local_candidates, &c);
        if place < self.local_candidates.len() {
            return Ok(place);
        }
        let ghost before = self@;
        self.local_candidates.push(c);
        let ghost base = self@;
        assert(base == (AgentState { locals: before.locals.push(c), ..before }));
        let mut r: usize = 0;
        while r < self.remote_candidates.len()
            invariant
                r <= self@.remotes.len(),
                self.wf(),
                base.locals == self@.locals,
                base.remotes == self@.remotes,
                base.locals.len() == place + 1,
                self@.connection_state == base.connection_state,
                self@.role == base.role,
                self@.tie_breaker == base.tie_breaker,
                self@ == base.paired_with_newest_local(r as nat),
                forall|i: int|
                    0 <= i < self@.pairs.len() && (#[trigger] self@.pairs[i]).local == place
                        ==> self@.pairs[i].remote < r,
            decreases self.remote_candidates.len() - r,
        {
            let pairable = self.local_candidates[place].component == self.remote_candidates[r].component
                && self.local_candidates[place].network_type
                == self.remote_candidates[r].network_type;
            if pairable {
                assert forall|i: int| 0 <= i < self@.pairs.len() implies !#[trigger] self@.pair_is(
                    i,
                    place as int,
                    r as int,
                ) by {
                    if self@.pairs[i].local == place {
                        assert(self@.pairs[i].remote < r);
                    }
                }
                self.push_pair(place, r);
            }
            r = r + 1;
        }
        Ok(place)
    }

    /// Starts connectivity checks with the peer's credentials.
    ///
    /// A closed agent fails with `Closed` and is left as it was.
    pub fn start_connectivity_checks(&mut self, remote_ufrag: String, remote_pwd: String) -> (r:
        Result<(), Error>)
        requires
            old(self).wf(),
        ensures
            final(self).wf(),
            old(self)@.closed() ==> r == Err::<(), Error>(Error::Closed) && final(self)@ == old(
                self,
            )@,
            !old(self)@.closed() ==> r is Ok && final(self)@ == old(self)@.started(
                remote_ufrag@,
                remote_pwd@,
            ),
    {
        if matches!(self.connection_state, ConnectionState::Closed) {
            return Err(Error::Closed);
        }
        self.remote_ufrag = remote_ufrag;
        self.remote_pwd = remote_pwd;
        if matches!(self.connection_state, ConnectionState::New) {
            self.connection_state = ConnectionState::Checking;
        }
        Ok(())
    }

    /// Starts connectivity checks as the controlling agent.
    ///
    /// A closed agent fails with `Closed` and is left as it was.
    pub fn dial(&mut self, remote_ufrag: String, remote_pwd: String) -> (r: Result<(), Error>)
        requires
            old(self).wf(),
        ensures
            final(self).wf(),
            old(self)@.closed() ==> r == Err::<(), Error>(Error::Closed) && final(self)@ == old(
                self,
            )@,
            !old(self)@.closed() ==> r is Ok && final(self)@ == old(self)@.started_as(
                Role::Controlling,
                remote_ufrag@,
                remote_pwd@,
            ),
    {
        match self.start_connectivity_checks(remote_ufrag, remote_pwd) {
            Ok(()) => {
                self.set_role(Role::Controlling);
                Ok(())
            },
            Err(e) => Err(e),
        }
    }

    /// Starts connectivity checks as the controlled agent.
    ///
    /// A closed agent fails with `Closed` and is left as it was.
    pub fn accept(&mut self, remote_ufrag: String, remote_pwd: String) -> (r: Result<(), Error>)
        requires
            old(self).wf(),
        ensures
            final(self).wf(),
            old(self)@.closed() ==> r == Err::<(), Error>(Error::Closed) && final(self)@ == old(
                self,
            )@,
            !old(self)@.closed() ==> r is Ok && final(self)@ == old(self)@.started_as(
                Role::Controlled,
                remote_ufrag@,
                remote_pwd@,
            ),
    {
        match self.start_connectivity_checks(remote_ufrag, remote_pwd) {
            Ok(()) => {
                self.set_role(Role::Controlled);
                Ok(())
            },
            Err(e) => Err(e),
        }
    }

    /// Closes the agent.
    ///
    /// The first call succeeds and leaves the agent closed, with no pair
    /// selected and nothing left to send; every later call fails with
    /// `Closed` and changes nothing.
    pub fn close(&mut self) -> (r: Result<(), Error>)
        requires
            old(self).wf(),
        ensures
            final(self).wf(),
            final(self)@.closed(),
            old(self)@.closed() ==> r == Err::<(), Error>(Error::Closed) && final(self)@ == old(
                self,
            )@,
            !old(self)@.closed() ==> r is Ok && final(self)@ == old(self)@.closed_down(),
    {
        if matches!(self.connection_state, ConnectionState::Closed) {
            return Err(Error::Closed);
        }
        let ghost before = self@;
        assert(before.selection_is_single());
        self.connection_state = ConnectionState::Closed;
        match self.selected {
            Some(s) => {
                let mut p = self.pairs[s];
                p.selected = false;
                self.pairs.set(s, p);
                assert(self.pairs@ == before.pairs.update(s as int, p));
            },
            None => {
                assert(self.pairs@ == before.pairs);
            },
        }
        self.selected = None;
        self.triggered = Vec::new();
        self.pending = Vec::new();
        proof {
            assert forall|k: int| 0 <= k < before.pairs.len() implies self.pairs@[k] == (
            CandidatePair { selected: false, ..before.pairs[k] }) by {
                assert(before.pairs[k].selected <==> before.selected_is(k));
            }
            assert(self.pairs@ =~= before.pairs_without_selection());
        }
        let mut i: usize = 0;
        while i < self.local_candidates.len()
            invariant
                i <= self.local_candidates@.len(),
                self.local_candidates@.len() == before.locals.len(),
                forall|j: int|
                    0 <= j < i ==> self.local_candidates@[j] == (CandidateBase {
                        running: false,
                        closed: true,
                        ..before.locals[j]
                    }),
                forall|j: int|
                    i <= j < before.locals.len() ==> self.local_candidates@[j] == before.locals[j],
                self@ == (AgentState { locals: self.local_candidates@, ..self@ }),
                self.role == before.role,
                self.tie_breaker == before.tie_breaker,
                self.config == before.config,
                self.remote_ufrag@ == before.remote_ufrag,
                self.remote_pwd@ == before.remote_pwd,
                self.connection_state == ConnectionState::Closed,
                self.gathering_state == before.gathering_state,
                self.remote_candidates@ == before.remotes,
                self.pairs@ == before.pairs_without_selection(),
                self.selected is None,
                self.triggered@.len() == 0,
                self.pending@.len() == 0,
                self@.buffer == before.buffer,
                self.disconnected_at == before.disconnected_at,
                self.last_consent_at == before.last_consent_at,
            decreases self.local_candidates.len() - i,
        {
            self.local_candidates[i].running = false;
            self.local_candidates[i].closed = true;
            i = i + 1;
        }
        proof {
            assert(self@.locals =~= before.locals_stopped());
            assert(self@.triggered =~= Seq::<usize>::empty());
            assert(self@.pending =~= Seq::<Transaction>::empty());
        }
        Ok(())
    }
}

impl Agent {
    /// Finds the best pair in a state.
    fn best_pair_in(&self, wanted: CandidatePairState) -> (best: Option<usize>)
        ensures
            best == self@.best_in_state(wanted, self@.pairs.len()),
            best matches Some(b) ==> b < self@.pairs.len() && self@.pairs[b as int].state == wanted,
    {
        let mut best: Option<usize> = None;
        let mut i: usize = 0;
        while i < self.pairs.len()
            invariant
                i <= self.pairs@.len(),
                best == self@.best_in_state(wanted, i as nat),
                best matches Some(b) ==> b < i && self@.pairs[b as int].state == wanted,
            decreases self.pairs.len() - i,
        {
            if self.pairs[i].state == wanted {
                match best {
                    None => {
                        best = Some(i);
                    },
                    Some(b) => {
                        if self.pairs[i].priority(self.role) > self.pairs[b].priority(self.role) {
                            best = Some(i);
                        }
                    },
                }
            }
            i = i + 1;
        }
        best
    }

    /// Tells whether a frozen pair can thaw.
    fn can_thaw(&self, i: usize) -> (b: bool)
        requires
            self.wf(),
            i < self@.pairs.len(),
        ensures
            b == self@.can_thaw(i as int),
    {
        let own = self.pairs[i];
        if !matches!(own.state, CandidatePairState::Frozen) {
            return false;
        }
        assert(self@.pairs[i as int].local < self@.locals.len());
        let local_foundation = self.local_candidates[own.local].foundation();
        let remote_foundation = self.remote_candidates[own.remote].foundation();
        let mut j: usize = 0;
        while j < self.pairs.len()
            invariant
                j <= self.pairs@.len(),
                self.wf(),
                i < self@.pairs.len(),
                own == self@.pairs[i as int],
                own.state == CandidatePairState::Frozen,
                local_foundation@ == self@.locals[own.local as int].foundation_text(),
                remote_foundation@ == self@.remotes[own.remote as int].foundation_text(),
                forall|k: int| 0 <= k < j ==> !#[trigger] self@.holds_back(k, i as int),
            decreases self.pairs.len() - j,
        {
            let p = self.pairs[j];
            assert(self@.pairs[j as int].local < self@.locals.len());
            if matches!(p.state, CandidatePairState::InProgress)
                && self.local_candidates[p.local].foundation() == local_foundation
                && self.remote_candidates[p.remote].foundation() == remote_foundation {
                assert(self@.holds_back(j as int, i as int));
                return false;
            }
            j = j + 1;
        }
        true
    }

    /// Finds the best frozen pair that can thaw.
    fn best_thawable(&self) -> (best: Option<usize>)
        requires
            self.wf(),
        ensures
            best == self@.best_thawable(self@.pairs.len()),
            best matches Some(b) ==> b < self@.pairs.len(),
    {
        let mut best: Option<usize> = None;
        let mut i: usize = 0;
        while i < self.pairs.len()
            invariant
                i <= self.pairs@.len(),
                self.wf(),
                best == self@.best_thawable(i as nat),
                best matches Some(b) ==> b < i,
            decreases self.pairs.len() - i,
        {
            if self.can_thaw(i) {
                match best {
                    None => {
                        best = Some(i);
                    },
                    Some(b) => {
                        if self.pairs[i].priority(self.role) > self.pairs[b].priority(self.role) {
                            best = Some(i);
                        }
                    },
                }
            }
            i = i + 1;
        }
        best
    }

    /// Tells whether a check with a transaction identifier is pending.
    fn id_is_pending(&self, id: u128) -> (b: bool)
        ensures
            b == self@.id_is_pending(id),
    {
        let mut k: usize = 0;
        while k < self.pending.len()
            invariant
                k <= self.pending@.len(),
                forall|j: int| 0 <= j < k ==> (#[trigger] self@.pending[j]).id != id,
            decreases self.pending.len() - k,
        {
            if self.pending[k].id == id {
                return true;
            }
            k = k + 1;
        }
        false
    }

    /// Tells whether some nominated pair has a local candidate of a
    /// component.
    fn component_is_nominated(&self, component: u16) -> (b: bool)
        requires
            self.wf(),
        ensures
            b == self@.component_is_nominated(component),
    {
        let mut i: usize = 0;
        while i < self.pairs.len()
            invariant
                i <= self.pairs@.len(),
                self.wf(),
                forall|j: int| 0 <= j < i ==> !#[trigger] self@.nominated_for(j, component),
            decreases self.pairs.len() - i,
        {
            let p = self.pairs[i];
            assert(self@.pairs[i as int].local < self@.locals.len());
            if p.nominated && self.local_candidates[p.local].component == component {
                assert(self@.nominated_for(i as int, component));
                return true;
            }
            i = i + 1;
        }
        false
    }

    /// Tells whether the agent's pairs are complete.
    fn is_complete(&self) -> (b: bool)
        requires
            self.wf(),
        ensures
            b == self@.is_complete(),
    {
        let mut l: usize = 0;
        while l < self.local_candidates.len()
            invariant
                l <= self.local_candidates@.len(),
                self.wf(),
                forall|j: int|
                    0 <= j < l ==> self@.component_is_nominated(
                        (#[trigger] self@.locals[j]).component,
                    ),
            decreases self.local_candidates.len() - l,
        {
            if !self.component_is_nominated(self.local_candidates[l].component) {
                return false;
            }
            l = l + 1;
        }
        let mut i: usize = 0;
        while i < self.pairs.len()
            invariant
                i <= self.pairs@.len(),
                forall|j: int|
                    0 <= j < i ==> (#[trigger] self@.pairs[j]).nominated
                        || self@.pairs[j].state.resolved(),
            decreases self.pairs.len() - i,
        {
            if !self.pairs[i].nominated && !self.pairs[i].state.is_resolved() {
                return false;
            }
            i = i + 1;
        }
        true
    }

    /// Looks whether the agent is done, and completes it where it is.
    pub(crate) fn settle(&mut self)
        requires
            old(self).wf(),
        ensures
            final(self).wf(),
            final(self)@ == old(self)@.settled(),
    {
        if matches!(self.connection_state, ConnectionState::Connected) && self.is_complete() {
            self.connection_state = ConnectionState::Completed;
        }
    }

    /// Replaces a pair by one that differs in state, nomination or count.
    pub(crate) fn change_pair(&mut self, i: usize, p: CandidatePair)
        requires
            old(self).wf(),
            i < old(self)@.pairs.len(),
            p.local == old(self)@.pairs[i as int].local,
            p.remote == old(self)@.pairs[i as int].remote,
            p.local_priority == old(self)@.pairs[i as int].local_priority,
            p.remote_priority == old(self)@.pairs[i as int].remote_priority,
            p.selected == old(self)@.pairs[i as int].selected,
            p.selected ==> p.nominated && p.state == CandidatePairState::Succeeded,
        ensures
            final(self).wf(),
            final(self)@ == old(self)@.with_pair_at(i as int, p),
    {
        proof {
            lemma_inv_after_pair_changes(self@, self@.pairs.update(i as int, p));
        }
        self.pairs.set(i, p);
    }

    /// Notes that the check of a pair succeeded.
    pub(crate) fn apply_success(&mut self, i: usize)
        requires
            old(self).wf(),
            i < old(self)@.pairs.len(),
        ensures
            final(self).wf(),
            final(self)@ == old(self)@.with_success(i as int),
    {
        let ghost before = self@;
        let ghost target = before.with_success(i as int).pairs;
        let own = self.pairs[i];
        assert(before.pairs[i as int].local < before.locals.len());
        let local_foundation = self.local_candidates[own.local].foundation();
        let remote_foundation = self.remote_candidates[own.remote].foundation();
        let mut j: usize = 0;
        while j < self.pairs.len()
            invariant
                j <= self.pairs@.len(),
                i < before.pairs.len(),
                before.inv(),
                own == before.pairs[i as int],
                target == before.with_success(i as int).pairs,
                self.pairs@.len() == before.pairs.len(),
                self@ == (AgentState { pairs: self.pairs@, ..before }),
                local_foundation@ == before.locals[own.local as int].foundation_text(),
                remote_foundation@ == before.remotes[own.remote as int].foundation_text(),
                forall|k: int| 0 <= k < j ==> self.pairs@[k] == target[k],
                forall|k: int| j <= k < before.pairs.len() ==> self.pairs@[k] == before.pairs[k],
            decreases self.pairs.len() - j,
        {
            let mut p = self.pairs[j];
            assert(before.pairs[j as int].local < before.locals.len());
            if j == i {
                p.state = CandidatePairState::Succeeded;
                self.pairs.set(j, p);
            } else if matches!(p.state, CandidatePairState::Frozen) {
                let shares = self.local_candidates[p.local].foundation() == local_foundation
                    && self.remote_candidates[p.remote].foundation() == remote_foundation;
                assert(shares == before.shares_foundation(
                    j as int,
                    own.local as int,
                    own.remote as int,
                ));
                if shares {
                    p.state = CandidatePairState::Waiting;
                    self.pairs.set(j, p);
                }
            }
            j = j + 1;
        }
        proof {
            assert(self.pairs@ =~= target);
            assert forall|k: int| 0 <= k < target.len() implies {
                &&& (#[trigger] target[k]).local == before.pairs[k].local
                &&& target[k].remote == before.pairs[k].remote
                &&& target[k].local_priority == before.pairs[k].local_priority
                &&& target[k].remote_priority == before.pairs[k].remote_priority
                &&& target[k].selected == before.pairs[k].selected
                &&& target[k].selected ==> target[k].nominated && target[k].state
                    == CandidatePairState::Succeeded
            } by {
                assert(before.pairs[k].selected ==> before.pairs[k].nominated
                    && before.pairs[k].state == CandidatePairState::Succeeded);
            }
            lemma_inv_after_pair_changes(before, target);
        }
    }

    /// Nominates a pair, and selects it where it is the first.
    pub(crate) fn apply_nomination(&mut self, i: usize)
        requires
            old(self).wf(),
            i < old(self)@.pairs.len(),
        ensures
            final(self).wf(),
            final(self)@ == old(self)@.with_nomination(i as int),
    {
        let mut p = self.pairs[i];
        if !matches!(p.state, CandidatePairState::Succeeded) {
            return ;
        }
        let ghost before = self@;
        assert(before.pairs[i as int].selected <==> before.selected_is(i as int));
        let selects = self.selected.is_none() && (matches!(
            self.connection_state,
            ConnectionState::Checking
        ) || matches!(self.connection_state, ConnectionState::Disconnected));
        p.nominated = true;
        if selects {
            p.selected = true;
            self.pairs.set(i, p);
            self.selected = Some(i);
            self.connection_state = ConnectionState::Connected;
            proof {
                assert forall|k: int| 0 <= k < self@.pairs.len() implies ((
                #[trigger] self@.pairs[k]).selected <==> self@.selected_is(k)) by {
                    assert(before.pairs[k].selected <==> before.selected_is(k));
                }
                assert forall|k: int| 0 <= k < self@.pairs.len() implies {
                    &&& (#[trigger] self@.pairs[k]).local < self@.locals.len()
                    &&& self@.pairs[k].remote < self@.remotes.len()
                    &&& self@.pairs[k].local_priority
                        == self@.locals[self@.pairs[k].local as int].priority_value()
                    &&& self@.pairs[k].remote_priority
                        == self@.remotes[self@.pairs[k].remote as int].priority_value()
                } by {
                    assert(before.pairs[k].local < before.locals.len());
                }
                assert forall|k: int, l: int|
                    0 <= k < self@.pairs.len() && 0 <= l < self@.pairs.len() && k != l implies !((
                #[trigger] self@.pairs[k]).local == (#[trigger] self@.pairs[l]).local
                    && self@.pairs[k].remote == self@.pairs[l].remote) by {
                    assert(!(before.pairs[k].local == before.pairs[l].local
                        && before.pairs[k].remote == before.pairs[l].remote));
                }
                assert forall|k: int| 0 <= k < self@.pairs.len() && (
                #[trigger] self@.pairs[k]).selected implies self@.pairs[k].nominated
                    && self@.pairs[k].state == CandidatePairState::Succeeded by {
                    assert(before.pairs[k].selected <==> before.selected_is(k));
                }
                assert forall|k: int| 0 <= k < self@.triggered.len() implies (
                #[trigger] self@.triggered[k]) < self@.pairs.len() by {
                    assert(before.triggered[k] < before.pairs.len());
                }
                assert forall|k: int| 0 <= k < self@.pending.len() implies (
                #[trigger] self@.pending[k]).pair < self@.pairs.len() by {
                    assert(before.pending[k].pair < before.pairs.len());
                }
            }
        } else {
            self.change_pair(i, p);
        }
    }

    /// Starts a check on a pair and records its transaction.
    fn start_check(&mut self, i: usize, id: u128, use_candidate: bool, now: u64) -> (request:
        CheckRequest)
        requires
            old(self).wf(),
            !old(self)@.closed(),
            i < old(self)@.pairs.len(),
            !old(self)@.id_is_pending(id),
            old(self)@.pairs[i as int].binding_request_count < u16::MAX,
        ensures
            final(self).wf(),
            final(self)@ == old(self)@.with_check_started(i, id, use_candidate, now),
            request == old(self)@.request_for(i, id, use_candidate),
    {
        let ghost before = self@;
        let mut p = self.pairs[i];
        if !matches!(p.state, CandidatePairState::Succeeded) {
            p.state = CandidatePairState::InProgress;
        }
        p.binding_request_count = p.binding_request_count + 1;
        self.change_pair(i, p);
        let ghost middle = self@;
        self.pending.push(
            Transaction {
                id,
                pair: i,
                sent_as: self.role,
                use_candidate,
                retransmits: 0,
                deadline: now.saturating_add(INITIAL_RTO),
            },
        );
        proof {
            assert(self@.pending =~= before.with_check_started(i, id, use_candidate, now).pending);
            assert forall|k: int, l: int|
                0 <= k < self@.pending.len() && 0 <= l < self@.pending.len() && k != l implies (
            #[trigger] self@.pending[k]).id != (#[trigger] self@.pending[l]).id by {
                if k < middle.pending.len() && l < middle.pending.len() {
                    assert(middle.pending[k].id != middle.pending[l].id);
                } else if k < middle.pending.len() {
                    assert(middle.pending[k].id != id);
                } else {
                    assert(middle.pending[l].id != id);
                }
            }
            assert forall|k: int| 0 <= k < self@.pending.len() implies (
            #[trigger] self@.pending[k]).pair < self@.pairs.len() by {
                if k < middle.pending.len() {
                    assert(middle.pending[k].pair < middle.pairs.len());
                }
            }
        }
        CheckRequest {
            pair: i,
            transaction_id: id,
            role: self.role,
            tie_breaker: self.tie_breaker,
            use_candidate,
        }
    }

    /// Tells whether checks are sent in the agent's state.
    fn can_check(&self) -> (b: bool)
        ensures
            b == self@.can_check(),
    {
        matches!(
            self.connection_state,
            ConnectionState::Checking | ConnectionState::Connected | ConnectionState::Disconnected
        )
    }

    /// One turn of the check pacer: starts the check that is due, if any, and
    /// returns the request to send. `fresh` is a number that the caller has
    /// drawn at random; its low 96 bits are the transaction identifier.
    ///
    /// A closed agent starts no check.
    pub fn tick(&mut self, now: u64, fresh: u128) -> (r: Option<CheckRequest>)
        requires
            old(self).wf(),
        ensures
            final(self).wf(),
            (final(self)@, r) == old(self)@.ticked(now, transaction_id_from(fresh)),
            old(self)@.closed() ==> r is None && final(self)@ == old(self)@,
    {
        let fresh_id = short_id(fresh);
        if !self.can_check() || self.id_is_pending(fresh_id) {
            return None;
        }
        let ghost before = self@;
        let next = if self.triggered.len() > 0 {
            let last = self.triggered.pop();
            match last {
                Some(i) => Some(i),
                None => None,
            }
        } else {
            match self.best_pair_in(CandidatePairState::Waiting) {
                Some(i) => Some(i),
                None => self.best_thawable(),
            }
        };
        assert(next == before.next_pair());
        assert(self@ == (AgentState { triggered: before.triggered_without_next(), ..before }));
        proof {
            assert forall|k: int, l: int|
                0 <= k < self@.triggered.len() && 0 <= l < self@.triggered.len() && k != l implies self@.triggered[k]
                != self@.triggered[l] by {
                assert(before.triggered[k] != before.triggered[l]);
            }
            assert forall|k: int| 0 <= k < self@.triggered.len() implies (
            #[trigger] self@.triggered[k]) < self@.pairs.len() by {
                assert(before.triggered[k] < before.pairs.len());
            }
        }
        match next {
            None => {
                self.settle();
                None
            },
            Some(i) => {
                assert(i < before.pairs.len()) by {
                    if before.triggered.len() > 0 {
                        assert(before.triggered[before.triggered.len() - 1] < before.pairs.len());
                    }
                }
                let p = self.pairs[i];
                assert(before.pairs[i as int].selected ==> before.pairs[i as int].nominated
                    && before.pairs[i as int].state == CandidatePairState::Succeeded);
                if p.binding_request_count >= self.config.max_binding_requests {
                    let mut q = p;
                    if !matches!(q.state, CandidatePairState::Succeeded) {
                        q.state = CandidatePairState::Failed;
                    }
                    self.change_pair(i, q);
                    self.settle();
                    None
                } else {
                    let use_candidate = self.role.is_controlling()
                        && self.config.aggressive_nomination;
                    Some(self.start_check(i, fresh_id, use_candidate, now))
                }
            },
        }
    }

    /// Nominates by the rules of regular nomination: a controlling agent
    /// sends a check with USE-CANDIDATE on the best pair whose check has
    /// succeeded. `fresh` is a number drawn at random; its low 96 bits are
    /// the transaction identifier.
    ///
    /// A closed agent sends nothing.
    pub fn nominate_best(&mut self, now: u64, fresh: u128) -> (r: Option<CheckRequest>)
        requires
            old(self).wf(),
        ensures
            final(self).wf(),
            (final(self)@, r) == old(self)@.nominating(now, transaction_id_from(fresh)),
            old(self)@.closed() ==> r is None && final(self)@ == old(self)@,
    {
        let fresh_id = short_id(fresh);
        if !self.can_check() || self.id_is_pending(fresh_id) || !self.role.is_controlling() {
            return None;
        }
        match self.best_pair_in(CandidatePairState::Succeeded) {
            None => None,
            Some(i) => {
                if self.pairs[i].binding_request_count >= self.config.max_binding_requests {
                    None
                } else {
                    Some(self.start_check(i, fresh_id, true, now))
                }
            },
        }
    }
}

/// The time to wait after a retransmission.
fn wait_after(n: u8) -> (w: u64)
    requires
        n <= MAX_RETRANSMITS,
    ensures
        w == retransmit_wait(n as nat),
{
    proof {
        reveal_with_fuel(retransmit_wait, 9);
    }
    match n {
        0 => 500_000_000,
        1 => 1_000_000_000,
        2 => 2_000_000_000,
        3 => 4_000_000_000,
        4 => 8_000_000_000,
        5 => 16_000_000_000,
        6 => 32_000_000_000,
        _ => 64_000_000_000,
    }
}

/// The low 96 bits of a number.
fn short_id(fresh: u128) -> (id: u128)
    ensures
        id == transaction_id_from(fresh),
{
    fresh % 0x1_0000_0000_0000_0000_0000_0000
}

/// The time that has passed between two readings of the clock.
fn elapsed(now: u64, then: u64) -> (d: u64)
    ensures
        d == time_since(now, then),
{
    if now >= then {
        now - then
    } else {
        0
    }
}

impl Agent {
    /// Finds the first pending check whose time has run out.
    fn find_expired(&self, now: u64) -> (k: usize)
        ensures
            k == AgentState::expired_place(self@.pending, now),
            k <= self@.pending.len(),
    {
        let mut k: usize = 0;
        assert(self@.pending.skip(0) =~= self@.pending);
        while k < self.pending.len()
            invariant
                k <= self.pending@.len(),
                AgentState::expired_place(self@.pending, now) == k + AgentState::expired_place(
                    self@.pending.skip(k as int),
                    now,
                ),
            decreases self.pending.len() - k,
        {
            if self.pending[k].deadline <= now {
                return k;
            }
            assert(self@.pending.skip(k as int).drop_first() =~= self@.pending.skip(k + 1));
            k = k + 1;
        }
        k
    }

    /// Finds the pending check with a transaction identifier.
    pub(crate) fn find_pending(&self, id: u128) -> (k: usize)
        ensures
            k == AgentState::pending_place(self@.pending, id),
            k <= self@.pending.len(),
    {
        let mut k: usize = 0;
        assert(self@.pending.skip(0) =~= self@.pending);
        while k < self.pending.len()
            invariant
                k <= self.pending@.len(),
                AgentState::pending_place(self@.pending, id) == k + AgentState::pending_place(
                    self@.pending.skip(k as int),
                    id,
                ),
            decreases self.pending.len() - k,
        {
            if self.pending[k].id == id {
                return k;
            }
            assert(self@.pending.skip(k as int).drop_first() =~= self@.pending.skip(k + 1));
            k = k + 1;
        }
        k
    }

    /// Removes a pending check.
    pub(crate) fn drop_pending(&mut self, k: usize) -> (t: Transaction)
        requires
            old(self).wf(),
            k < old(self)@.pending.len(),
        ensures
            final(self).wf(),
            t == old(self)@.pending[k as int],
            final(self)@ == (AgentState { pending: old(self)@.pending.remove(k as int), ..old(self)@ }),
    {
        proof {
            lemma_inv_without_pending(self@, k as int);
        }
        self.pending.remove(k)
    }

    /// Deals with the first pending check whose time has run out: it is sent
    /// again, or given up after the last retransmission.
    ///
    /// A closed agent has no pending checks, and nothing happens.
    pub fn expire(&mut self, now: u64) -> (r: TimeoutOutcome)
        requires
            old(self).wf(),
        ensures
            final(self).wf(),
            (final(self)@, r) == old(self)@.expired(now),
            old(self)@.closed() ==> r == TimeoutOutcome::Nothing && final(self)@ == old(self)@,
    {
        let k = self.find_expired(now);
        if k >= self.pending.len() {
            return TimeoutOutcome::Nothing;
        }
        let ghost before = self@;
        let t = self.pending[k];
        assert(before.pending[k as int].pair < before.pairs.len());
        if t.retransmits < MAX_RETRANSMITS {
            let again = Transaction {
                sent_as: self.role,
                retransmits: t.retransmits + 1,
                deadline: now.saturating_add(wait_after(t.retransmits + 1)),
                ..t
            };
            self.pending.set(k, again);
            proof {
                assert(before.triggered_is_sound());
                assert(self@.triggered == before.triggered);
                assert(self@.pairs == before.pairs);
                assert(self@.triggered_is_sound());
                assert forall|a: int, b: int|
                    0 <= a < self@.pending.len() && 0 <= b < self@.pending.len() && a != b implies (
                #[trigger] self@.pending[a]).id != (#[trigger] self@.pending[b]).id by {
                    assert(before.pending[a].id != before.pending[b].id);
                }
                assert forall|a: int| 0 <= a < self@.pending.len() implies (
                #[trigger] self@.pending[a]).pair < self@.pairs.len() by {
                    assert(before.pending[a].pair < before.pairs.len());
                }
            }
            TimeoutOutcome::Retransmit {
                request: CheckRequest {
                    pair: t.pair,
                    transaction_id: t.id,
                    role: self.role,
                    tie_breaker: self.tie_breaker,
                    use_candidate: t.use_candidate,
                },
            }
        } else {
            self.drop_pending(k);
            let mut p = self.pairs[t.pair];
            assert(before.pairs[t.pair as int].selected ==> before.pairs[t.pair as int].state
                == CandidatePairState::Succeeded);
            if matches!(p.state, CandidatePairState::InProgress) {
                p.state = CandidatePairState::Failed;
            }
            self.change_pair(t.pair, p);
            self.settle();
            TimeoutOutcome::GaveUp { pair: t.pair }
        }
    }

    /// Sets a time stamp on a local candidate.
    pub(crate) fn stamp_local(&mut self, l: usize, outbound: bool, now: u64)
        requires
            old(self).wf(),
            l < old(self)@.locals.len(),
        ensures
            final(self).wf(),
            final(self)@ == old(self)@.with_local_stamp(l as int, outbound, now),
    {
        let ghost before = self@;
        if outbound {
            self.local_candidates[l].last_sent = now;
        } else {
            self.local_candidates[l].last_received = now;
        }
        proof {
            assert(self@.locals =~= before.with_local_stamp(l as int, outbound, now).locals);
            lemma_inv_carries(before, self@);
        }
    }

    /// Sets a time stamp on a remote candidate.
    pub(crate) fn stamp_remote(&mut self, r: usize, outbound: bool, now: u64)
        requires
            old(self).wf(),
            r < old(self)@.remotes.len(),
        ensures
            final(self).wf(),
            final(self)@ == old(self)@.with_remote_stamp(r as int, outbound, now),
    {
        let ghost before = self@;
        if outbound {
            self.remote_candidates[r].last_sent = now;
        } else {
            self.remote_candidates[r].last_received = now;
        }
        proof {
            assert(self@.remotes =~= before.with_remote_stamp(r as int, outbound, now).remotes);
            lemma_inv_carries(before, self@);
        }
    }

    /// Looks after the selected pair: says whether a keepalive is due, and
    /// gives the pair up where its remote has been silent for too long; gives
    /// the connection up where a disconnected agent has found no other pair
    /// in time.
    ///
    /// A closed agent asks for nothing.
    pub fn keep_alive(&mut self, now: u64) -> (r: LivenessAction)
        requires
            old(self).wf(),
        ensures
            final(self).wf(),
            (final(self)@, r) == old(self)@.kept_alive(now),
            old(self)@.closed() ==> r == LivenessAction::Nothing && final(self)@ == old(self)@,
    {
        let ghost before = self@;
        let action = match self.selected {
            Some(s) => {
                let p = self.pairs[s];
                assert(before.pairs[s as int].local < before.locals.len());
                assert(before.pairs[s as int].selected <==> before.selected_is(s as int));
                let silent = elapsed(now, self.remote_candidates[p.remote].last_received);
                if silent > self.config.disconnected_timeout {
                    let mut q = p;
                    q.state = CandidatePairState::Failed;
                    q.nominated = false;
                    q.selected = false;
                    self.pairs.set(s, q);
                    self.selected = None;
                    self.connection_state = ConnectionState::Disconnected;
                    self.disconnected_at = now;
                    proof {
                        assert forall|i: int| 0 <= i < self@.pairs.len() implies ((
                        #[trigger] self@.pairs[i]).selected <==> self@.selected_is(i)) by {
                            assert(before.pairs[i].selected <==> before.selected_is(i));
                        }
                        assert forall|i: int|
                            0 <= i < self@.pairs.len() && (
                            #[trigger] self@.pairs[i]).selected implies self@.pairs[i].nominated
                            && self@.pairs[i].state == CandidatePairState::Succeeded by {
                            assert(before.pairs[i].selected <==> before.selected_is(i));
                        }
                        lemma_inv_carries(before, self@);
                    }
                    LivenessAction::ConsentLost { pair: s }
                } else if elapsed(now, self.local_candidates[p.local].last_sent)
                    >= self.config.keepalive_interval {
                    self.stamp_local(p.local, true, now);
                    LivenessAction::SendKeepalive { pair: s }
                } else {
                    LivenessAction::Nothing
                }
            },
            None => {
                if matches!(self.connection_state, ConnectionState::Disconnected) && elapsed(
                    now,
                    self.disconnected_at,
                ) > self.config.failed_timeout {
                    self.connection_state = ConnectionState::Failed;
                    proof {
                        lemma_inv_carries(before, self@);
                    }
                    LivenessAction::GaveUp
                } else {
                    LivenessAction::Nothing
                }
            },
        };
        action
    }

    /// Asks for the peer's consent where that is due: returns the request to
    /// send on the selected pair. `fresh` is a number drawn at random; its
    /// low 96 bits are the transaction identifier.
    ///
    /// A closed agent, and one without a selected pair, asks for nothing.
    pub fn consent_check(&mut self, now: u64, fresh: u128) -> (r: Option<CheckRequest>)
        requires
            old(self).wf(),
        ensures
            final(self).wf(),
            (final(self)@, r) == old(self)@.consenting(now, transaction_id_from(fresh)),
            old(self)@.closed() ==> r is None && final(self)@ == old(self)@,
    {
        let id = short_id(fresh);
        match self.selected {
            None => None,
            Some(s) => {
                if self.id_is_pending(id) || elapsed(now, self.last_consent_at)
                    < self.config.consent_interval {
                    return None;
                }
                let ghost before = self@;
                self.pending.push(
                    Transaction {
                        id,
                        pair: s,
                        sent_as: self.role,
                        use_candidate: false,
                        retransmits: 0,
                        deadline: now.saturating_add(INITIAL_RTO),
                    },
                );
                self.last_consent_at = now;
                proof {
                    assert(self@.pending =~= before.consenting(now, id).0.pending);
                    assert forall|k: int, l: int|
                        0 <= k < self@.pending.len() && 0 <= l < self@.pending.len() && k
                            != l implies (#[trigger] self@.pending[k]).id != (
                    #[trigger] self@.pending[l]).id by {
                        if k < before.pending.len() && l < before.pending.len() {
                            assert(before.pending[k].id != before.pending[l].id);
                        } else if k < before.pending.len() {
                            assert(before.pending[k].id != id);
                        } else {
                            assert(before.pending[l].id != id);
                        }
                    }
                    assert forall|k: int| 0 <= k < self@.pending.len() implies (
                    #[trigger] self@.pending[k]).pair < self@.pairs.len() by {
                        if k < before.pending.len() {
                            assert(before.pending[k].pair < before.pairs.len());
                        }
                    }
                    assert(before.pairs_refer_to_candidates());
                    assert(before.pairs_are_distinct());
                    assert(before.selection_is_single());
                    assert(before.triggered_is_sound());
                }
                Some(
                    CheckRequest {
                        pair: s,
                        transaction_id: id,
                        role: self.role,
                        tie_breaker: self.tie_breaker,
                        use_candidate: false,
                    },
                )
            },
        }
    }

    /// Tells whether application data from an address is accepted.
    pub fn validate_non_stun_traffic(&self, source: SocketAddress) -> (ok: bool)
        requires
            self.wf(),
        ensures
            ok == self@.accepts_data_from(source),
    {
        match self.selected {
            Some(s) => {
                let p = self.pairs[s];
                assert(self@.pairs[s as int].remote < self@.remotes.len());
                self.remote_candidates[p.remote].resolved_addr.same_as(&source)
            },
            None => {
                if !matches!(self.connection_state, ConnectionState::Checking) {
                    return false;
                }
                let mut i: usize = 0;
                while i < self.pairs.len()
                    invariant
                        i <= self.pairs@.len(),
                        self.wf(),
                        self@.selected is None,
                        self@.connection_state == ConnectionState::Checking,
                        forall|j: int|
                            0 <= j < i ==> !((#[trigger] self@.pairs[j]).state
                                == CandidatePairState::Succeeded
                                && self@.remotes[self@.pairs[j].remote as int].resolved_addr
                                == source),
                    decreases self.pairs.len() - i,
                {
                    let p = self.pairs[i];
                    assert(self@.pairs[i as int].remote < self@.remotes.len());
                    if matches!(p.state, CandidatePairState::Succeeded)
                        && self.remote_candidates[p.remote].resolved_addr.same_as(&source) {
                        assert(self@.pairs[i as int].state == CandidatePairState::Succeeded
                            && self@.remotes[self@.pairs[i as int].remote as int].resolved_addr
                            == source);
                        return true;
                    }
                    i = i + 1;
                }
                false
            },
        }
    }

    /// Puts a datagram of application data into the delivery buffer.
    pub fn deliver(&mut self, data: &[u8]) -> (r: Result<(), Error>)
        requires
            old(self).wf(),
        ensures
            final(self).wf(),
            (final(self)@, r) == old(self)@.delivered(data@),
    {
        if matches!(self.connection_state, ConnectionState::Closed) {
            return Err(Error::Closed);
        }
        if self.buffer.len() >= self.config.buffer_capacity {
            return Err(Error::QueueFull);
        }
        let ghost before = self@;
        let copy = crate::stun_wire::copy_bytes(data);
        self.buffer.push(copy);
        proof {
            assert(self@.buffer =~= before.buffer.push(data@));
            lemma_inv_carries(before, self@);
        }
        Ok(())
    }

    /// Takes the oldest datagram out of the delivery buffer, for the
    /// consumer.
    pub fn read(&mut self) -> (r: Result<Option<Vec<u8>>, Error>)
        requires
            old(self).wf(),
        ensures
            final(self).wf(),
            final(self)@ == old(self)@.after_read().0,
            match (r, old(self)@.after_read().1) {
                (Ok(Some(d)), Ok(Some(e))) => d@ == e,
                (Ok(None), Ok(None)) => true,
                (Err(a), Err(b)) => a == b,
                _ => false,
            },
    {
        if matches!(self.connection_state, ConnectionState::Closed) {
            return Err(Error::Closed);
        }
        if matches!(self.connection_state, ConnectionState::Failed) {
            return Err(Error::ConnectionFailed);
        }
        if self.buffer.len() == 0 {
            return Ok(None);
        }
        let ghost before = self@;
        let d = self.buffer.remove(0);
        proof {
            assert(self@.buffer =~= before.buffer.drop_first());
            lemma_inv_carries(before, self@);
        }
        Ok(Some(d))
    }

    /// Names the pair on which the consumer's data is to be sent, and notes
    /// that its local candidate sends.
    ///
    /// A closed agent names none: it fails with `Closed`.
    pub fn select_route(&mut self, now: u64) -> (r: Result<CandidatePair, Error>)
        requires
            old(self).wf(),
        ensures
            final(self).wf(),
            (final(self)@, r) == old(self)@.routed(now),
            old(self)@.closed() ==> r is Err && final(self)@ == old(self)@,
    {
        if matches!(self.connection_state, ConnectionState::Closed) {
            return Err(Error::Closed);
        }
        if matches!(self.connection_state, ConnectionState::Failed) {
            return Err(Error::ConnectionFailed);
        }
        match self.selected {
            None => Err(Error::NoSelectedPair),
            Some(s) => {
                let p = self.pairs[s];
                assert(self@.pairs[s as int].local < self@.locals.len());
                self.stamp_local(p.local, true, now);
                Ok(p)
            },
        }
    }
}

impl Agent {
    /// Puts the agent into a role.
    pub(crate) fn set_role(&mut self, role: Role)
        requires
            old(self).wf(),
        ensures
            final(self).wf(),
            final(self)@ == old(self)@.with_role(role),
    {
        let ghost before = self@;
        self.role = role;
        proof {
            lemma_inv_carries(before, self@);
        }
    }

    /// Finds the first remote candidate of a network type that resolves to an
    /// address.
    pub(crate) fn find_remote(&self, network_type: NetworkType, source: SocketAddress) -> (k: usize)
        ensures
            k == AgentState::remote_place(self@.remotes, network_type, source),
            k <= self@.remotes.len(),
    {
        let mut k: usize = 0;
        assert(self@.remotes.skip(0) =~= self@.remotes);
        while k < self.remote_candidates.len()
            invariant
                k <= self.remote_candidates@.len(),
                AgentState::remote_place(self@.remotes, network_type, source) == k
                    + AgentState::remote_place(self@.remotes.skip(k as int), network_type, source),
            decreases self.remote_candidates.len() - k,
        {
            if self.remote_candidates[k].network_type == network_type
                && self.remote_candidates[k].resolved_addr.same_as(&source) {
                return k;
            }
            assert(self@.remotes.skip(k as int).drop_first() =~= self@.remotes.skip(k + 1));
            k = k + 1;
        }
        k
    }

    /// Finds the place of the pair of two candidates.
    pub(crate) fn find_pair_place(&self, l: usize, r: usize) -> (k: usize)
        ensures
            k == AgentState::pair_place(self@.pairs, l as int, r as int),
            k <= self@.pairs.len(),
    {
        let mut k: usize = 0;
        assert(self@.pairs.skip(0) =~= self@.pairs);
        while k < self.pairs.len()
            invariant
                k <= self.pairs@.len(),
                AgentState::pair_place(self@.pairs, l as int, r as int) == k
                    + AgentState::pair_place(self@.pairs.skip(k as int), l as int, r as int),
            decreases self.pairs.len() - k,
        {
            if self.pairs[k].local == l && self.pairs[k].remote == r {
                return k;
            }
            assert(self@.pairs.skip(k as int).drop_first() =~= self@.pairs.skip(k + 1));
            k = k + 1;
        }
        k
    }

    /// Pairs two candidates unless they are paired, and returns the place of
    /// their pair.
    pub(crate) fn ensure_pair(&mut self, l: usize, r: usize) -> (k: usize)
        requires
            old(self).wf(),
            l < old(self)@.locals.len(),
            r < old(self)@.remotes.len(),
        ensures
            final(self).wf(),
            final(self)@ == old(self)@.with_pair_ensured(l as int, r as int),
            k == AgentState::pair_place(old(self)@.pairs, l as int, r as int),
            k < final(self)@.pairs.len(),
            final(self)@.pairs[k as int].local == l,
            final(self)@.pairs[k as int].remote == r,
    {
        let k = self.find_pair_place(l, r);
        proof {
            lemma_pair_place(self@.pairs, l as int, r as int);
        }
        if k >= self.pairs.len() {
            assert forall|i: int| 0 <= i < self@.pairs.len() implies !#[trigger] self@.pair_is(
                i,
                l as int,
                r as int,
            ) by {
                assert(!(self@.pairs[i].local == l && self@.pairs[i].remote == r));
            }
            self.push_pair(l, r);
        }
        k
    }

    /// Puts a pair at the head of the triggered queue, unless the queue holds
    /// it already.
    pub(crate) fn enqueue_triggered(&mut self, i: usize)
        requires
            old(self).wf(),
            !old(self)@.closed(),
            i < old(self)@.pairs.len(),
        ensures
            final(self).wf(),
            final(self)@ == old(self)@.with_triggered(i),
    {
        let ghost before = self@;
        let mut k: usize = 0;
        while k < self.triggered.len()
            invariant
                k <= self.triggered@.len(),
                self@ == before,
                before.inv(),
                forall|j: int| 0 <= j < k ==> self.triggered@[j] != i,
            decreases self.triggered.len() - k,
        {
            if self.triggered[k] == i {
                assert(before.triggered[k as int] == i);
                return ;
            }
            k = k + 1;
        }
        assert(!before.triggered.contains(i));
        self.triggered.insert(0, i);
        proof {
            assert(self@.triggered =~= seq![i] + before.triggered);
            assert forall|a: int| 0 <= a < self@.triggered.len() implies (
            #[trigger] self@.triggered[a]) < self@.pairs.len() by {
                if a > 0 {
                    assert(before.triggered[a - 1] < before.pairs.len());
                }
            }
            assert forall|a: int, b: int|
                0 <= a < self@.triggered.len() && 0 <= b < self@.triggered.len() && a != b implies self@.triggered[a]
                != self@.triggered[b] by {
                if a > 0 && b > 0 {
                    assert(before.triggered[a - 1] != before.triggered[b - 1]);
                }
            }
            assert(before.pairs_refer_to_candidates());
            assert(before.pairs_are_distinct());
            assert(before.selection_is_single());
            assert(before.pending_is_sound());
        }
    }
}

impl Agent {
    /// Returns the user name that a request to the agent must state.
    pub fn request_username(&self) -> (name: Vec<u8>)
        ensures
            name@ == self@.request_username(),
    {
        let mut name: Vec<u8> = Vec::new();
        append_utf8(&mut name, self.config.local_ufrag.as_str());
        append_utf8(&mut name, ":");
        append_utf8(&mut name, self.remote_ufrag.as_str());
        assert(name@ =~= self@.request_username());
        name
    }

    /// Returns the key of the integrity of requests to the agent.
    pub(crate) fn local_key(&self) -> (key: Vec<u8>)
        ensures
            key@ == self@.local_key(),
    {
        let mut key: Vec<u8> = Vec::new();
        append_utf8(&mut key, self.config.local_pwd.as_str());
        assert(key@ =~= self@.local_key());
        key
    }

    /// Returns the key of the integrity of answers to the agent.
    pub(crate) fn remote_key(&self) -> (key: Vec<u8>)
        ensures
            key@ == self@.remote_key(),
    {
        let mut key: Vec<u8> = Vec::new();
        append_utf8(&mut key, self.remote_pwd.as_str());
        assert(key@ =~= self@.remote_key());
        key
    }

    /// Returns the number of pending checks.
    pub fn pending_count(&self) -> (n: usize)
        ensures
            n == self@.pending.len(),
    {
        self.pending.len()
    }

    /// Returns the pending check at a place.
    pub(crate) fn pending_at(&self, k: usize) -> (t: Transaction)
        requires
            k < self@.pending.len(),
        ensures
            t == self@.pending[k as int],
    {
        self.pending[k]
    }

    /// Returns the pair at a place.
    pub(crate) fn pair_at(&self, i: usize) -> (p: CandidatePair)
        requires
            i < self@.pairs.len(),
        ensures
            p == self@.pairs[i as int],
    {
        self.pairs[i]
    }
}

impl Agent {
    /// Returns the checklist: the places of all pairs, by descending
    /// priority, and among pairs of one priority, the older pair first.
    pub fn checklist(&self) -> (order: Vec<usize>)
        ensures
            self@.is_checklist_of(order@, self@.pairs.len() as int),
    {
        let mut order: Vec<usize> = Vec::new();
        let mut i: usize = 0;
        while i < self.pairs.len()
            invariant
                i <= self.pairs@.len(),
                self@.is_checklist_of(order@, i as int),
            decreases self.pairs.len() - i,
        {
            let own = self.pairs[i].priority(self.role);
            let mut at: usize = 0;
            while at < order.len() && self.pairs[order[at]].priority(self.role) >= own
                invariant
                    at <= order@.len(),
                    i < self.pairs@.len(),
                    own == self@.priority_at(i as int),
                    self@.is_checklist_of(order@, i as int),
                    forall|k: int|
                        0 <= k < at ==> self@.comes_before((#[trigger] order@[k]) as int, i as int),
                decreases order.len() - at,
            {
                at = at + 1;
            }
            let ghost before = order@;
            order.insert(at, i);
            proof {
                before.insert_ensures(at as int, i);
                assert forall|k: int, l: int| 0 <= k < l < order@.len() implies self@.comes_before(
                    (#[trigger] order@[k]) as int,
                    (#[trigger] order@[l]) as int,
                ) by {
                    if l < at {
                        assert(order@[k] == before[k] && order@[l] == before[l]);
                    } else if l == at {
                        assert(order@[k] == before[k]);
                    } else if k < at {
                        assert(order@[k] == before[k] && order@[l] == before[l - 1]);
                    } else if k == at {
                        assert(order@[l] == before[l - 1]);
                        assert(self@.priority_at(before[at as int] as int) < own);
                        if l - 1 > at {
                            assert(self@.comes_before(
                                before[at as int] as int,
                                before[l - 1] as int,
                            ));
                        }
                    } else {
                        assert(order@[k] == before[k - 1] && order@[l] == before[l - 1]);
                    }
                }
                assert forall|k: int| 0 <= k < order@.len() implies (#[trigger] order@[k]) < i
                    + 1 by {
                    if k < at {
                        assert(order@[k] == before[k]);
                    } else if k > at {
                        assert(order@[k] == before[k - 1]);
                    }
                }
            }
            i = i + 1;
        }
        order
    }
}

impl Agent {
    /// Ends a write on the connection of the local candidate at place
    /// `local`: `sent` is what the connection made of the datagram, and
    /// `None` where the candidate has no connection.
    ///
    /// A place that names no candidate fails with `InvalidCandidate`, and a
    /// send that failed with its error; either leaves the agent as it was.
    /// Else the number of bytes written is returned, 0 where there is no
    /// connection, and the candidate is noted to have sent, at the wall
    /// clock's reading.
    pub fn finish_write(&mut self, local: usize, sent: Option<Result<usize, Error>>) -> (r: Result<
        usize,
        Error,
    >)
        requires
            old(self).wf(),
        ensures
            final(self).wf(),
            local >= old(self)@.locals.len() ==> r == Err::<usize, Error>(Error::InvalidCandidate)
                && final(self)@ == old(self)@,
            local < old(self)@.locals.len() ==> match sent {
                Some(Err(e)) => r == Err::<usize, Error>(e) && final(self)@ == old(self)@,
                Some(Ok(count)) => r == Ok::<usize, Error>(count) && exists|nanos: u64|
                    final(self)@ == old(self)@.with_local_stamp(local as int, true, nanos),
                None => r == Ok::<usize, Error>(0) && exists|nanos: u64|
                    final(self)@ == old(self)@.with_local_stamp(local as int, true, nanos),
            },
    {
        if local >= self.local_candidates.len() {
            return Err(Error::InvalidCandidate);
        }
        let ghost before = self@;
        let r = self.local_candidates[local].finish_write(sent);
        proof {
            if r is Ok {
                let nanos = choose|nanos: u64|
                    self.local_candidates@[local as int] == before.locals[local as int].stamped(
                        true,
                        nanos,
                    );
                assert(self@.locals =~= before.with_local_stamp(local as int, true, nanos).locals);
                assert(self@ == before.with_local_stamp(local as int, true, nanos));
                lemma_inv_carries(before, self@);
            } else {
                assert(self@.locals =~= before.locals);
            }
        }
        r
    }

    /// Starts the local candidate at place `local`: its receive pump may run
    /// until the candidate or the agent is closed. A place that names no
    /// candidate, and a closed agent, change nothing.
    pub fn start_candidate(&mut self, local: usize)
        requires
            old(self).wf(),
        ensures
            final(self).wf(),
            final(self)@ == if local < old(self)@.locals.len() && !old(self)@.closed() && !old(
                self,
            )@.locals[local as int].closed {
                old(self)@.with_local_at(
                    local as int,
                    CandidateBase { running: true, ..old(self)@.locals[local as int] },
                )
            } else {
                old(self)@
            },
    {
        if local >= self.local_candidates.len() || matches!(
            self.connection_state,
            ConnectionState::Closed
        ) {
            return ;
        }
        let ghost before = self@;
        self.local_candidates[local].start();
        proof {
            if before.locals[local as int].closed {
                assert(self@.locals =~= before.locals);
            } else {
                assert(self@.locals =~= before.locals.update(
                    local as int,
                    CandidateBase { running: true, ..before.locals[local as int] },
                ));
                lemma_inv_carries(before, self@);
            }
        }
    }

    /// Closes the local candidate at place `local`, and says whether a TURN
    /// client remains to be closed.
    ///
    /// The first close of a candidate succeeds, and every later one fails
    /// with `Closed`; closing the agent closes every candidate. A place that
    /// names no candidate fails with `InvalidCandidate`. A close that fails
    /// changes nothing.
    pub fn close_candidate(&mut self, local: usize) -> (r: Result<
        crate::candidate_base::CloseEffect,
        Error,
    >)
        requires
            old(self).wf(),
        ensures
            final(self).wf(),
            local >= old(self)@.locals.len() ==> r == Err::<
                crate::candidate_base::CloseEffect,
                Error,
            >(Error::InvalidCandidate) && final(self)@ == old(self)@,
            local < old(self)@.locals.len() && old(self)@.locals[local as int].closed ==> r == Err::<
                crate::candidate_base::CloseEffect,
                Error,
            >(Error::Closed) && final(self)@ == old(self)@,
            local < old(self)@.locals.len() && !old(self)@.locals[local as int].closed ==> r == Ok::<
                crate::candidate_base::CloseEffect,
                Error,
            >(
                if old(self)@.locals[local as int].has_relay_client {
                    crate::candidate_base::CloseEffect::CloseRelayClient
                } else {
                    crate::candidate_base::CloseEffect::Nothing
                },
            ) && final(self)@ == old(self)@.with_local_at(
                local as int,
                CandidateBase { running: false, closed: true, ..old(self)@.locals[local as int] },
            ),
    {
        if local >= self.local_candidates.len() {
            return Err(Error::InvalidCandidate);
        }
        let ghost before = self@;
        let r = self.local_candidates[local].close();
        proof {
            if before.locals[local as int].closed {
                assert(self@.locals =~= before.locals);
            } else {
                assert(self@.locals =~= before.locals.update(
                    local as int,
                    CandidateBase { running: false, closed: true, ..before.locals[local as int] },
                ));
                lemma_inv_carries(before, self@);
            }
        }
        r
    }
}


} // verus!
