//! The state of an agent as the contracts speak of it: what holds of it at
//! all times, and what each thing that happens makes of it.

use crate::candidate_base::CandidateBase;
use crate::error::Error;
use crate::network_type::{NetworkType, SocketAddress};
use crate::pair::{CandidatePair, CandidatePairState};
use crate::role::Role;
use crate::state::{ConnectionState, GatheringState};
use vstd::prelude::*;
use vstd::utf8::encode_utf8;

verus! {

/// One second, in nanoseconds.
pub const SECOND: u64 = 1_000_000_000;

/// The time after which a check that was not answered is sent again for the
/// first time, in nanoseconds. It doubles with each retransmission.
pub const INITIAL_RTO: u64 = 500_000_000;

/// How often a check is sent again before its pair fails.
pub const MAX_RETRANSMITS: u8 = 7;

/// What an agent is made from. Times are in nanoseconds.
#[derive(Clone, Debug)]
pub struct AgentConfig {
    /// Whether the agent starts in the controlling role.
    pub is_controlling: bool,
    /// The number by which a role conflict is decided.
    pub tie_breaker: u64,
    pub local_ufrag: String,
    pub local_pwd: String,
    /// Whether every check of the controlling agent nominates its pair.
    pub aggressive_nomination: bool,
    /// How many checks may be started on one pair.
    pub max_binding_requests: u16,
    /// How long the selected pair may be idle before a keepalive is sent.
    pub keepalive_interval: u64,
    /// How long the agent waits between two checks of the peer's consent.
    pub consent_interval: u64,
    /// How long the selected pair's remote may be silent before the agent is
    /// disconnected.
    pub disconnected_timeout: u64,
    /// How long a disconnected agent looks for another pair before it fails.
    pub failed_timeout: u64,
    /// How many datagrams the delivery buffer holds.
    pub buffer_capacity: usize,
}

impl AgentConfig {
    /// The configuration of an agent with the default times: a keepalive
    /// every 2 s, a consent check every 5 s, disconnected after 5 s of
    /// silence, failed 25 s later, 7 checks on a pair, aggressive nomination.
    pub fn new(
        is_controlling: bool,
        tie_breaker: u64,
        local_ufrag: String,
        local_pwd: String,
    ) -> (c: AgentConfig)
        ensures
            c.is_controlling == is_controlling,
            c.tie_breaker == tie_breaker,
            c.local_ufrag == local_ufrag,
            c.local_pwd == local_pwd,
            c.aggressive_nomination,
            c.max_binding_requests == 7,
            c.keepalive_interval == 2 * SECOND,
            c.consent_interval == 5 * SECOND,
            c.disconnected_timeout == 5 * SECOND,
            c.failed_timeout == 25 * SECOND,
            c.buffer_capacity == 1024,
    {
        AgentConfig {
            is_controlling,
            tie_breaker,
            local_ufrag,
            local_pwd,
            aggressive_nomination: true,
            max_binding_requests: 7,
            keepalive_interval: 2 * SECOND,
            consent_interval: 5 * SECOND,
            disconnected_timeout: 5 * SECOND,
            failed_timeout: 25 * SECOND,
            buffer_capacity: 1024,
        }
    }
}

/// A check that was sent and not yet answered.
#[derive(Clone, Copy, Debug, PartialEq, Eq, Structural)]
pub struct Transaction {
    /// The 96-bit transaction identifier.
    pub id: u128,
    /// The place of the checked pair in the agent's list.
    pub pair: usize,
    /// The role that the request stated for its sender when it was last
    /// sent.
    pub sent_as: Role,
    /// Whether the request carries USE-CANDIDATE.
    pub use_candidate: bool,
    /// How often the request has been sent again.
    pub retransmits: u8,
    /// When the request is sent again, or given up.
    pub deadline: u64,
}

/// The state of an agent, as the contracts speak of it.
pub struct AgentState {
    pub role: Role,
    pub tie_breaker: u64,
    pub config: AgentConfig,
    pub remote_ufrag: Seq<char>,
    pub remote_pwd: Seq<char>,
    pub connection_state: ConnectionState,
    pub gathering_state: GatheringState,
    pub locals: Seq<CandidateBase>,
    pub remotes: Seq<CandidateBase>,
    pub pairs: Seq<CandidatePair>,
    /// The place of the selected pair in `pairs`, if a pair is selected.
    pub selected: Option<usize>,
    /// The pairs that await a triggered check: new ones enter at the head,
    /// place 0, and the one at the end is checked next.
    pub triggered: Seq<usize>,
    pub pending: Seq<Transaction>,
    /// The datagrams that await the consumer, oldest first.
    pub buffer: Seq<Seq<u8>>,
    /// When the agent was disconnected, if it is.
    pub disconnected_at: u64,
    /// When the agent last asked for the peer's consent.
    pub last_consent_at: u64,
}

impl AgentState {
    /// True once the agent has been closed.
    pub open spec fn closed(self) -> bool {
        self.connection_state == ConnectionState::Closed
    }

    /// True when the pair at place `i` is the selected one.
    pub open spec fn selected_is(self, i: int) -> bool {
        self.selected matches Some(s) && s == i
    }

    /// Every pair names a local and a remote candidate of the agent, and holds
    /// their priorities.
    pub open spec fn pairs_refer_to_candidates(self) -> bool {
        forall|i: int|
            0 <= i < self.pairs.len() ==> {
                &&& (#[trigger] self.pairs[i]).local < self.locals.len()
                &&& self.pairs[i].remote < self.remotes.len()
                &&& self.pairs[i].local_priority == self.locals[self.pairs[i].local as int].priority_value()
                &&& self.pairs[i].remote_priority == self.remotes[self.pairs[i].remote as int].priority_value()
            }
    }

    /// No two pairs have the same local and the same remote candidate.
    pub open spec fn pairs_are_distinct(self) -> bool {
        forall|i: int, j: int|
            0 <= i < self.pairs.len() && 0 <= j < self.pairs.len() && i != j ==> !((
            #[trigger] self.pairs[i]).local == (#[trigger] self.pairs[j]).local
                && self.pairs[i].remote == self.pairs[j].remote)
    }

    /// The pair marked as selected is the one that `selected` names, and no
    /// other pair is marked; it has been nominated and its check succeeded.
    pub open spec fn selection_is_single(self) -> bool {
        &&& self.selected matches Some(s) ==> s < self.pairs.len()
        &&& forall|i: int|
            0 <= i < self.pairs.len() ==> ((#[trigger] self.pairs[i]).selected <==> self.selected_is(
                i,
            ))
        &&& forall|i: int|
            0 <= i < self.pairs.len() && (#[trigger] self.pairs[i]).selected
                ==> self.pairs[i].nominated && self.pairs[i].state == CandidatePairState::Succeeded
    }

    /// A pair is selected exactly in the states Connected and Completed.
    pub open spec fn selection_matches_state(self) -> bool {
        self.connection_state.has_selection() <==> self.selected is Some
    }

    /// The triggered queue names pairs of the agent, each at most once.
    pub open spec fn triggered_is_sound(self) -> bool {
        &&& forall|k: int| 0 <= k < self.triggered.len() ==> (#[trigger] self.triggered[k]) < self.pairs.len()
        &&& forall|k: int, l: int|
            0 <= k < self.triggered.len() && 0 <= l < self.triggered.len() && k != l
                ==> self.triggered[k] != self.triggered[l]
    }

    /// Every pending check is of a pair of the agent, and no two have the same
    /// transaction identifier.
    pub open spec fn pending_is_sound(self) -> bool {
        &&& forall|k: int| 0 <= k < self.pending.len() ==> (#[trigger] self.pending[k]).pair < self.pairs.len()
        &&& forall|k: int, l: int|
            0 <= k < self.pending.len() && 0 <= l < self.pending.len() && k != l ==> (
            #[trigger] self.pending[k]).id != (#[trigger] self.pending[l]).id
    }

    /// What holds of an agent at all times.
    pub open spec fn inv(self) -> bool {
        &&& self.pairs_refer_to_candidates()
        &&& self.pairs_are_distinct()
        &&& self.selection_is_single()
        &&& self.selection_matches_state()
        &&& self.triggered_is_sound()
        &&& self.pending_is_sound()
        &&& self.buffer.len() <= self.config.buffer_capacity
        &&& self.closed() ==> self.triggered.len() == 0 && self.pending.len() == 0
    }

    /// The state of a new agent.
    pub open spec fn initial(config: AgentConfig) -> AgentState {
        AgentState {
            role: if config.is_controlling {
                Role::Controlling
            } else {
                Role::Controlled
            },
            tie_breaker: config.tie_breaker,
            config,
            remote_ufrag: Seq::empty(),
            remote_pwd: Seq::empty(),
            connection_state: ConnectionState::New,
            gathering_state: GatheringState::New,
            locals: Seq::empty(),
            remotes: Seq::empty(),
            pairs: Seq::empty(),
            selected: None,
            triggered: Seq::empty(),
            pending: Seq::empty(),
            buffer: Seq::empty(),
            disconnected_at: 0,
            last_consent_at: 0,
        }
    }

    /// The pairs with the selection taken from the pair that has it.
    pub open spec fn pairs_without_selection(self) -> Seq<CandidatePair> {
        Seq::new(
            self.pairs.len(),
            |i: int| CandidatePair { selected: false, ..self.pairs[i] },
        )
    }

    /// The local candidates closed, with their receive pumps told to stop.
    pub open spec fn locals_stopped(self) -> Seq<CandidateBase> {
        Seq::new(
            self.locals.len(),
            |i: int| CandidateBase { running: false, closed: true, ..self.locals[i] },
        )
    }

    /// The state after the agent was closed: the state is Closed, no pair is
    /// selected, no triggered check and no transaction is left, and every
    /// local candidate is closed.
    pub open spec fn closed_down(self) -> AgentState {
        AgentState {
            connection_state: ConnectionState::Closed,
            pairs: self.pairs_without_selection(),
            selected: None,
            triggered: Seq::empty(),
            pending: Seq::empty(),
            locals: self.locals_stopped(),
            ..self
        }
    }

    /// The state after connectivity checks were started with the peer's
    /// credentials: a new agent begins to check; an agent further on only
    /// takes the credentials.
    pub open spec fn started(self, remote_ufrag: Seq<char>, remote_pwd: Seq<char>) -> AgentState {
        AgentState {
            remote_ufrag,
            remote_pwd,
            connection_state: if self.connection_state == ConnectionState::New {
                ConnectionState::Checking
            } else {
                self.connection_state
            },
            ..self
        }
    }

    /// Two candidates can be paired when they are of the same component and
    /// use the same transport and address family.
    pub open spec fn can_pair(l: CandidateBase, r: CandidateBase) -> bool {
        l.component == r.component && l.network_type == r.network_type
    }

    /// True when a pair is made of the given candidates.
    pub open spec fn pair_is(self, i: int, l: int, r: int) -> bool {
        self.pairs[i].local == l && self.pairs[i].remote == r
    }

    /// True when the pair at place `i` has the foundation of the candidates at
    /// places `l` and `r`: the local foundations are equal, and the remote.
    pub open spec fn shares_foundation(self, i: int, l: int, r: int) -> bool {
        &&& self.locals[self.pairs[i].local as int].foundation_text()
            == self.locals[l].foundation_text()
        &&& self.remotes[self.pairs[i].remote as int].foundation_text()
            == self.remotes[r].foundation_text()
    }

    /// The state in which a new pair of the candidates at places `l` and `r`
    /// starts: frozen where pairs of its foundation exist and none of them
    /// has succeeded, waiting else.
    pub open spec fn first_state(self, l: int, r: int) -> CandidatePairState {
        if (exists|i: int| 0 <= i < self.pairs.len() && #[trigger] self.shares_foundation(i, l, r))
            && !(exists|i: int|
            0 <= i < self.pairs.len() && #[trigger] self.shares_foundation(i, l, r)
                && self.pairs[i].state == CandidatePairState::Succeeded) {
            CandidatePairState::Frozen
        } else {
            CandidatePairState::Waiting
        }
    }

    /// The state with a new pair of the candidates at places `l` and `r`.
    pub open spec fn with_pair(self, l: int, r: int) -> AgentState {
        AgentState {
            pairs: self.pairs.push(
                CandidatePair {
                    local: l as usize,
                    remote: r as usize,
                    local_priority: self.locals[l].priority_value() as u32,
                    remote_priority: self.remotes[r].priority_value() as u32,
                    state: self.first_state(l, r),
                    nominated: false,
                    selected: false,
                    binding_request_count: 0,
                },
            ),
            ..self
        }
    }

    /// The state after the newest remote candidate was paired with the first
    /// `upto` local candidates, each that it can be paired with.
    pub open spec fn paired_with_newest_remote(self, upto: nat) -> AgentState
        decreases upto,
    {
        if upto == 0 {
            self
        } else {
            let before = self.paired_with_newest_remote((upto - 1) as nat);
            if Self::can_pair(self.locals[upto - 1], self.remotes.last()) {
                before.with_pair(upto - 1, self.remotes.len() - 1)
            } else {
                before
            }
        }
    }

    /// The state after the newest local candidate was paired with the first
    /// `upto` remote candidates, each that it can be paired with.
    pub open spec fn paired_with_newest_local(self, upto: nat) -> AgentState
        decreases upto,
    {
        if upto == 0 {
            self
        } else {
            let before = self.paired_with_newest_local((upto - 1) as nat);
            if Self::can_pair(self.locals.last(), self.remotes[upto - 1]) {
                before.with_pair(self.locals.len() - 1, upto - 1)
            } else {
                before
            }
        }
    }

    /// The place of the first candidate in a list that equals `c`, or the
    /// length of the list where none does.
    pub open spec fn place_of(list: Seq<CandidateBase>, c: CandidateBase) -> int
        decreases list.len(),
    {
        if list.len() == 0 {
            0
        } else if list[0].same(&c) {
            0
        } else {
            1 + Self::place_of(list.drop_first(), c)
        }
    }

    /// The state after a remote candidate was added: unchanged where an equal
    /// one is known, else with the candidate at the end of the list and a
    /// pair with each local candidate that it can be paired with.
    pub open spec fn with_remote(self, c: CandidateBase) -> AgentState {
        if Self::place_of(self.remotes, c) < self.remotes.len() {
            self
        } else {
            (AgentState { remotes: self.remotes.push(c), ..self }).paired_with_newest_remote(
                self.locals.len(),
            )
        }
    }

    /// The state after a local candidate was added: unchanged where an equal
    /// one is known, else with the candidate at the end of the list and a
    /// pair with each remote candidate that it can be paired with.
    pub open spec fn with_local(self, c: CandidateBase) -> AgentState {
        if Self::place_of(self.locals, c) < self.locals.len() {
            self
        } else {
            (AgentState { locals: self.locals.push(c), ..self }).paired_with_newest_local(
                self.remotes.len(),
            )
        }
    }

    /// The state after the agent dialled or accepted: it has the role that
    /// goes with the call, and checks have started.
    pub open spec fn started_as(
        self,
        role: Role,
        remote_ufrag: Seq<char>,
        remote_pwd: Seq<char>,
    ) -> AgentState {
        self.started(remote_ufrag, remote_pwd).with_role(role)
    }

    /// Whether application data from `source` is accepted: while a pair is
    /// selected, from the address of that pair's remote candidate; while the
    /// agent is checking, from the remote address of any pair whose check
    /// succeeded; else from nowhere.
    pub open spec fn accepts_data_from(self, source: SocketAddress) -> bool {
        match self.selected {
            Some(s) => self.remotes[self.pairs[s as int].remote as int].resolved_addr == source,
            None => self.connection_state == ConnectionState::Checking && exists|i: int|
                0 <= i < self.pairs.len() && (#[trigger] self.pairs[i]).state
                    == CandidatePairState::Succeeded
                    && self.remotes[self.pairs[i].remote as int].resolved_addr == source,
        }
    }
}

/// A connectivity check that the agent asks its caller to send: a Binding
/// Request on a pair.
#[derive(Clone, Copy, Debug, PartialEq, Eq, Structural)]
pub struct CheckRequest {
    /// The place of the pair in the agent's list.
    pub pair: usize,
    pub transaction_id: u128,
    /// The role that the request states for the agent.
    pub role: Role,
    pub tie_breaker: u64,
    /// Whether the request carries USE-CANDIDATE.
    pub use_candidate: bool,
}

/// What became of the oldest check that ran out of time.
#[derive(Clone, Copy, Debug, PartialEq, Eq, Structural)]
pub enum TimeoutOutcome {
    /// No check has run out of time.
    Nothing,
    /// The check is to be sent again.
    Retransmit { request: CheckRequest },
    /// The check was given up after its last retransmission.
    GaveUp { pair: usize },
}

/// What the agent asks for to keep the selected pair alive.
#[derive(Clone, Copy, Debug, PartialEq, Eq, Structural)]
pub enum LivenessAction {
    /// Nothing is due.
    Nothing,
    /// A Binding Indication is to be sent on the selected pair.
    SendKeepalive { pair: usize },
    /// The selected pair's remote has been silent for too long: the pair has
    /// failed and the agent is disconnected.
    ConsentLost { pair: usize },
    /// No pair has taken the lost one's place in time: the agent has failed.
    GaveUp,
}

/// The transaction identifier made of a number drawn at random: its low 96
/// bits.
pub open spec fn transaction_id_from(fresh: u128) -> u128 {
    (fresh % 0x1_0000_0000_0000_0000_0000_0000) as u128
}

/// The time to wait after the `n`th retransmission of a check: the initial
/// time doubled `n` times.
pub open spec fn retransmit_wait(n: nat) -> nat
    decreases n,
{
    if n == 0 {
        INITIAL_RTO as nat
    } else {
        2 * retransmit_wait((n - 1) as nat)
    }
}

/// A time plus a wait, and the greatest time that can be told where the sum
/// cannot.
pub open spec fn time_after(now: u64, wait: nat) -> u64 {
    if now + wait <= u64::MAX {
        (now + wait) as u64
    } else {
        u64::MAX
    }
}

/// The time that has passed since `then`, and none where `then` is yet to
/// come.
pub open spec fn time_since(now: u64, then: u64) -> nat {
    if now >= then {
        (now - then) as nat
    } else {
        0
    }
}

impl AgentState {
    /// The states in which checks are sent.
    pub open spec fn can_check(self) -> bool {
        ||| self.connection_state == ConnectionState::Checking
        ||| self.connection_state == ConnectionState::Connected
        ||| self.connection_state == ConnectionState::Disconnected
    }

    /// The priority of the pair at place `i`, as the agent computes it in its
    /// role.
    pub open spec fn priority_at(self, i: int) -> nat {
        self.pairs[i].priority_as(self.role)
    }

    /// The first pair of the highest priority among those of the first
    /// `upto` pairs that are in the state `wanted`.
    pub open spec fn best_in_state(self, wanted: CandidatePairState, upto: nat) -> Option<usize>
        decreases upto,
    {
        if upto == 0 {
            None
        } else {
            let before = self.best_in_state(wanted, (upto - 1) as nat);
            if self.pairs[upto - 1].state == wanted && (match before {
                None => true,
                Some(b) => self.priority_at(upto - 1) > self.priority_at(b as int),
            }) {
                Some((upto - 1) as usize)
            } else {
                before
            }
        }
    }

    /// True when a check with the transaction identifier is pending.
    pub open spec fn id_is_pending(self, id: u128) -> bool {
        exists|k: int| 0 <= k < self.pending.len() && (#[trigger] self.pending[k]).id == id
    }

    /// True when the pair at place `j` is being checked and has the
    /// foundation of the pair at place `i`.
    pub open spec fn holds_back(self, j: int, i: int) -> bool {
        self.pairs[j].state == CandidatePairState::InProgress && self.shares_foundation(
            j,
            self.pairs[i].local as int,
            self.pairs[i].remote as int,
        )
    }

    /// True when the pair at place `i` is frozen and no pair of its
    /// foundation is being checked: nothing is left that could unfreeze it.
    pub open spec fn can_thaw(self, i: int) -> bool {
        self.pairs[i].state == CandidatePairState::Frozen && !(exists|j: int|
            0 <= j < self.pairs.len() && #[trigger] self.holds_back(j, i))
    }

    /// The first pair of the highest priority among those of the first
    /// `upto` pairs that can thaw.
    pub open spec fn best_thawable(self, upto: nat) -> Option<usize>
        decreases upto,
    {
        if upto == 0 {
            None
        } else {
            let before = self.best_thawable((upto - 1) as nat);
            if self.can_thaw(upto - 1) && (match before {
                None => true,
                Some(b) => self.priority_at(upto - 1) > self.priority_at(b as int),
            }) {
                Some((upto - 1) as usize)
            } else {
                before
            }
        }
    }

    /// The pair that is checked next: the one at the end of the triggered
    /// queue; where that is empty, the best waiting pair; and where no pair
    /// waits, the best frozen pair that can thaw.
    pub open spec fn next_pair(self) -> Option<usize> {
        if self.triggered.len() > 0 {
            Some(self.triggered.last())
        } else {
            match self.best_in_state(CandidatePairState::Waiting, self.pairs.len()) {
                Some(i) => Some(i),
                None => self.best_thawable(self.pairs.len()),
            }
        }
    }

    /// The triggered queue without the pair at its end.
    pub open spec fn triggered_without_next(self) -> Seq<usize> {
        if self.triggered.len() > 0 {
            self.triggered.drop_last()
        } else {
            self.triggered
        }
    }

    /// The state with the pair at place `i` replaced.
    pub open spec fn with_pair_at(self, i: int, p: CandidatePair) -> AgentState {
        AgentState { pairs: self.pairs.update(i, p), ..self }
    }

    /// True when every component of the local candidates has a nominated pair
    /// and every pair that is not nominated has been resolved.
    pub open spec fn is_complete(self) -> bool {
        &&& forall|l: int|
            0 <= l < self.locals.len() ==> self.component_is_nominated(
                (#[trigger] self.locals[l]).component,
            )
        &&& forall|i: int|
            0 <= i < self.pairs.len() ==> (#[trigger] self.pairs[i]).nominated
                || self.pairs[i].state.resolved()
    }

    /// True when the pair at place `i` is nominated and its local candidate is
    /// of the component.
    pub open spec fn nominated_for(self, i: int, component: u16) -> bool {
        self.pairs[i].nominated && self.locals[self.pairs[i].local as int].component == component
    }

    /// True when some nominated pair has a local candidate of the component.
    pub open spec fn component_is_nominated(self, component: u16) -> bool {
        exists|i: int| 0 <= i < self.pairs.len() && #[trigger] self.nominated_for(i, component)
    }

    /// The state after the agent has looked whether it is done: a connected
    /// agent whose pairs are complete becomes completed.
    pub open spec fn settled(self) -> AgentState {
        if self.connection_state == ConnectionState::Connected && self.is_complete() {
            AgentState { connection_state: ConnectionState::Completed, ..self }
        } else {
            self
        }
    }

    /// The state after the check of the pair at place `i` succeeded: the pair
    /// has succeeded, and the frozen pairs of its foundation wait.
    pub open spec fn with_success(self, i: int) -> AgentState {
        AgentState {
            pairs: Seq::new(
                self.pairs.len(),
                |j: int|
                    if j == i {
                        CandidatePair { state: CandidatePairState::Succeeded, ..self.pairs[j] }
                    } else if self.pairs[j].state == CandidatePairState::Frozen
                        && self.shares_foundation(
                        j,
                        self.pairs[i].local as int,
                        self.pairs[i].remote as int,
                    ) {
                        CandidatePair { state: CandidatePairState::Waiting, ..self.pairs[j] }
                    } else {
                        self.pairs[j]
                    },
            ),
            ..self
        }
    }

    /// True when nominating a pair would select it: no pair is selected, and
    /// the agent is checking or disconnected.
    pub open spec fn would_select(self) -> bool {
        self.selected is None && (self.connection_state == ConnectionState::Checking
            || self.connection_state == ConnectionState::Disconnected)
    }

    /// The state after the pair at place `i` was nominated. A pair whose
    /// check has not succeeded is left as it is. The first pair to be
    /// nominated is selected, and the agent is connected.
    pub open spec fn with_nomination(self, i: int) -> AgentState {
        if self.pairs[i].state != CandidatePairState::Succeeded {
            self
        } else if self.would_select() {
            AgentState {
                pairs: self.pairs.update(
                    i,
                    CandidatePair { nominated: true, selected: true, ..self.pairs[i] },
                ),
                selected: Some(i as usize),
                connection_state: ConnectionState::Connected,
                ..self
            }
        } else {
            self.with_pair_at(i, CandidatePair { nominated: true, ..self.pairs[i] })
        }
    }

    /// The request of a first or repeated check on the pair at place `i`.
    pub open spec fn request_for(self, i: usize, id: u128, use_candidate: bool) -> CheckRequest {
        CheckRequest {
            pair: i,
            transaction_id: id,
            role: self.role,
            tie_breaker: self.tie_breaker,
            use_candidate,
        }
    }

    /// The state after a check was started on the pair at place `i`, which
    /// is no longer waiting: a pair whose check had succeeded stays so.
    pub open spec fn with_check_started(self, i: usize, id: u128, use_candidate: bool, now: u64) -> AgentState {
        AgentState {
            pairs: self.pairs.update(
                i as int,
                CandidatePair {
                    state: if self.pairs[i as int].state == CandidatePairState::Succeeded {
                        CandidatePairState::Succeeded
                    } else {
                        CandidatePairState::InProgress
                    },
                    binding_request_count: (self.pairs[i as int].binding_request_count + 1) as u16,
                    ..self.pairs[i as int]
                },
            ),
            pending: self.pending.push(
                Transaction {
                    id,
                    pair: i,
                    sent_as: self.role,
                    use_candidate,
                    retransmits: 0,
                    deadline: time_after(now, retransmit_wait(0)),
                },
            ),
            ..self
        }
    }

    /// The state of the pair at place `i` once no more checks are started on
    /// it: failed, unless its check has succeeded.
    pub open spec fn given_up(self, i: int) -> CandidatePair {
        CandidatePair {
            state: if self.pairs[i].state == CandidatePairState::Succeeded {
                CandidatePairState::Succeeded
            } else {
                CandidatePairState::Failed
            },
            ..self.pairs[i]
        }
    }

    /// One turn of the check pacer.
    ///
    /// Nothing happens unless the agent is checking, connected or
    /// disconnected, and the transaction identifier is not in use. Then the
    /// next pair is taken: the one at the end of the triggered queue, else the
    /// best waiting pair, else the best frozen pair that can thaw. Where there
    /// is none, the agent looks whether it is done. Where the pair has had its share of checks, it is
    /// given up; else a check is started on it, and the request is returned.
    /// The request of a controlling agent nominates where nomination is
    /// aggressive.
    pub open spec fn ticked(self, now: u64, id: u128) -> (AgentState, Option<CheckRequest>) {
        if !self.can_check() || self.id_is_pending(id) {
            (self, None)
        } else {
            match self.next_pair() {
                None => (self.settled(), None),
                Some(i) => {
                    let taken = AgentState { triggered: self.triggered_without_next(), ..self };
                    if self.pairs[i as int].binding_request_count
                        >= self.config.max_binding_requests {
                        (taken.with_pair_at(i as int, self.given_up(i as int)).settled(), None)
                    } else {
                        let use_candidate = self.role == Role::Controlling
                            && self.config.aggressive_nomination;
                        (
                            taken.with_check_started(i, id, use_candidate, now),
                            Some(self.request_for(i, id, use_candidate)),
                        )
                    }
                },
            }
        }
    }

    /// A nomination by the rules of regular nomination: a controlling agent
    /// that is checking, connected or disconnected sends a check with
    /// USE-CANDIDATE on the best pair whose check has succeeded.
    pub open spec fn nominating(self, now: u64, id: u128) -> (AgentState, Option<CheckRequest>) {
        if !self.can_check() || self.id_is_pending(id) || self.role != Role::Controlling {
            (self, None)
        } else {
            match self.best_in_state(CandidatePairState::Succeeded, self.pairs.len()) {
                None => (self, None),
                Some(i) => if self.pairs[i as int].binding_request_count
                    >= self.config.max_binding_requests {
                    (self, None)
                } else {
                    (self.with_check_started(i, id, true, now), Some(self.request_for(i, id, true)))
                },
            }
        }
    }

    /// A check of the peer's consent: while a pair is selected, and the last
    /// such check is the consent interval or longer ago, a request is sent on
    /// the selected pair. The pair stays as it is.
    pub open spec fn consenting(self, now: u64, id: u128) -> (AgentState, Option<CheckRequest>) {
        match self.selected {
            Some(s) => if self.id_is_pending(id) || time_since(now, self.last_consent_at)
                < self.config.consent_interval {
                (self, None)
            } else {
                (
                    AgentState {
                        pending: self.pending.push(
                            Transaction {
                                id,
                                pair: s,
                                sent_as: self.role,
                                use_candidate: false,
                                retransmits: 0,
                                deadline: time_after(now, retransmit_wait(0)),
                            },
                        ),
                        last_consent_at: now,
                        ..self
                    },
                    Some(self.request_for(s, id, false)),
                )
            },
            None => (self, None),
        }
    }

    /// The place of the first pending check whose time has run out, or the
    /// number of pending checks where none has.
    pub open spec fn expired_place(pending: Seq<Transaction>, now: u64) -> int
        decreases pending.len(),
    {
        if pending.len() == 0 {
            0
        } else if pending[0].deadline <= now {
            0
        } else {
            1 + Self::expired_place(pending.drop_first(), now)
        }
    }

    /// The place of the pending check with a transaction identifier, or the
    /// number of pending checks where there is none.
    pub open spec fn pending_place(pending: Seq<Transaction>, id: u128) -> int
        decreases pending.len(),
    {
        if pending.len() == 0 {
            0
        } else if pending[0].id == id {
            0
        } else {
            1 + Self::pending_place(pending.drop_first(), id)
        }
    }

    /// The state of the pair at place `i` after its check failed: failed
    /// where the check was in progress, else as it was.
    pub open spec fn check_failed(self, i: int) -> CandidatePair {
        CandidatePair {
            state: if self.pairs[i].state == CandidatePairState::InProgress {
                CandidatePairState::Failed
            } else {
                self.pairs[i].state
            },
            ..self.pairs[i]
        }
    }

    /// What is done about the first pending check whose time has run out.
    ///
    /// A check that has been sent again fewer than seven times is sent once
    /// more, in the agent's present role, which its record takes, and waits
    /// twice as long as before.
    /// After the seventh time the check is given up, and its pair fails.
    pub open spec fn expired(self, now: u64) -> (AgentState, TimeoutOutcome) {
        let k = Self::expired_place(self.pending, now);
        if k >= self.pending.len() {
            (self, TimeoutOutcome::Nothing)
        } else {
            let t = self.pending[k];
            if t.retransmits < MAX_RETRANSMITS {
                let again = Transaction {
                    sent_as: self.role,
                    retransmits: (t.retransmits + 1) as u8,
                    deadline: time_after(now, retransmit_wait((t.retransmits + 1) as nat)),
                    ..t
                };
                (
                    AgentState { pending: self.pending.update(k, again), ..self },
                    TimeoutOutcome::Retransmit {
                        request: self.request_for(t.pair, t.id, t.use_candidate),
                    },
                )
            } else {
                (
                    (AgentState { pending: self.pending.remove(k), ..self }).with_pair_at(
                        t.pair as int,
                        self.check_failed(t.pair as int),
                    ).settled(),
                    TimeoutOutcome::GaveUp { pair: t.pair },
                )
            }
        }
    }

    /// The state after the selected pair, at place `s`, lost consent: the
    /// pair has failed and is neither nominated nor selected, and the agent is
    /// disconnected.
    pub open spec fn with_consent_lost(self, s: int, now: u64) -> AgentState {
        AgentState {
            pairs: self.pairs.update(
                s,
                CandidatePair {
                    state: CandidatePairState::Failed,
                    nominated: false,
                    selected: false,
                    ..self.pairs[s]
                },
            ),
            selected: None,
            connection_state: ConnectionState::Disconnected,
            disconnected_at: now,
            ..self
        }
    }

    /// The state with a time stamp set on a local candidate.
    pub open spec fn with_local_stamp(self, l: int, outbound: bool, now: u64) -> AgentState {
        AgentState { locals: self.locals.update(l, self.locals[l].stamped(outbound, now)), ..self }
    }

    /// The state with the local candidate at place `l` replaced.
    pub open spec fn with_local_at(self, l: int, c: CandidateBase) -> AgentState {
        AgentState { locals: self.locals.update(l, c), ..self }
    }

    /// The state with a time stamp set on a remote candidate.
    pub open spec fn with_remote_stamp(self, r: int, outbound: bool, now: u64) -> AgentState {
        AgentState {
            remotes: self.remotes.update(r, self.remotes[r].stamped(outbound, now)),
            ..self
        }
    }

    /// What is done to keep the selected pair alive, or to give it up.
    ///
    /// While a pair is selected: where its remote candidate has received
    /// nothing for longer than the disconnected timeout, consent is lost;
    /// else, where its local candidate has sent nothing for the keepalive
    /// interval, a keepalive is due, and the candidate is noted to have sent.
    /// While the agent is disconnected: where it has been so for longer than
    /// the failed timeout, it fails.
    pub open spec fn kept_alive(self, now: u64) -> (AgentState, LivenessAction) {
        match self.selected {
            Some(s) => {
                let p = self.pairs[s as int];
                if time_since(now, self.remotes[p.remote as int].last_received)
                    > self.config.disconnected_timeout {
                    (self.with_consent_lost(s as int, now), LivenessAction::ConsentLost { pair: s })
                } else if time_since(now, self.locals[p.local as int].last_sent)
                    >= self.config.keepalive_interval {
                    (
                        self.with_local_stamp(p.local as int, true, now),
                        LivenessAction::SendKeepalive { pair: s },
                    )
                } else {
                    (self, LivenessAction::Nothing)
                }
            },
            None => if self.connection_state == ConnectionState::Disconnected && time_since(
                now,
                self.disconnected_at,
            ) > self.config.failed_timeout {
                (
                    AgentState { connection_state: ConnectionState::Failed, ..self },
                    LivenessAction::GaveUp,
                )
            } else {
                (self, LivenessAction::Nothing)
            },
        }
    }
}

/// The invariant survives any change of the pairs that leaves each pair's
/// candidates, priorities and selection mark as they were, and leaves the
/// selected pair nominated and succeeded.
pub proof fn lemma_inv_after_pair_changes(s: AgentState, pairs: Seq<CandidatePair>)
    requires
        s.inv(),
        pairs.len() == s.pairs.len(),
        forall|i: int|
            0 <= i < pairs.len() ==> {
                &&& (#[trigger] pairs[i]).local == s.pairs[i].local
                &&& pairs[i].remote == s.pairs[i].remote
                &&& pairs[i].local_priority == s.pairs[i].local_priority
                &&& pairs[i].remote_priority == s.pairs[i].remote_priority
                &&& pairs[i].selected == s.pairs[i].selected
                &&& pairs[i].selected ==> pairs[i].nominated && pairs[i].state
                    == CandidatePairState::Succeeded
            },
    ensures
        (AgentState { pairs, ..s }).inv(),
{
    let t = AgentState { pairs, ..s };
    assert forall|i: int| 0 <= i < t.pairs.len() implies {
        &&& (#[trigger] t.pairs[i]).local < t.locals.len()
        &&& t.pairs[i].remote < t.remotes.len()
        &&& t.pairs[i].local_priority == t.locals[t.pairs[i].local as int].priority_value()
        &&& t.pairs[i].remote_priority == t.remotes[t.pairs[i].remote as int].priority_value()
    } by {
        assert(s.pairs[i].local < s.locals.len());
    }
    assert forall|i: int, j: int|
        0 <= i < t.pairs.len() && 0 <= j < t.pairs.len() && i != j implies !((
    #[trigger] t.pairs[i]).local == (#[trigger] t.pairs[j]).local && t.pairs[i].remote
        == t.pairs[j].remote) by {
        assert(!(s.pairs[i].local == s.pairs[j].local && s.pairs[i].remote == s.pairs[j].remote));
    }
    assert forall|i: int| 0 <= i < t.pairs.len() implies ((#[trigger] t.pairs[i]).selected
        <==> t.selected_is(i)) by {
        assert(s.pairs[i].selected <==> s.selected_is(i));
    }
    assert forall|k: int| 0 <= k < t.triggered.len() implies (#[trigger] t.triggered[k])
        < t.pairs.len() by {
        assert(s.triggered[k] < s.pairs.len());
    }
    assert forall|k: int| 0 <= k < t.pending.len() implies (#[trigger] t.pending[k]).pair
        < t.pairs.len() by {
        assert(s.pending[k].pair < s.pairs.len());
    }
}

/// What the best pair in a state is: it is in the state, no pair in the state
/// has a higher priority, and none of the same priority stands before it.
/// There is none exactly when no pair is in the state.
pub proof fn lemma_best_in_state(s: AgentState, wanted: CandidatePairState, upto: nat)
    requires
        upto <= s.pairs.len() <= usize::MAX,
    ensures
        match s.best_in_state(wanted, upto) {
            Some(b) => {
                &&& b < upto
                &&& s.pairs[b as int].state == wanted
                &&& forall|j: int|
                    0 <= j < upto && (#[trigger] s.pairs[j]).state == wanted ==> s.priority_at(j)
                        < s.priority_at(b as int) || (s.priority_at(j) == s.priority_at(b as int)
                        && b <= j)
            },
            None => forall|j: int| 0 <= j < upto ==> (#[trigger] s.pairs[j]).state != wanted,
        },
    decreases upto,
{
    if upto > 0 {
        lemma_best_in_state(s, wanted, (upto - 1) as nat);
    }
}

impl AgentState {
    /// What becomes of a datagram of application data that was accepted: a
    /// closed agent refuses it with `Closed`, a full buffer with `QueueFull`;
    /// else it is the newest in the buffer.
    pub open spec fn delivered(self, data: Seq<u8>) -> (AgentState, Result<(), Error>) {
        if self.closed() {
            (self, Err(Error::Closed))
        } else if self.buffer.len() >= self.config.buffer_capacity {
            (self, Err(Error::QueueFull))
        } else {
            (AgentState { buffer: self.buffer.push(data), ..self }, Ok(()))
        }
    }

    /// What the consumer reads: `Closed` from a closed agent,
    /// `ConnectionFailed` from a failed one; else the oldest datagram in the
    /// buffer, which leaves the buffer, or nothing where the buffer is empty.
    pub open spec fn after_read(self) -> (AgentState, Result<Option<Seq<u8>>, Error>) {
        if self.closed() {
            (self, Err(Error::Closed))
        } else if self.connection_state == ConnectionState::Failed {
            (self, Err(Error::ConnectionFailed))
        } else if self.buffer.len() == 0 {
            (self, Ok(None))
        } else {
            (AgentState { buffer: self.buffer.drop_first(), ..self }, Ok(Some(self.buffer[0])))
        }
    }

    /// The pair that the consumer's data is sent on: none from a closed agent
    /// (`Closed`), a failed one (`ConnectionFailed`) or one without a
    /// selected pair (`NoSelectedPair`); else the selected pair, whose local
    /// candidate is noted to have sent.
    pub open spec fn routed(self, now: u64) -> (AgentState, Result<CandidatePair, Error>) {
        if self.closed() {
            (self, Err(Error::Closed))
        } else if self.connection_state == ConnectionState::Failed {
            (self, Err(Error::ConnectionFailed))
        } else {
            match self.selected {
                None => (self, Err(Error::NoSelectedPair)),
                Some(s) => (
                    self.with_local_stamp(self.pairs[s as int].local as int, true, now),
                    Ok(self.pairs[s as int]),
                ),
            }
        }
    }
}

/// The invariant carries over to a state whose candidates have the
/// priorities they had, whose pairs name the candidates they named, whose
/// queue and pending checks are as they were, and whose selection is single
/// and matches its connection state.
pub proof fn lemma_inv_carries(s: AgentState, t: AgentState)
    requires
        s.inv(),
        t.locals.len() == s.locals.len(),
        forall|l: int|
            0 <= l < s.locals.len() ==> (#[trigger] t.locals[l]).priority_value()
                == s.locals[l].priority_value(),
        t.remotes.len() == s.remotes.len(),
        forall|r: int|
            0 <= r < s.remotes.len() ==> (#[trigger] t.remotes[r]).priority_value()
                == s.remotes[r].priority_value(),
        t.pairs.len() == s.pairs.len(),
        forall|i: int|
            0 <= i < s.pairs.len() ==> {
                &&& (#[trigger] t.pairs[i]).local == s.pairs[i].local
                &&& t.pairs[i].remote == s.pairs[i].remote
                &&& t.pairs[i].local_priority == s.pairs[i].local_priority
                &&& t.pairs[i].remote_priority == s.pairs[i].remote_priority
            },
        t.triggered == s.triggered,
        t.pending == s.pending,
        t.buffer.len() <= t.config.buffer_capacity,
        t.selection_is_single(),
        t.selection_matches_state(),
        t.closed() ==> t.triggered.len() == 0 && t.pending.len() == 0,
    ensures
        t.inv(),
{
    assert forall|i: int| 0 <= i < t.pairs.len() implies {
        &&& (#[trigger] t.pairs[i]).local < t.locals.len()
        &&& t.pairs[i].remote < t.remotes.len()
        &&& t.pairs[i].local_priority == t.locals[t.pairs[i].local as int].priority_value()
        &&& t.pairs[i].remote_priority == t.remotes[t.pairs[i].remote as int].priority_value()
    } by {
        assert(s.pairs[i].local < s.locals.len());
    }
    assert forall|i: int, j: int|
        0 <= i < t.pairs.len() && 0 <= j < t.pairs.len() && i != j implies !((
    #[trigger] t.pairs[i]).local == (#[trigger] t.pairs[j]).local && t.pairs[i].remote
        == t.pairs[j].remote) by {
        assert(!(s.pairs[i].local == s.pairs[j].local && s.pairs[i].remote == s.pairs[j].remote));
    }
    assert forall|k: int| 0 <= k < t.triggered.len() implies (#[trigger] t.triggered[k])
        < t.pairs.len() by {
        assert(s.triggered[k] < s.pairs.len());
    }
    assert forall|k: int| 0 <= k < t.pending.len() implies (#[trigger] t.pending[k]).pair
        < t.pairs.len() by {
        assert(s.pending[k].pair < s.pairs.len());
    }
}

/// The invariant survives the removal of a pending check.
pub proof fn lemma_inv_without_pending(s: AgentState, k: int)
    requires
        s.inv(),
        0 <= k < s.pending.len(),
    ensures
        (AgentState { pending: s.pending.remove(k), ..s }).inv(),
{
    let t = AgentState { pending: s.pending.remove(k), ..s };
    assert forall|a: int| 0 <= a < t.pending.len() implies (#[trigger] t.pending[a]).pair
        < t.pairs.len() by {
        if a < k {
            assert(s.pending[a].pair < s.pairs.len());
        } else {
            assert(s.pending[a + 1].pair < s.pairs.len());
        }
    }
    assert forall|a: int, b: int|
        0 <= a < t.pending.len() && 0 <= b < t.pending.len() && a != b implies (
    #[trigger] t.pending[a]).id != (#[trigger] t.pending[b]).id by {
        let a0 = if a < k {
            a
        } else {
            a + 1
        };
        let b0 = if b < k {
            b
        } else {
            b + 1
        };
        assert(s.pending[a0].id != s.pending[b0].id);
    }
}

impl AgentState {
    /// The place of the first remote candidate of a network type that
    /// resolves to an address, or the number of candidates where none does.
    pub open spec fn remote_place(
        remotes: Seq<CandidateBase>,
        network_type: NetworkType,
        source: SocketAddress,
    ) -> int
        decreases remotes.len(),
    {
        if remotes.len() == 0 {
            0
        } else if remotes[0].network_type == network_type && remotes[0].resolved_addr == source {
            0
        } else {
            1 + Self::remote_place(remotes.drop_first(), network_type, source)
        }
    }

    /// The place of the pair of two candidates, or the number of pairs where
    /// the candidates are not paired.
    pub open spec fn pair_place(pairs: Seq<CandidatePair>, l: int, r: int) -> int
        decreases pairs.len(),
    {
        if pairs.len() == 0 {
            0
        } else if pairs[0].local == l && pairs[0].remote == r {
            0
        } else {
            1 + Self::pair_place(pairs.drop_first(), l, r)
        }
    }

    /// The state in which two candidates are paired: as it is where they are
    /// paired already, else with a new pair of them.
    pub open spec fn with_pair_ensured(self, l: int, r: int) -> AgentState {
        if Self::pair_place(self.pairs, l, r) < self.pairs.len() {
            self
        } else {
            self.with_pair(l, r)
        }
    }

    /// The state with a pair at the head of the triggered queue, unless the
    /// queue holds the pair already.
    pub open spec fn with_triggered(self, i: usize) -> AgentState {
        if self.triggered.contains(i) {
            self
        } else {
            AgentState { triggered: seq![i] + self.triggered, ..self }
        }
    }

    /// The state with the agent in a role.
    pub open spec fn with_role(self, role: Role) -> AgentState {
        AgentState { role, ..self }
    }
}

/// Where the place of a pair is the number of pairs, the candidates are not
/// paired; else the pair at the place is theirs.
pub proof fn lemma_pair_place(pairs: Seq<CandidatePair>, l: int, r: int)
    ensures
        0 <= AgentState::pair_place(pairs, l, r) <= pairs.len(),
        AgentState::pair_place(pairs, l, r) < pairs.len() ==> {
            let k = AgentState::pair_place(pairs, l, r);
            pairs[k].local == l && pairs[k].remote == r
        },
        AgentState::pair_place(pairs, l, r) == pairs.len() ==> forall|i: int|
            0 <= i < pairs.len() ==> !((#[trigger] pairs[i]).local == l && pairs[i].remote == r),
    decreases pairs.len(),
{
    if pairs.len() > 0 && !(pairs[0].local == l && pairs[0].remote == r) {
        let rest = pairs.drop_first();
        lemma_pair_place(rest, l, r);
        if AgentState::pair_place(pairs, l, r) == pairs.len() {
            assert forall|i: int| 0 <= i < pairs.len() implies !((#[trigger] pairs[i]).local == l
                && pairs[i].remote == r) by {
                if i > 0 {
                    assert(rest[i - 1] == pairs[i]);
                }
            }
        } else {
            let k = AgentState::pair_place(rest, l, r);
            assert(rest[k] == pairs[k + 1]);
        }
    }
}

impl AgentState {
    /// The user name that a request to the agent must state: the agent's
    /// user name fragment, a colon, and the peer's, in UTF-8.
    pub open spec fn request_username(self) -> Seq<u8> {
        encode_utf8(self.config.local_ufrag@) + encode_utf8(":"@) + encode_utf8(self.remote_ufrag)
    }

    /// The key of the integrity of requests to the agent: its password.
    pub open spec fn local_key(self) -> Seq<u8> {
        encode_utf8(self.config.local_pwd@)
    }

    /// The key of the integrity of answers to the agent: the peer's password.
    pub open spec fn remote_key(self) -> Seq<u8> {
        encode_utf8(self.remote_pwd)
    }
}

impl AgentState {
    /// The order in which pairs stand in the checklist: by descending
    /// priority, and among pairs of one priority, the older pair first.
    pub open spec fn comes_before(self, i: int, j: int) -> bool {
        self.priority_at(i) > self.priority_at(j) || (self.priority_at(i) == self.priority_at(j)
            && i < j)
    }

    /// True when a row of places is the checklist of the first `n` pairs:
    /// it names each of them once, in the order of the checklist.
    pub open spec fn is_checklist_of(self, order: Seq<usize>, n: int) -> bool {
        &&& order.len() == n
        &&& forall|k: int| 0 <= k < order.len() ==> (#[trigger] order[k]) < n
        &&& forall|k: int, l: int|
            0 <= k < l < order.len() ==> self.comes_before(
                (#[trigger] order[k]) as int,
                (#[trigger] order[l]) as int,
            )
    }
}

/// The checklist names no pair twice, and has as many places as there are
/// pairs.
pub proof fn lemma_checklist_is_complete(s: AgentState, order: Seq<usize>)
    requires
        s.is_checklist_of(order, s.pairs.len() as int),
    ensures
        forall|k: int, l: int|
            0 <= k < order.len() && 0 <= l < order.len() && k != l ==> order[k] != order[l],
        order.len() == s.pairs.len(),
{
    assert forall|k: int, l: int|
        0 <= k < order.len() && 0 <= l < order.len() && k != l implies order[k] != order[l] by {
        if k < l {
            assert(s.comes_before(order[k] as int, order[l] as int));
        } else {
            assert(s.comes_before(order[l] as int, order[k] as int));
        }
    }
}

} // verus!
