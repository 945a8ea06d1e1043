//! What an agent does with what arrives on a candidate: connectivity checks
//! and their answers, and the application's datagrams.

use crate::agent::Agent;
use crate::agent_state::AgentState;
use crate::candidate_base::{is_peer_reflexive_of, new_peer_reflexive, CandidateBase};
use crate::error::Error;
use crate::network_type::SocketAddress;
use crate::pair::{CandidatePair, CandidatePairState};
use crate::role::{
    conflict_outcome, resolve_role_conflict, role_after_rejection, ConflictOutcome, Role,
};
use crate::stun_wire::{
    binding_class_of, error_code_in, first_value, is_stun, is_stun_datagram, mapped_address_in,
    stun_attributes, stun_fingerprint_holds, stun_integrity_holds, tie_breaker_in,
    transaction_id_of, StunClass, StunMessage, ATTR_USERNAME, ATTR_USE_CANDIDATE,
    CODE_ROLE_CONFLICT,
};
use vstd::prelude::*;

verus! {

/// What the agent answers to a STUN message.
#[derive(Clone, Copy, Debug, PartialEq, Eq, Structural)]
pub enum InboundReply {
    /// Nothing is to be sent.
    Nothing,
    /// The message was dropped, for the reason given; nothing is to be sent.
    Dropped { reason: Error },
    /// The request is to be answered with a success response that states the
    /// address the request came from.
    Success { transaction_id: u128, mapped: SocketAddress },
    /// The request is to be answered with error 487, Role Conflict.
    RoleConflict { transaction_id: u128 },
}

/// What became of a datagram that arrived on a candidate.
#[derive(Clone, Copy, Debug, PartialEq, Eq, Structural)]
pub enum InboundOutcome {
    /// The datagram was a STUN message, and the agent has dealt with it.
    Stun { reply: InboundReply },
    /// The datagram looked like a STUN message and could not be decoded.
    Undecodable,
    /// The datagram was application data from an address that the agent does
    /// not accept data from.
    Discarded,
    /// The datagram was application data and is in the delivery buffer.
    Delivered,
    /// The datagram was application data, and the delivery buffer was full.
    BufferFull,
}

impl InboundOutcome {
    /// The answer to a STUN message; nothing for any other outcome.
    pub open spec fn reply(self) -> InboundReply {
        match self {
            InboundOutcome::Stun { reply } => reply,
            _ => InboundReply::Nothing,
        }
    }
}

/// The role that the sender of a request claims for itself, with its
/// tie-breaker: controlling where the request has ICE-CONTROLLING, else
/// controlled where it has ICE-CONTROLLED.
pub open spec fn claimed_role(attrs: Seq<(u16, Seq<u8>)>) -> Option<(Role, u64)> {
    match tie_breaker_in(attrs, true) {
        Some(tie) => Some((Role::Controlling, tie)),
        None => match tie_breaker_in(attrs, false) {
            Some(tie) => Some((Role::Controlled, tie)),
            None => None,
        },
    }
}

impl AgentState {
    /// What a binding request does to the agent, and what the agent answers.
    ///
    /// The request arrived on the local candidate at place `local` from the
    /// address `source`; `learned` is the peer-reflexive candidate for that
    /// address. A role conflict is decided first: the agent rejects the
    /// request and keeps its role, or switches and goes on. The remote
    /// candidate is the known one at the address, else `learned`, which is
    /// added. Its pair with the local candidate is made if need be, and put
    /// on the triggered queue. A controlled agent nominates the pair where the
    /// request says so and the pair's check has succeeded. The remote
    /// candidate is noted to have been heard from.
    pub open spec fn after_request(
        self,
        local: usize,
        source: SocketAddress,
        id: u128,
        claimed: Option<(Role, u64)>,
        use_candidate: bool,
        learned: CandidateBase,
        now: u64,
    ) -> (AgentState, InboundReply) {
        if self.closed() {
            (self, InboundReply::Nothing)
        } else if local >= self.locals.len() {
            (self, InboundReply::Dropped { reason: Error::InvalidCandidate })
        } else {
            let outcome = match claimed {
                Some((role, tie)) => conflict_outcome(self.role, self.tie_breaker, role, tie),
                None => ConflictOutcome::NoConflict,
            };
            if outcome == ConflictOutcome::KeepRoleAndReject {
                (self, InboundReply::RoleConflict { transaction_id: id })
            } else {
                let s1 = if outcome == ConflictOutcome::SwitchRoleAndAccept {
                    self.with_role(self.role.opposite())
                } else {
                    self
                };
                (
                    s1.with_request_accepted(local, source, use_candidate, learned, now),
                    InboundReply::Success { transaction_id: id, mapped: source },
                )
            }
        }
    }

    /// The place of the remote candidate that a request from `source` on the
    /// local candidate at place `local` is taken to come from: the known one
    /// at the address, else `learned`.
    pub open spec fn requesting_remote(
        self,
        local: usize,
        source: SocketAddress,
        learned: CandidateBase,
    ) -> int {
        let known = Self::remote_place(self.remotes, self.locals[local as int].network_type, source);
        if known < self.remotes.len() {
            known
        } else {
            Self::place_of(self.remotes, learned)
        }
    }

    /// The state with the remote candidate of a request known: as it is where
    /// a candidate is known at the address, else with `learned` added.
    pub open spec fn with_requesting_remote(
        self,
        local: usize,
        source: SocketAddress,
        learned: CandidateBase,
    ) -> AgentState {
        if Self::remote_place(self.remotes, self.locals[local as int].network_type, source)
            < self.remotes.len() {
            self
        } else {
            self.with_remote(learned)
        }
    }

    /// The state after a request was accepted: its remote candidate is known
    /// and paired with the local candidate, the pair is on the triggered
    /// queue and, where a controlled agent is told so, nominated, and the
    /// remote candidate is noted to have been heard from. Whether the agent
    /// is done is looked at on the pacer's next turn, not here.
    pub open spec fn with_request_accepted(
        self,
        local: usize,
        source: SocketAddress,
        use_candidate: bool,
        learned: CandidateBase,
        now: u64,
    ) -> AgentState {
        let r = self.requesting_remote(local, source, learned);
        let s2 = self.with_requesting_remote(local, source, learned);
        let i = Self::pair_place(s2.pairs, local as int, r);
        let s4 = s2.with_pair_ensured(local as int, r).with_triggered(i as usize);
        let s5 = if use_candidate && s4.role == Role::Controlled {
            s4.with_nomination(i)
        } else {
            s4
        };
        s5.with_remote_stamp(r, false, now)
    }

    /// True when a datagram that arrived on the local candidate at place
    /// `local` is for the local candidate at place `l`: it is that candidate,
    /// or that candidate was derived from it and shares its connection.
    pub open spec fn arrives_for(self, local: int, l: int) -> bool {
        l == local || (0 <= local < self.locals.len() && match self.locals[l].related_address {
            Some(related) => related.address@ == self.locals[local].address@ && related.port
                == self.locals[local].port,
            None => false,
        })
    }

    /// What a success response does to the agent.
    ///
    /// The response answers the pending check with its transaction
    /// identifier; one that answers none is ignored. It must have arrived for
    /// the pair's local candidate from the address of the pair's remote
    /// candidate, else it is dropped. The check is no longer pending.
    ///
    /// Where the response states the address of the pair's local candidate,
    /// the pair has succeeded, and a controlling agent whose request
    /// nominated the pair has nominated it. Where it states another address,
    /// the check has not succeeded: a pair whose check was in progress has
    /// failed, `learned`, the peer-reflexive candidate for the stated
    /// address, is added, and new pairs are made with it.
    ///
    /// Either way the remote candidate is noted to have been heard from.
    pub open spec fn after_success(
        self,
        local: usize,
        source: SocketAddress,
        id: u128,
        mapped: SocketAddress,
        learned: CandidateBase,
        now: u64,
    ) -> (AgentState, InboundReply) {
        let k = Self::pending_place(self.pending, id);
        if self.closed() || k >= self.pending.len() {
            (self, InboundReply::Nothing)
        } else {
            let t = self.pending[k];
            let p = self.pairs[t.pair as int];
            if !self.arrives_for(local as int, p.local as int)
                || self.remotes[p.remote as int].resolved_addr != source {
                (self, InboundReply::Dropped { reason: Error::InvalidCandidate })
            } else {
                let s1 = AgentState { pending: self.pending.remove(k), ..self };
                if self.locals[p.local as int].resolved_addr == mapped {
                    let s2 = s1.with_success(t.pair as int);
                    let s3 = if t.use_candidate && s2.role == Role::Controlling {
                        s2.with_nomination(t.pair as int)
                    } else {
                        s2
                    };
                    (s3.with_remote_stamp(p.remote as int, false, now), InboundReply::Nothing)
                } else {
                    (
                        s1.with_pair_at(t.pair as int, self.check_failed(t.pair as int)).with_local(
                            learned,
                        ).with_remote_stamp(p.remote as int, false, now),
                        InboundReply::Nothing,
                    )
                }
            }
        }
    }

    /// The state of the pair at place `i` after its check was rejected for a
    /// role conflict: waiting again where the check was in progress.
    pub open spec fn check_rejected(self, i: int) -> CandidatePair {
        CandidatePair {
            state: if self.pairs[i].state == CandidatePairState::InProgress {
                CandidatePairState::Waiting
            } else {
                self.pairs[i].state
            },
            ..self.pairs[i]
        }
    }

    /// What an error response does to the agent.
    ///
    /// The response answers the pending check with its transaction
    /// identifier; one that answers none is ignored. The check is no longer
    /// pending. On error 487 the agent takes the role opposite to the one the
    /// request stated, and the pair waits to be checked again; on any other
    /// error the pair fails.
    pub open spec fn after_error(self, id: u128, code: u16) -> (AgentState, InboundReply) {
        let k = Self::pending_place(self.pending, id);
        if self.closed() || k >= self.pending.len() {
            (self, InboundReply::Nothing)
        } else {
            let t = self.pending[k];
            let s1 = AgentState { pending: self.pending.remove(k), ..self };
            if code == CODE_ROLE_CONFLICT {
                (
                    s1.with_role(role_after_rejection(t.sent_as)).with_pair_at(
                        t.pair as int,
                        self.check_rejected(t.pair as int),
                    ),
                    InboundReply::Nothing,
                )
            } else {
                (
                    s1.with_pair_at(t.pair as int, self.check_failed(t.pair as int)).settled(),
                    InboundReply::Nothing,
                )
            }
        }
    }

    /// True when a request is authentic: it states the user name that the
    /// agent expects, its integrity holds under the agent's password, and
    /// its fingerprint holds.
    pub open spec fn request_is_authentic(self, raw: Seq<u8>, attrs: Seq<(u16, Seq<u8>)>) -> bool {
        &&& first_value(attrs, ATTR_USERNAME) == Some(self.request_username())
        &&& stun_integrity_holds(raw, self.local_key())
        &&& stun_fingerprint_holds(raw)
    }

    /// True when an answer is authentic: its integrity holds under the
    /// peer's password, and its fingerprint holds.
    pub open spec fn response_is_authentic(self, raw: Seq<u8>) -> bool {
        stun_integrity_holds(raw, self.remote_key()) && stun_fingerprint_holds(raw)
    }

    /// What a decoded STUN message does to the agent, and what the agent
    /// answers.
    ///
    /// Only Binding requests, success responses and error responses are dealt
    /// with; a message that is not authentic is dropped with `StunAuth`, and
    /// an answer that lacks what it must state with `StunDecode`.
    pub open spec fn after_inbound(
        self,
        local: usize,
        raw: Seq<u8>,
        attrs: Seq<(u16, Seq<u8>)>,
        source: SocketAddress,
        learned_remote: CandidateBase,
        learned_local: CandidateBase,
        now: u64,
    ) -> (AgentState, InboundReply) {
        let id = transaction_id_of(raw) as u128;
        if self.closed() {
            (self, InboundReply::Nothing)
        } else if local >= self.locals.len() {
            (self, InboundReply::Dropped { reason: Error::InvalidCandidate })
        } else {
            match binding_class_of(raw) {
                Some(StunClass::Request) => if !self.request_is_authentic(raw, attrs) {
                    (self, InboundReply::Dropped { reason: Error::StunAuth })
                } else {
                    self.after_request(
                        local,
                        source,
                        id,
                        claimed_role(attrs),
                        first_value(attrs, ATTR_USE_CANDIDATE) is Some,
                        learned_remote,
                        now,
                    )
                },
                Some(StunClass::SuccessResponse) => if !self.response_is_authentic(raw) {
                    (self, InboundReply::Dropped { reason: Error::StunAuth })
                } else {
                    match mapped_address_in(attrs, raw) {
                        Some(mapped) => self.after_success(
                            local,
                            source,
                            id,
                            mapped,
                            learned_local,
                            now,
                        ),
                        None => (self, InboundReply::Dropped { reason: Error::StunDecode }),
                    }
                },
                Some(StunClass::ErrorResponse) => if !self.response_is_authentic(raw) {
                    (self, InboundReply::Dropped { reason: Error::StunAuth })
                } else {
                    match error_code_in(attrs) {
                        Some(code) => self.after_error(id, code),
                        None => (self, InboundReply::Dropped { reason: Error::StunDecode }),
                    }
                },
                _ => (self, InboundReply::Nothing),
            }
        }
    }

    /// What a datagram of application data does to the agent: it is
    /// discarded unless it comes from an address that the agent accepts data
    /// from, and else put into the delivery buffer, if that has room.
    pub open spec fn after_data(self, source: SocketAddress, data: Seq<u8>) -> (
        AgentState,
        InboundOutcome,
    ) {
        if !self.accepts_data_from(source) {
            (self, InboundOutcome::Discarded)
        } else if self.delivered(data).1 is Ok {
            (self.delivered(data).0, InboundOutcome::Delivered)
        } else {
            (self, InboundOutcome::BufferFull)
        }
    }
}

/// True when `after` and `reply` are what a decoded STUN message made of the
/// state `before`, with `learned_remote` and `learned_local` the
/// peer-reflexive candidates for the address the message came from and for
/// the address it states.
pub open spec fn inbound_result(
    before: AgentState,
    after: AgentState,
    reply: InboundReply,
    local: usize,
    raw: Seq<u8>,
    attrs: Seq<(u16, Seq<u8>)>,
    source: SocketAddress,
    now: u64,
    learned_remote: CandidateBase,
    learned_local: CandidateBase,
) -> bool {
    &&& !before.closed() && local < before.locals.len() ==> is_peer_reflexive_of(
        learned_remote,
        before.locals[local as int],
        source,
        false,
    )
    &&& !before.closed() && local < before.locals.len() ==> (mapped_address_in(attrs, raw) matches Some(
        mapped,
    ) ==> is_peer_reflexive_of(learned_local, before.locals[local as int], mapped, true))
    &&& (after, reply) == before.after_inbound(
        local,
        raw,
        attrs,
        source,
        learned_remote,
        learned_local,
        now,
    )
}

impl Agent {
    /// Deals with a binding request that arrived on the local candidate at
    /// place `local` from the address `source`. `learned` is the
    /// peer-reflexive candidate to add where no remote candidate is known at
    /// that address.
    ///
    /// A closed agent answers nothing.
    pub fn on_binding_request(
        &mut self,
        local: usize,
        source: SocketAddress,
        transaction_id: u128,
        claimed: Option<(Role, u64)>,
        use_candidate: bool,
        learned: CandidateBase,
        now: u64,
    ) -> (reply: InboundReply)
        requires
            old(self).wf(),
        ensures
            final(self).wf(),
            (final(self)@, reply) == old(self)@.after_request(
                local,
                source,
                transaction_id,
                claimed,
                use_candidate,
                learned,
                now,
            ),
            old(self)@.closed() ==> reply == InboundReply::Nothing && final(self)@ == old(self)@,
    {
        if matches!(self.connection_state(), crate::state::ConnectionState::Closed) {
            return InboundReply::Nothing;
        }
        if local >= self.get_local_candidates().len() {
            return InboundReply::Dropped { reason: Error::InvalidCandidate };
        }
        let outcome = match claimed {
            Some((role, tie)) => resolve_role_conflict(self.role(), self.tie_breaker(), role, tie),
            None => ConflictOutcome::NoConflict,
        };
        match outcome {
            ConflictOutcome::KeepRoleAndReject => {
                return InboundReply::RoleConflict { transaction_id };
            },
            ConflictOutcome::SwitchRoleAndAccept => {
                let role = self.role().flipped();
                self.set_role(role);
            },
            ConflictOutcome::NoConflict => {},
        }
        self.accept_request(local, source, use_candidate, learned, now);
        InboundReply::Success { transaction_id, mapped: source }
    }

    /// Makes the remote candidate of a request known.
    fn learn_requesting_remote(
        &mut self,
        local: usize,
        source: SocketAddress,
        learned: CandidateBase,
    ) -> (r: usize)
        requires
            old(self).wf(),
            !old(self)@.closed(),
            local < old(self)@.locals.len(),
        ensures
            final(self).wf(),
            final(self)@ == old(self)@.with_requesting_remote(local, source, learned),
            r == old(self)@.requesting_remote(local, source, learned),
            r < final(self)@.remotes.len(),
            final(self)@.locals == old(self)@.locals,
            final(self)@.connection_state == old(self)@.connection_state,
            final(self)@.role == old(self)@.role,
    {
        let network_type = self.get_local_candidates()[local].network_type;
        let known = self.find_remote(network_type, source);
        if known < self.get_remote_candidates().len() {
            known
        } else {
            match self.add_remote_candidate(learned) {
                Ok(place) => place,
                Err(_) => 0,
            }
        }
    }

    /// Accepts a request: see `AgentState::with_request_accepted`.
    fn accept_request(
        &mut self,
        local: usize,
        source: SocketAddress,
        use_candidate: bool,
        learned: CandidateBase,
        now: u64,
    )
        requires
            old(self).wf(),
            !old(self)@.closed(),
            local < old(self)@.locals.len(),
        ensures
            final(self).wf(),
            final(self)@ == old(self)@.with_request_accepted(
                local,
                source,
                use_candidate,
                learned,
                now,
            ),
    {
        let ghost start = self@;
        let r = self.learn_requesting_remote(local, source, learned);
        let ghost known = self@;
        let i = self.ensure_pair(local, r);
        let ghost paired = self@;
        assert(paired == known || paired == known.with_pair(local as int, r as int));
        self.enqueue_triggered(i);
        assert(self@.role == start.role && self@.remotes == known.remotes && self@.pairs
            == paired.pairs);
        if use_candidate && !self.role().is_controlling() {
            self.apply_nomination(i);
        }
        assert(self@.remotes == known.remotes);
        self.stamp_remote(r, false, now);
    }

    /// Deals with a success response that arrived on the local candidate at
    /// place `local` from the address `source` and states the address
    /// `mapped`. `learned` is the peer-reflexive candidate to add where
    /// `mapped` is not the local candidate's address.
    ///
    /// A closed agent does nothing.
    pub fn on_success_response(
        &mut self,
        local: usize,
        source: SocketAddress,
        transaction_id: u128,
        mapped: SocketAddress,
        learned: CandidateBase,
        now: u64,
    ) -> (reply: InboundReply)
        requires
            old(self).wf(),
        ensures
            final(self).wf(),
            (final(self)@, reply) == old(self)@.after_success(
                local,
                source,
                transaction_id,
                mapped,
                learned,
                now,
            ),
            reply is Nothing || reply is Dropped,
            old(self)@.closed() ==> reply == InboundReply::Nothing && final(self)@ == old(self)@,
    {
        let k = self.find_pending(transaction_id);
        if matches!(self.connection_state(), crate::state::ConnectionState::Closed) || k
            >= self.pending_count() {
            return InboundReply::Nothing;
        }
        let ghost before = self@;
        let t = self.pending_at(k);
        assert(before.pending[k as int].pair < before.pairs.len());
        let p = self.pair_at(t.pair);
        assert(before.pairs[t.pair as int].local < before.locals.len());
        let arrived = p.local == local || (local < self.get_local_candidates().len()
            && match &self.get_local_candidates()[p.local].related_address {
            Some(related) => related.address == self.get_local_candidates()[local].address
                && related.port == self.get_local_candidates()[local].port,
            None => false,
        });
        if !arrived || !self.get_remote_candidates()[p.remote].resolved_addr.same_as(&source) {
            return InboundReply::Dropped { reason: Error::InvalidCandidate };
        }
        let symmetric = self.get_local_candidates()[p.local].resolved_addr.same_as(&mapped);
        self.drop_pending(k);
        if symmetric {
            self.apply_success(t.pair);
            if t.use_candidate && self.role().is_controlling() {
                self.apply_nomination(t.pair);
            }
        } else {
            assert(before.pairs[t.pair as int].selected ==> before.pairs[t.pair as int].state
                == CandidatePairState::Succeeded);
            let mut failed = p;
            if matches!(failed.state, CandidatePairState::InProgress) {
                failed.state = CandidatePairState::Failed;
            }
            self.change_pair(t.pair, failed);
            let _ = self.add_local_candidate(learned);
        }
        self.stamp_remote(p.remote, false, now);
        InboundReply::Nothing
    }

    /// Deals with an error response that states an error code.
    ///
    /// A closed agent does nothing.
    pub fn on_error_response(&mut self, transaction_id: u128, code: u16) -> (reply: InboundReply)
        requires
            old(self).wf(),
        ensures
            final(self).wf(),
            (final(self)@, reply) == old(self)@.after_error(transaction_id, code),
            reply == InboundReply::Nothing,
            old(self)@.closed() ==> final(self)@ == old(self)@,
    {
        let k = self.find_pending(transaction_id);
        if matches!(self.connection_state(), crate::state::ConnectionState::Closed) || k
            >= self.pending_count() {
            return InboundReply::Nothing;
        }
        let ghost before = self@;
        assert(before.pending[k as int].pair < before.pairs.len());
        assert(before.pairs[before.pending[k as int].pair as int].selected
            ==> before.pairs[before.pending[k as int].pair as int].state
            == CandidatePairState::Succeeded);
        let t = self.drop_pending(k);
        let mut p = self.pair_at(t.pair);
        if code == CODE_ROLE_CONFLICT {
            self.set_role(t.sent_as.flipped());
            if matches!(p.state, CandidatePairState::InProgress) {
                p.state = CandidatePairState::Waiting;
            }
            self.change_pair(t.pair, p);
        } else {
            if matches!(p.state, CandidatePairState::InProgress) {
                p.state = CandidatePairState::Failed;
            }
            self.change_pair(t.pair, p);
            self.settle();
        }
        InboundReply::Nothing
    }

    /// Deals with the news that the transport could not reach the peer with
    /// the check of a transaction: the check has failed, as on any error
    /// other than a role conflict.
    ///
    /// A closed agent does nothing.
    pub fn on_unreachable(&mut self, transaction_id: u128)
        requires
            old(self).wf(),
        ensures
            final(self).wf(),
            final(self)@ == old(self)@.after_error(transaction_id, 0).0,
            old(self)@.closed() ==> final(self)@ == old(self)@,
    {
        self.on_error_response(transaction_id, 0);
    }

    /// Deals with a decoded STUN message that arrived on the local candidate
    /// at place `local` from the address `source`.
    ///
    /// A closed agent answers nothing.
    pub fn handle_inbound(
        &mut self,
        local: usize,
        msg: &StunMessage,
        source: SocketAddress,
        now: u64,
    ) -> (reply: InboundReply)
        requires
            old(self).wf(),
            msg.wf(),
        ensures
            final(self).wf(),
            exists|learned_remote: CandidateBase, learned_local: CandidateBase| #[trigger]
                inbound_result(
                    old(self)@,
                    final(self)@,
                    reply,
                    local,
                    msg.raw@,
                    msg.attrs(),
                    source,
                    now,
                    learned_remote,
                    learned_local,
                ),
            old(self)@.closed() ==> reply == InboundReply::Nothing && final(self)@ == old(self)@,
    {
        let ghost before = self@;
        let ghost any: CandidateBase = arbitrary();
        if matches!(self.connection_state(), crate::state::ConnectionState::Closed) {
            assert(inbound_result(
                before,
                self@,
                InboundReply::Nothing,
                local,
                msg.raw@,
                msg.attrs(),
                source,
                now,
                any,
                any,
            ));
            return InboundReply::Nothing;
        }
        if local >= self.get_local_candidates().len() {
            assert(inbound_result(
                before,
                self@,
                InboundReply::Dropped { reason: Error::InvalidCandidate },
                local,
                msg.raw@,
                msg.attrs(),
                source,
                now,
                any,
                any,
            ));
            return InboundReply::Dropped { reason: Error::InvalidCandidate };
        }
        let learned_remote = new_peer_reflexive(&self.get_local_candidates()[local], source, false);
        let learned_local = match msg.xor_mapped_address() {
            Some(mapped) => new_peer_reflexive(&self.get_local_candidates()[local], mapped, true),
            None => CandidateBase::default(),
        };
        let ghost lr = learned_remote;
        let ghost ll = learned_local;
        let reply = self.dispatch(local, msg, source, now, learned_remote, learned_local);
        assert(inbound_result(
            before,
            self@,
            reply,
            local,
            msg.raw@,
            msg.attrs(),
            source,
            now,
            lr,
            ll,
        ));
        reply
    }

    /// Hands a decoded STUN message to the handler of its class.
    fn dispatch(
        &mut self,
        local: usize,
        msg: &StunMessage,
        source: SocketAddress,
        now: u64,
        learned_remote: CandidateBase,
        learned_local: CandidateBase,
    ) -> (reply: InboundReply)
        requires
            old(self).wf(),
            msg.wf(),
            !old(self)@.closed(),
            local < old(self)@.locals.len(),
        ensures
            final(self).wf(),
            (final(self)@, reply) == old(self)@.after_inbound(
                local,
                msg.raw@,
                msg.attrs(),
                source,
                learned_remote,
                learned_local,
                now,
            ),
    {
        let id = msg.transaction_id();
        proof {
            crate::stun_wire::lemma_be_value_bound(msg.raw@.subrange(8, 20));
        }
        match msg.binding_class() {
            Some(StunClass::Request) => {
                let username = self.request_username();
                let key = self.local_key();
                if !(msg.username_is(username.as_slice()) && msg.integrity_ok(key.as_slice())
                    && msg.fingerprint_ok()) {
                    return InboundReply::Dropped { reason: Error::StunAuth };
                }
                let claimed = match msg.tie_breaker(true) {
                    Some(tie) => Some((Role::Controlling, tie)),
                    None => match msg.tie_breaker(false) {
                        Some(tie) => Some((Role::Controlled, tie)),
                        None => None,
                    },
                };
                let use_candidate = msg.use_candidate();
                self.on_binding_request(local, source, id, claimed, use_candidate, learned_remote, now)
            },
            Some(StunClass::SuccessResponse) => {
                let key = self.remote_key();
                if !(msg.integrity_ok(key.as_slice()) && msg.fingerprint_ok()) {
                    return InboundReply::Dropped { reason: Error::StunAuth };
                }
                match msg.xor_mapped_address() {
                    Some(mapped) => self.on_success_response(
                        local,
                        source,
                        id,
                        mapped,
                        learned_local,
                        now,
                    ),
                    None => InboundReply::Dropped { reason: Error::StunDecode },
                }
            },
            Some(StunClass::ErrorResponse) => {
                let key = self.remote_key();
                if !(msg.integrity_ok(key.as_slice()) && msg.fingerprint_ok()) {
                    return InboundReply::Dropped { reason: Error::StunAuth };
                }
                match msg.error_code() {
                    Some(code) => self.on_error_response(id, code),
                    None => InboundReply::Dropped { reason: Error::StunDecode },
                }
            },
            _ => InboundReply::Nothing,
        }
    }

    /// Deals with a datagram that arrived on the local candidate at place
    /// `local` from the address `source`: a STUN message is decoded and
    /// handled, anything else is application data and goes to the delivery
    /// buffer if it comes from the peer.
    pub fn handle_inbound_candidate_msg(
        &mut self,
        local: usize,
        buf: &[u8],
        source: SocketAddress,
        now: u64,
    ) -> (outcome: InboundOutcome)
        requires
            old(self).wf(),
        ensures
            final(self).wf(),
            is_stun_datagram(buf@) ==> match stun_attributes(buf@) {
                None => outcome == InboundOutcome::Undecodable && final(self)@ == old(self)@,
                Some(attrs) => outcome is Stun && exists|
                    learned_remote: CandidateBase,
                    learned_local: CandidateBase,
                | #[trigger]
                    inbound_result(
                        old(self)@,
                        final(self)@,
                        outcome.reply(),
                        local,
                        buf@,
                        attrs,
                        source,
                        now,
                        learned_remote,
                        learned_local,
                    ),
            },
            !is_stun_datagram(buf@) ==> (final(self)@, outcome) == old(self)@.after_data(
                source,
                buf@,
            ),
            old(self)@.closed() ==> final(self)@ == old(self)@ && !(outcome matches InboundOutcome::Stun {
                reply,
            } && (reply is Success || reply is RoleConflict)),
    {
        if is_stun(buf) {
            match StunMessage::decode(buf) {
                Some(msg) => {
                    let ghost before = self@;
                    let reply = self.handle_inbound(local, &msg, source, now);
                    proof {
                        let (lr, ll) = choose|lr: CandidateBase, ll: CandidateBase| #[trigger]
                            inbound_result(
                                before,
                                self@,
                                reply,
                                local,
                                msg.raw@,
                                msg.attrs(),
                                source,
                                now,
                                lr,
                                ll,
                            );
                        assert(inbound_result(
                            before,
                            self@,
                            reply,
                            local,
                            buf@,
                            stun_attributes(buf@)->0,
                            source,
                            now,
                            lr,
                            ll,
                        ));
                    }
                    InboundOutcome::Stun { reply }
                },
                None => InboundOutcome::Undecodable,
            }
        } else if !self.validate_non_stun_traffic(source) {
            InboundOutcome::Discarded
        } else {
            match self.deliver(buf) {
                Ok(()) => InboundOutcome::Delivered,
                Err(_) => InboundOutcome::BufferFull,
            }
        }
    }
}

} // verus!
