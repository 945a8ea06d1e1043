//! What holds of an agent whatever happens to it.

use crate::agent_state::{
    AgentConfig, AgentState, CheckRequest, LivenessAction, TimeoutOutcome, Transaction,
};
use crate::candidate_base::CandidateBase;
use crate::error::Error;
use crate::inbound::{InboundOutcome, InboundReply};
use crate::network_type::SocketAddress;
use crate::pair::CandidatePairState;
use crate::role::Role;
use crate::state::ConnectionState;
use vstd::prelude::*;

verus! {

/// At most one pair is selected: two places whose pairs are both marked as
/// selected are the same place.
pub proof fn lemma_at_most_one_selected(s: AgentState, i: int, j: int)
    requires
        s.inv(),
        0 <= i < s.pairs.len(),
        0 <= j < s.pairs.len(),
        s.pairs[i].selected,
        s.pairs[j].selected,
    ensures
        i == j,
        s.selected == Some(i as usize),
{
    assert(s.pairs[i].selected <==> s.selected_is(i));
    assert(s.pairs[j].selected <==> s.selected_is(j));
}

/// A pair is selected exactly while the agent is connected or completed, and
/// then the selected pair has been nominated and its check has succeeded.
pub proof fn lemma_selection_matches_state(s: AgentState)
    requires
        s.inv(),
    ensures
        (s.connection_state == ConnectionState::Connected || s.connection_state
            == ConnectionState::Completed) <==> s.selected is Some,
        s.selected matches Some(i) ==> i < s.pairs.len() && s.pairs[i as int].selected
            && s.pairs[i as int].nominated && s.pairs[i as int].state
            == CandidatePairState::Succeeded,
{
    match s.selected {
        Some(i) => {
            assert(s.pairs[i as int].selected <==> s.selected_is(i as int));
        },
        None => {},
    }
}

/// Pairing the newest remote candidate changes nothing but the list of
/// pairs.
pub proof fn lemma_pairing_remote_keeps(s: AgentState, upto: nat)
    ensures
        s.paired_with_newest_remote(upto).selected == s.selected,
        s.paired_with_newest_remote(upto).connection_state == s.connection_state,
        s.paired_with_newest_remote(upto).role == s.role,
        s.paired_with_newest_remote(upto).locals == s.locals,
        s.paired_with_newest_remote(upto).remotes == s.remotes,
        s.paired_with_newest_remote(upto).triggered == s.triggered,
        s.paired_with_newest_remote(upto).pending == s.pending,
        s.paired_with_newest_remote(upto).buffer == s.buffer,
    decreases upto,
{
    if upto > 0 {
        lemma_pairing_remote_keeps(s, (upto - 1) as nat);
    }
}

/// Pairing the newest local candidate changes nothing but the list of pairs.
pub proof fn lemma_pairing_local_keeps(s: AgentState, upto: nat)
    ensures
        s.paired_with_newest_local(upto).selected == s.selected,
        s.paired_with_newest_local(upto).connection_state == s.connection_state,
        s.paired_with_newest_local(upto).role == s.role,
        s.paired_with_newest_local(upto).locals == s.locals,
        s.paired_with_newest_local(upto).remotes == s.remotes,
        s.paired_with_newest_local(upto).triggered == s.triggered,
        s.paired_with_newest_local(upto).pending == s.pending,
        s.paired_with_newest_local(upto).buffer == s.buffer,
    decreases upto,
{
    if upto > 0 {
        lemma_pairing_local_keeps(s, (upto - 1) as nat);
    }
}

/// Once a pair is selected, it stays selected through everything that is
/// done to the agent, but for the loss of consent and the closing of the
/// agent: starting checks in either role, adding candidates, the pacer's
/// turns, nominations, consent checks, timeouts, and the consumer's reading
/// and sending.
pub proof fn lemma_selection_is_kept(
    s: AgentState,
    c: CandidateBase,
    role: Role,
    ufrag: Seq<char>,
    pwd: Seq<char>,
    now: u64,
    id: u128,
    data: Seq<u8>,
)
    requires
        s.inv(),
        s.selected is Some,
    ensures
        s.started(ufrag, pwd).selected == s.selected,
        s.with_remote(c).selected == s.selected,
        s.with_local(c).selected == s.selected,
        s.ticked(now, id).0.selected == s.selected,
        s.nominating(now, id).0.selected == s.selected,
        s.consenting(now, id).0.selected == s.selected,
        s.started_as(role, ufrag, pwd).selected == s.selected,
        s.expired(now).0.selected == s.selected,
        s.delivered(data).0.selected == s.selected,
        s.after_read().0.selected == s.selected,
        s.routed(now).0.selected == s.selected,
        s.kept_alive(now).1 !is ConsentLost ==> s.kept_alive(now).0.selected == s.selected,
{
    lemma_pairing_remote_keeps(AgentState { remotes: s.remotes.push(c), ..s }, s.locals.len());
    lemma_pairing_local_keeps(AgentState { locals: s.locals.push(c), ..s }, s.remotes.len());
}

/// The place of a pending check lies within the list, or just after it.
pub proof fn lemma_pending_place_bounds(pending: Seq<Transaction>, id: u128)
    ensures
        0 <= AgentState::pending_place(pending, id) <= pending.len(),
    decreases pending.len(),
{
    if pending.len() > 0 && pending[0].id != id {
        lemma_pending_place_bounds(pending.drop_first(), id);
    }
}

/// The selection also outlasts every request and every answer that arrives.
pub proof fn lemma_selection_outlasts_inbound(
    s: AgentState,
    local: usize,
    source: SocketAddress,
    id: u128,
    claimed: Option<(Role, u64)>,
    use_candidate: bool,
    mapped: SocketAddress,
    code: u16,
    learned: CandidateBase,
    now: u64,
)
    requires
        s.inv(),
        s.selected is Some,
    ensures
        s.after_request(local, source, id, claimed, use_candidate, learned, now).0.selected
            == s.selected,
        s.after_success(local, source, id, mapped, learned, now).0.selected == s.selected,
        s.after_error(id, code).0.selected == s.selected,
{
    let role_kept = s;
    let role_switched = s.with_role(s.role.opposite());
    lemma_pairing_remote_keeps(
        AgentState { remotes: role_kept.remotes.push(learned), ..role_kept },
        role_kept.locals.len(),
    );
    lemma_pairing_remote_keeps(
        AgentState { remotes: role_switched.remotes.push(learned), ..role_switched },
        role_switched.locals.len(),
    );
    let k = AgentState::pending_place(s.pending, id);
    lemma_pending_place_bounds(s.pending, id);
    if !s.closed() && k < s.pending.len() {
        let t = s.pending[k];
        let s1 = AgentState { pending: s.pending.remove(k), ..s };
        let s2 = s1.with_success(t.pair as int);
        let s3 = if t.use_candidate && s2.role == Role::Controlling {
            s2.with_nomination(t.pair as int)
        } else {
            s2
        };
        assert(s3.selected == s.selected);
        let failed = s1.with_pair_at(t.pair as int, s.check_failed(t.pair as int));
        assert(failed.selected == s.selected);
        lemma_pairing_local_keeps(
            AgentState { locals: failed.locals.push(learned), ..failed },
            failed.remotes.len(),
        );
        let p = s.pairs[t.pair as int];
        assert(failed.with_local(learned).with_remote_stamp(p.remote as int, false, now).selected
            == s.selected);
        assert(s3.with_remote_stamp(p.remote as int, false, now).selected == s.selected);
    }
}

/// A closed agent asks for nothing to be sent and changes no more: the pacer
/// starts no check, no check is sent again, no keepalive is due, a request is
/// not answered, and the consumer's data has no pair to go out on.
pub proof fn lemma_closed_agent_is_silent(
    s: AgentState,
    now: u64,
    id: u128,
    local: usize,
    source: SocketAddress,
    claimed: Option<(Role, u64)>,
    use_candidate: bool,
    mapped: SocketAddress,
    code: u16,
    learned: CandidateBase,
    data: Seq<u8>,
)
    requires
        s.inv(),
        s.closed(),
    ensures
        s.ticked(now, id) == (s, None::<CheckRequest>),
        s.consenting(now, id) == (s, None::<CheckRequest>),
        s.nominating(now, id) == (s, None::<CheckRequest>),
        s.expired(now) == (s, TimeoutOutcome::Nothing),
        s.kept_alive(now) == (s, LivenessAction::Nothing),
        s.routed(now) == (s, Err::<crate::pair::CandidatePair, Error>(Error::Closed)),
        s.after_request(local, source, id, claimed, use_candidate, learned, now) == (
            s,
            InboundReply::Nothing,
        ),
        s.after_success(local, source, id, mapped, learned, now) == (s, InboundReply::Nothing),
        s.after_error(id, code) == (s, InboundReply::Nothing),
        s.after_data(source, data) == (s, InboundOutcome::Discarded),
        s.delivered(data) == (s, Err::<(), Error>(Error::Closed)),
{
}

/// Closing leaves the agent closed, well formed, and with no pair selected;
/// and a closed agent stays as it is when it is closed again.
pub proof fn lemma_close_is_final(s: AgentState)
    requires
        s.inv(),
    ensures
        s.closed_down().closed(),
        s.closed_down().selected is None,
        s.closed_down().inv(),
        s.closed_down().closed_down() == s.closed_down(),
{
    let t = s.closed_down();
    assert forall|i: int| 0 <= i < t.pairs.len() implies {
        &&& (#[trigger] t.pairs[i]).local < t.locals.len()
        &&& t.pairs[i].remote < t.remotes.len()
        &&& t.pairs[i].local_priority == t.locals[t.pairs[i].local as int].priority_value()
        &&& t.pairs[i].remote_priority == t.remotes[t.pairs[i].remote as int].priority_value()
    } by {
        assert(s.pairs[i].local < s.locals.len());
    }
    assert forall|i: int, j: int|
        0 <= i < t.pairs.len() && 0 <= j < t.pairs.len() && i != j implies !((
    #[trigger] t.pairs[i]).local == (#[trigger] t.pairs[j]).local && t.pairs[i].remote
        == t.pairs[j].remote) by {
        assert(!(s.pairs[i].local == s.pairs[j].local && s.pairs[i].remote == s.pairs[j].remote));
    }
    assert(t.closed_down().pairs =~= t.pairs);
    assert(t.closed_down().locals =~= t.locals);
}

/// True when an agent in the state `from` may be found in the state `to`
/// after one thing has happened to it, the loss of consent and closing
/// apart: in the same state, or one step on. New goes on to Checking,
/// Checking to Connected, Connected to Completed, and a disconnected agent
/// goes back to Connected. No state is skipped, and there is no step back.
pub open spec fn advances(from: ConnectionState, to: ConnectionState) -> bool {
    to == from || match from {
        ConnectionState::New => to == ConnectionState::Checking,
        ConnectionState::Checking => to == ConnectionState::Connected,
        ConnectionState::Connected => to == ConnectionState::Completed,
        ConnectionState::Disconnected => to == ConnectionState::Connected,
        _ => false,
    }
}

/// The connection states follow in order: whatever is done to the agent, the
/// loss of consent and closing apart, leaves it in its state or takes it one
/// step on.
pub proof fn lemma_states_follow_in_order(
    s: AgentState,
    c: CandidateBase,
    role: Role,
    ufrag: Seq<char>,
    pwd: Seq<char>,
    now: u64,
    id: u128,
    data: Seq<u8>,
)
    requires
        s.inv(),
    ensures
        advances(s.connection_state, s.started(ufrag, pwd).connection_state),
        advances(s.connection_state, s.started_as(role, ufrag, pwd).connection_state),
        advances(s.connection_state, s.with_remote(c).connection_state),
        advances(s.connection_state, s.with_local(c).connection_state),
        advances(s.connection_state, s.ticked(now, id).0.connection_state),
        advances(s.connection_state, s.nominating(now, id).0.connection_state),
        advances(s.connection_state, s.consenting(now, id).0.connection_state),
        advances(s.connection_state, s.expired(now).0.connection_state),
        advances(s.connection_state, s.delivered(data).0.connection_state),
        advances(s.connection_state, s.after_read().0.connection_state),
        advances(s.connection_state, s.routed(now).0.connection_state),
        s.kept_alive(now).1 is Nothing || s.kept_alive(now).1 is SendKeepalive
            ==> s.kept_alive(now).0.connection_state == s.connection_state,
{
    lemma_pairing_remote_keeps(AgentState { remotes: s.remotes.push(c), ..s }, s.locals.len());
    lemma_pairing_local_keeps(AgentState { locals: s.locals.push(c), ..s }, s.remotes.len());
}

/// The connection states follow in order through every request and every
/// answer that arrives, too.
pub proof fn lemma_states_follow_in_order_inbound(
    s: AgentState,
    local: usize,
    source: SocketAddress,
    id: u128,
    claimed: Option<(Role, u64)>,
    use_candidate: bool,
    mapped: SocketAddress,
    code: u16,
    learned: CandidateBase,
    now: u64,
)
    requires
        s.inv(),
    ensures
        advances(
            s.connection_state,
            s.after_request(local, source, id, claimed, use_candidate, learned, now).0.connection_state,
        ),
        advances(
            s.connection_state,
            s.after_success(local, source, id, mapped, learned, now).0.connection_state,
        ),
        advances(s.connection_state, s.after_error(id, code).0.connection_state),
{
    let role_kept = s;
    let role_switched = s.with_role(s.role.opposite());
    lemma_pairing_remote_keeps(
        AgentState { remotes: role_kept.remotes.push(learned), ..role_kept },
        role_kept.locals.len(),
    );
    lemma_pairing_remote_keeps(
        AgentState { remotes: role_switched.remotes.push(learned), ..role_switched },
        role_switched.locals.len(),
    );
    let k = AgentState::pending_place(s.pending, id);
    lemma_pending_place_bounds(s.pending, id);
    if !s.closed() && k < s.pending.len() {
        let t = s.pending[k];
        let s1 = AgentState { pending: s.pending.remove(k), ..s };
        let failed = s1.with_pair_at(t.pair as int, s.check_failed(t.pair as int));
        lemma_pairing_local_keeps(
            AgentState { locals: failed.locals.push(learned), ..failed },
            failed.remotes.len(),
        );
        let p = s.pairs[t.pair as int];
        assert(failed.with_local(learned).with_remote_stamp(
            p.remote as int,
            false,
            now,
        ).connection_state == s.connection_state);
    }
}

/// An agent becomes connected only with a selected pair, which has been
/// nominated and whose check has succeeded; and it becomes completed only
/// when every component of its local candidates has a nominated pair and
/// every other pair is resolved.
pub proof fn lemma_connected_and_completed(s: AgentState, i: int)
    requires
        s.inv(),
        0 <= i < s.pairs.len(),
    ensures
        s.with_nomination(i).connection_state != s.connection_state ==> {
            &&& s.with_nomination(i).connection_state == ConnectionState::Connected
            &&& s.with_nomination(i).selected == Some(i as usize)
            &&& s.with_nomination(i).pairs[i].nominated
            &&& s.with_nomination(i).pairs[i].state == CandidatePairState::Succeeded
        },
        s.settled().connection_state != s.connection_state ==> {
            &&& s.connection_state == ConnectionState::Connected
            &&& s.settled().connection_state == ConnectionState::Completed
            &&& s.is_complete()
        },
{
}


/// The run of a controlling agent that nominates aggressively, with one
/// local candidate and one remote candidate that can be paired.
///
/// The agent is new until checks start, and checking from then on. The
/// pacer's first turn sends a check with USE-CANDIDATE on the one pair. When
/// the answer comes from the remote candidate's address and states the local
/// candidate's address, the pair has succeeded, is nominated and is
/// selected, and the agent is connected: no candidate was learned, and the
/// agent has kept its role. On the pacer's next turn nothing is left to
/// check, and the agent is completed.
pub proof fn lemma_run_of_a_controlling_agent(
    config: AgentConfig,
    a: CandidateBase,
    b: CandidateBase,
    ufrag: Seq<char>,
    pwd: Seq<char>,
    now: u64,
    id: u128,
    later: u64,
    next_id: u128,
    learned: CandidateBase,
)
    requires
        config.is_controlling,
        config.aggressive_nomination,
        config.max_binding_requests > 0,
        AgentState::can_pair(a, b),
    ensures
        ({
            let created = AgentState::initial(config);
            let gathered = created.with_local(a).with_remote(b);
            let started = gathered.started(ufrag, pwd);
            let (checking, request) = started.ticked(now, id);
            let (connected, reply) = checking.after_success(
                0,
                b.resolved_addr,
                id,
                a.resolved_addr,
                learned,
                later,
            );
            let (completed, nothing) = connected.ticked(later, next_id);
            &&& created.connection_state == ConnectionState::New
            &&& gathered.connection_state == ConnectionState::New
            &&& started.connection_state == ConnectionState::Checking
            &&& request == Some(
                CheckRequest {
                    pair: 0,
                    transaction_id: id,
                    role: Role::Controlling,
                    tie_breaker: config.tie_breaker,
                    use_candidate: true,
                },
            )
            &&& checking.connection_state == ConnectionState::Checking
            &&& checking.pairs.len() == 1
            &&& checking.pairs[0].state == CandidatePairState::InProgress
            &&& reply == InboundReply::Nothing
            &&& connected.connection_state == ConnectionState::Connected
            &&& connected.selected == Some(0usize)
            &&& connected.pairs.len() == 1
            &&& connected.pairs[0].local == 0
            &&& connected.pairs[0].remote == 0
            &&& connected.pairs[0].state == CandidatePairState::Succeeded
            &&& connected.pairs[0].nominated
            &&& connected.pairs[0].selected
            &&& connected.locals == seq![a]
            &&& connected.remotes == seq![b.stamped(false, later)]
            &&& connected.role == Role::Controlling
            &&& nothing is None
            &&& completed.connection_state == ConnectionState::Completed
            &&& completed.selected == Some(0usize)
        }),
{
    reveal_with_fuel(AgentState::place_of, 2);
    reveal_with_fuel(AgentState::paired_with_newest_local, 2);
    reveal_with_fuel(AgentState::paired_with_newest_remote, 3);
    reveal_with_fuel(AgentState::best_in_state, 3);
    reveal_with_fuel(AgentState::best_thawable, 3);
    reveal_with_fuel(AgentState::pending_place, 3);
    let created = AgentState::initial(config);
    let with_a = created.with_local(a);
    assert(created.locals.len() == 0);
    assert(with_a.locals =~= seq![a]);
    assert(with_a == AgentState { locals: seq![a], ..created });
    let gathered = with_a.with_remote(b);
    let pushed = AgentState { remotes: with_a.remotes.push(b), ..with_a };
    assert(pushed.remotes =~= seq![b]);
    assert(pushed.remotes.last() == b);
    assert(pushed.paired_with_newest_remote(0) == pushed);
    assert(!(exists|i: int| 0 <= i < pushed.pairs.len() && #[trigger] pushed.shares_foundation(
        i,
        0,
        0,
    )));
    assert(pushed.first_state(0, 0) == CandidatePairState::Waiting);
    assert(gathered == pushed.with_pair(0, 0));
    assert(gathered.pairs.len() == 1);
    assert(gathered.pairs[0].state == CandidatePairState::Waiting);
    let started = gathered.started(ufrag, pwd);
    assert(started.can_check());
    assert(!started.id_is_pending(id));
    assert(started.best_in_state(CandidatePairState::Waiting, 1) == Some(0usize));
    assert(started.next_pair() == Some(0usize));
    let (checking, request) = started.ticked(now, id);
    assert(checking.pending.len() == 1);
    assert(checking.pending[0].id == id);
    assert(checking.pending[0].pair == 0);
    assert(checking.pending[0].use_candidate);
    assert(checking.pairs[0].state == CandidatePairState::InProgress);
    assert(AgentState::pending_place(checking.pending, id) == 0);
    assert(checking.arrives_for(0, 0));
    assert(checking.locals[0] == a);
    assert(checking.remotes[0] == b);
    let answered = AgentState { pending: checking.pending.remove(0), ..checking };
    assert(answered.pending.len() == 0);
    let succeeded = answered.with_success(0);
    assert(succeeded.pairs.len() == 1);
    assert(succeeded.pairs[0].state == CandidatePairState::Succeeded);
    assert(succeeded.would_select());
    let nominated = succeeded.with_nomination(0);
    assert(nominated.connection_state == ConnectionState::Connected);
    let (connected, reply) = checking.after_success(
        0,
        b.resolved_addr,
        id,
        a.resolved_addr,
        learned,
        later,
    );
    assert(connected == nominated.with_remote_stamp(0, false, later));
    assert(connected.remotes =~= seq![b.stamped(false, later)]);
    assert(connected.locals =~= seq![a]);
    assert(connected.pairs[0].nominated && connected.pairs[0].selected);
    assert(connected.can_check());
    assert(!connected.id_is_pending(next_id));
    assert(connected.best_in_state(CandidatePairState::Waiting, 1) is None);
    assert(!connected.can_thaw(0));
    assert(connected.best_thawable(1) is None);
    assert(connected.next_pair() is None);
    assert(connected.nominated_for(0, a.component));
    assert(connected.component_is_nominated(a.component));
    assert(connected.is_complete());
}


/// The run of a controlled agent with one local candidate and one remote
/// candidate that can be paired, whose peer controls and nominates
/// aggressively.
///
/// A request of the peer from the remote candidate's address is answered
/// with success; it creates no candidate and changes no role, and puts the
/// pair on the triggered queue. The pacer's turn sends the triggered check,
/// without USE-CANDIDATE. When its answer states the local candidate's
/// address, the pair has succeeded, and the agent is still checking. The
/// peer's next request nominates the pair: it is selected, and the agent is
/// connected, with the pair that mirrors its peer's.
pub proof fn lemma_run_of_a_controlled_agent(
    config: AgentConfig,
    own: CandidateBase,
    peer: CandidateBase,
    peer_tie: u64,
    ufrag: Seq<char>,
    pwd: Seq<char>,
    first: u128,
    second: u128,
    id: u128,
    now: u64,
    learned: CandidateBase,
)
    requires
        !config.is_controlling,
        config.max_binding_requests > 0,
        AgentState::can_pair(own, peer),
    ensures
        ({
            let started = AgentState::initial(config).with_local(own).with_remote(peer).started(
                ufrag,
                pwd,
            );
            let (asked, answer) = started.after_request(
                0,
                peer.resolved_addr,
                first,
                Some((Role::Controlling, peer_tie)),
                true,
                learned,
                now,
            );
            let (checking, request) = asked.ticked(now, id);
            let (succeeded, reply) = checking.after_success(
                0,
                peer.resolved_addr,
                id,
                own.resolved_addr,
                learned,
                now,
            );
            let (connected, last) = succeeded.after_request(
                0,
                peer.resolved_addr,
                second,
                Some((Role::Controlling, peer_tie)),
                true,
                learned,
                now,
            );
            &&& answer == InboundReply::Success { transaction_id: first, mapped: peer.resolved_addr }
            &&& asked.connection_state == ConnectionState::Checking
            &&& asked.triggered == seq![0usize]
            &&& asked.remotes.len() == 1
            &&& request == Some(
                CheckRequest {
                    pair: 0,
                    transaction_id: id,
                    role: Role::Controlled,
                    tie_breaker: config.tie_breaker,
                    use_candidate: false,
                },
            )
            &&& succeeded.connection_state == ConnectionState::Checking
            &&& succeeded.selected is None
            &&& succeeded.pairs[0].state == CandidatePairState::Succeeded
            &&& last == InboundReply::Success { transaction_id: second, mapped: peer.resolved_addr }
            &&& connected.connection_state == ConnectionState::Connected
            &&& connected.selected == Some(0usize)
            &&& connected.pairs.len() == 1
            &&& connected.pairs[0].local == 0
            &&& connected.pairs[0].remote == 0
            &&& connected.pairs[0].state == CandidatePairState::Succeeded
            &&& connected.pairs[0].nominated
            &&& connected.locals == seq![own]
            &&& connected.remotes == seq![peer.stamped(false, now)]
            &&& connected.role == Role::Controlled
        }),
{
    reveal_with_fuel(AgentState::place_of, 2);
    reveal_with_fuel(AgentState::paired_with_newest_local, 2);
    reveal_with_fuel(AgentState::paired_with_newest_remote, 3);
    reveal_with_fuel(AgentState::best_in_state, 3);
    reveal_with_fuel(AgentState::pending_place, 3);
    reveal_with_fuel(AgentState::remote_place, 3);
    reveal_with_fuel(AgentState::pair_place, 3);
    let created = AgentState::initial(config);
    let with_own = created.with_local(own);
    assert(with_own.locals =~= seq![own]);
    assert(with_own == AgentState { locals: seq![own], ..created });
    let pushed = AgentState { remotes: with_own.remotes.push(peer), ..with_own };
    assert(pushed.remotes =~= seq![peer]);
    assert(pushed.paired_with_newest_remote(0) == pushed);
    assert(!(exists|i: int| 0 <= i < pushed.pairs.len() && #[trigger] pushed.shares_foundation(
        i,
        0,
        0,
    )));
    let gathered = with_own.with_remote(peer);
    assert(gathered == pushed.with_pair(0, 0));
    let started = gathered.started(ufrag, pwd);
    assert(started.pairs.len() == 1);
    assert(started.pairs[0].local == 0 && started.pairs[0].remote == 0);
    assert(started.locals[0] == own && started.remotes[0] == peer);
    assert(AgentState::remote_place(started.remotes, own.network_type, peer.resolved_addr) == 0);
    assert(started.requesting_remote(0, peer.resolved_addr, learned) == 0);
    assert(started.with_requesting_remote(0, peer.resolved_addr, learned) == started);
    assert(AgentState::pair_place(started.pairs, 0, 0) == 0);
    assert(started.with_pair_ensured(0, 0) == started);
    assert(!started.triggered.contains(0usize));
    let queued = started.with_triggered(0usize);
    assert(queued.triggered =~= seq![0usize]);
    assert(queued.with_nomination(0) == queued);
    let (asked, answer) = started.after_request(
        0,
        peer.resolved_addr,
        first,
        Some((Role::Controlling, peer_tie)),
        true,
        learned,
        now,
    );
    assert(asked == queued.with_remote_stamp(0, false, now));
    assert(asked.remotes =~= seq![peer.stamped(false, now)]);
    assert(asked.can_check());
    assert(!asked.id_is_pending(id));
    assert(asked.next_pair() == Some(0usize));
    assert(asked.triggered_without_next() =~= Seq::<usize>::empty());
    let (checking, request) = asked.ticked(now, id);
    assert(checking.pending.len() == 1);
    assert(checking.pending[0].id == id && checking.pending[0].pair == 0
        && !checking.pending[0].use_candidate);
    assert(AgentState::pending_place(checking.pending, id) == 0);
    assert(checking.arrives_for(0, 0));
    assert(checking.remotes[0].resolved_addr == peer.resolved_addr);
    assert(checking.locals[0] == own);
    let answered = AgentState { pending: checking.pending.remove(0), ..checking };
    let (succeeded, reply) = checking.after_success(
        0,
        peer.resolved_addr,
        id,
        own.resolved_addr,
        learned,
        now,
    );
    assert(succeeded == answered.with_success(0).with_remote_stamp(0, false, now));
    assert(succeeded.pairs.len() == 1);
    assert(succeeded.pairs[0].state == CandidatePairState::Succeeded);
    assert(succeeded.remotes =~= seq![peer.stamped(false, now)]);
    assert(succeeded.triggered.len() == 0);
    assert(AgentState::remote_place(succeeded.remotes, own.network_type, peer.resolved_addr) == 0);
    assert(succeeded.with_requesting_remote(0, peer.resolved_addr, learned) == succeeded);
    assert(AgentState::pair_place(succeeded.pairs, 0, 0) == 0);
    assert(!succeeded.triggered.contains(0usize));
    let again = succeeded.with_triggered(0usize);
    assert(again.would_select());
    let chosen = again.with_nomination(0);
    assert(chosen.connection_state == ConnectionState::Connected);
    let (connected, last) = succeeded.after_request(
        0,
        peer.resolved_addr,
        second,
        Some((Role::Controlling, peer_tie)),
        true,
        learned,
        now,
    );
    assert(connected == chosen.with_remote_stamp(0, false, now));
    assert(connected.remotes =~= seq![peer.stamped(false, now)]);
    assert(connected.locals =~= seq![own]);
}


} // verus!
