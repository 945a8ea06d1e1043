use ice::agent::{
    Agent, AgentConfig, LivenessAction, TimeoutOutcome, INITIAL_RTO, MAX_RETRANSMITS, SECOND,
};
use ice::candidate_base::{new_peer_reflexive, CandidateBase, CandidateBaseConfig};
use ice::candidate_type::CandidateType;
use ice::error::Error;
use ice::inbound::{InboundOutcome, InboundReply};
use ice::network_type::{IpAddress, SocketAddress};
use ice::pair::CandidatePairState;
use ice::role::Role;
use ice::state::{ConnectionState, GatheringState};
use ice::tcp_type::TcpType;

const HOME: u32 = 0x7F00_0001;

fn address(port: u16) -> SocketAddress {
    SocketAddress { ip: IpAddress::V4(HOME), port }
}

fn host_on(port: u16, component: u16) -> CandidateBase {
    let config = CandidateBaseConfig {
        network: "udp".to_owned(),
        address: "127.0.0.1".to_owned(),
        port,
        component,
        ..CandidateBaseConfig::default()
    };
    CandidateBase::new(
        config,
        CandidateType::Host,
        TcpType::Unspecified,
        None,
        Some(IpAddress::V4(HOME)),
    )
    .unwrap()
}

fn agent(controlling: bool, tie_breaker: u64, name: &str) -> Agent {
    Agent::new(AgentConfig::new(
        controlling,
        tie_breaker,
        format!("ufrag{}", name),
        format!("pwd{}", name),
    ))
}

/// Two agents with one host candidate each, A on port 5000 and B on 6000,
/// both started.
fn two_agents(a_controls: bool, a_tie: u64, b_controls: bool, b_tie: u64) -> (Agent, Agent) {
    let mut a = agent(a_controls, a_tie, "A");
    let mut b = agent(b_controls, b_tie, "B");
    assert_eq!(a.add_local_candidate(host_on(5000, 1)), Ok(0));
    assert_eq!(b.add_local_candidate(host_on(6000, 1)), Ok(0));
    assert_eq!(a.add_remote_candidate(host_on(6000, 1)), Ok(0));
    assert_eq!(b.add_remote_candidate(host_on(5000, 1)), Ok(0));
    a.start_connectivity_checks("ufragB".to_owned(), "pwdB".to_owned()).unwrap();
    b.start_connectivity_checks("ufragA".to_owned(), "pwdA".to_owned()).unwrap();
    (a, b)
}

/// Carries one check from `from` (on `from_port`) to `to` (on `to_port`) and
/// the answer back. Returns what `to` answered.
fn exchange(
    from: &mut Agent,
    from_port: u16,
    to: &mut Agent,
    to_port: u16,
    now: u64,
    id: u128,
) -> Option<InboundReply> {
    let request = from.tick(now, id)?;
    let learned = new_peer_reflexive(&to.get_local_candidates()[0], address(from_port), false);
    let reply = to.on_binding_request(
        0,
        address(from_port),
        request.transaction_id,
        Some((request.role, request.tie_breaker)),
        request.use_candidate,
        learned,
        now,
    );
    match reply {
        InboundReply::Success { transaction_id, mapped } => {
            let learned = new_peer_reflexive(&from.get_local_candidates()[0], mapped, true);
            let answer = from.on_success_response(
                0,
                address(to_port),
                transaction_id,
                mapped,
                learned,
                now,
            );
            assert_eq!(answer, InboundReply::Nothing);
        },
        InboundReply::RoleConflict { transaction_id } => {
            assert_eq!(from.on_error_response(transaction_id, 487), InboundReply::Nothing);
        },
        _ => {},
    }
    Some(reply)
}

#[test]
fn new_agent_is_new_and_empty() {
    let a = agent(true, 9, "A");
    assert_eq!(a.connection_state(), ConnectionState::New);
    assert_eq!(a.gathering_state(), GatheringState::New);
    assert_eq!(a.role(), Role::Controlling);
    assert_eq!(a.tie_breaker(), 9);
    assert_eq!(a.pair_count(), 0);
    assert!(a.selected_pair().is_none());
    assert!(a.pair(0).is_none());
    assert_eq!(agent(false, 1, "B").role(), Role::Controlled);
    let c = AgentConfig::new(true, 1, String::new(), String::new());
    assert_eq!(c.keepalive_interval, 2 * SECOND);
    assert_eq!(c.disconnected_timeout, 5 * SECOND);
    assert_eq!(c.failed_timeout, 25 * SECOND);
    assert_eq!(INITIAL_RTO, SECOND / 2);
    assert_eq!(MAX_RETRANSMITS, 7);
}

#[test]
fn candidates_are_paired_by_component_and_network() {
    let mut a = agent(true, 1, "A");
    assert_eq!(a.add_local_candidate(host_on(5000, 1)), Ok(0));
    assert_eq!(a.add_local_candidate(host_on(5001, 2)), Ok(1));
    assert_eq!(a.add_local_candidate(host_on(5000, 1)), Ok(0));
    assert_eq!(a.get_local_candidates().len(), 2);
    assert_eq!(a.pair_count(), 0);
    assert_eq!(a.add_remote_candidate(host_on(6000, 1)), Ok(0));
    assert_eq!(a.pair_count(), 1);
    let pair = a.pair(0).unwrap();
    assert_eq!((pair.local, pair.remote), (0, 0));
    assert_eq!(pair.state, CandidatePairState::Waiting);
    assert_eq!(pair.local_priority, 2130706431);
    assert_eq!(pair.remote_priority, 2130706431);
    assert!(!pair.nominated && !pair.selected);
    assert_eq!(a.add_remote_candidate(host_on(6001, 2)), Ok(1));
    assert_eq!(a.pair_count(), 2);
    let pair = a.pair(1).unwrap();
    assert_eq!((pair.local, pair.remote), (1, 1));
    assert_eq!(a.add_remote_candidate(host_on(6000, 1)), Ok(0));
    assert_eq!(a.pair_count(), 2);
    assert_eq!(a.get_remote_candidates().len(), 2);
}

#[test]
fn pairs_of_one_foundation_wait_for_the_first() {
    let mut a = agent(true, 1, "A");
    a.add_local_candidate(host_on(5000, 1)).unwrap();
    let mut first = host_on(6000, 1);
    first.foundation_override = "same".to_owned();
    let mut second = host_on(6001, 1);
    second.foundation_override = "same".to_owned();
    let mut third = host_on(6002, 1);
    third.foundation_override = "other".to_owned();
    a.add_remote_candidate(first).unwrap();
    a.add_remote_candidate(second).unwrap();
    a.add_remote_candidate(third).unwrap();
    assert_eq!(a.pair(0).unwrap().state, CandidatePairState::Waiting);
    assert_eq!(a.pair(1).unwrap().state, CandidatePairState::Frozen);
    assert_eq!(a.pair(2).unwrap().state, CandidatePairState::Waiting);
    a.start_connectivity_checks("u".to_owned(), "p".to_owned()).unwrap();
    let request = a.tick(0, 1).unwrap();
    assert_eq!(request.pair, 0);
    assert_eq!(a.pair(0).unwrap().state, CandidatePairState::InProgress);
    let learned = new_peer_reflexive(&a.get_local_candidates()[0], address(5000), true);
    a.on_success_response(0, address(6000), 1, address(5000), learned, 1);
    assert_eq!(a.pair(0).unwrap().state, CandidatePairState::Succeeded);
    assert_eq!(a.pair(1).unwrap().state, CandidatePairState::Waiting);
    assert_eq!(a.pair(2).unwrap().state, CandidatePairState::Waiting);
}

#[test]
fn host_to_host_connects_both_agents() {
    let (mut a, mut b) = two_agents(true, 2, false, 1);
    assert_eq!(a.connection_state(), ConnectionState::Checking);
    assert_eq!(b.connection_state(), ConnectionState::Checking);

    let reply = exchange(&mut a, 5000, &mut b, 6000, 10, 100).unwrap();
    assert_eq!(reply, InboundReply::Success { transaction_id: 100, mapped: address(5000) });
    assert_eq!(a.connection_state(), ConnectionState::Connected);
    let selected = a.selected_pair().unwrap();
    assert_eq!((selected.local, selected.remote), (0, 0));
    assert!(selected.nominated && selected.selected);
    assert_eq!(selected.state, CandidatePairState::Succeeded);
    assert_eq!(b.connection_state(), ConnectionState::Checking);
    assert!(b.selected_pair().is_none());

    let reply = exchange(&mut b, 6000, &mut a, 5000, 20, 200).unwrap();
    assert_eq!(reply, InboundReply::Success { transaction_id: 200, mapped: address(6000) });
    assert_eq!(b.pair(0).unwrap().state, CandidatePairState::Succeeded);
    assert_eq!(b.connection_state(), ConnectionState::Checking);

    exchange(&mut a, 5000, &mut b, 6000, 30, 101).unwrap();
    assert_eq!(b.connection_state(), ConnectionState::Connected);
    let selected = b.selected_pair().unwrap();
    assert_eq!((selected.local, selected.remote), (0, 0));
    assert_eq!(a.get_local_candidates()[0].port(), 5000);
    assert_eq!(a.get_remote_candidates()[selected.remote].port(), 6000);
    assert_eq!(b.get_remote_candidates()[selected.remote].port(), 5000);

    let line = a.get_local_candidates()[0].marshal();
    let words: Vec<&str> = line.split(' ').collect();
    assert_eq!(words.len(), 8);
    assert!(words[0].bytes().all(|d| d.is_ascii_digit()) && !words[0].is_empty());
    assert_eq!(&words[1..3], ["1", "udp"]);
    assert!(words[3].bytes().all(|d| d.is_ascii_digit()) && !words[3].is_empty());
    assert_eq!(words[4], "127.0.0.1");
    assert!(words[5].bytes().all(|d| d.is_ascii_digit()) && !words[5].is_empty());
    assert_eq!(&words[6..8], ["typ", "host"]);
}

#[test]
fn role_conflict_flips_the_smaller_tie_breaker_once() {
    let (mut strong, mut weak) = two_agents(true, 7, true, 3);
    let reply = exchange(&mut weak, 6000, &mut strong, 5000, 1, 50).unwrap();
    assert_eq!(reply, InboundReply::RoleConflict { transaction_id: 50 });
    assert_eq!(strong.role(), Role::Controlling);
    assert_eq!(weak.role(), Role::Controlled);
    assert_eq!(weak.pair(0).unwrap().state, CandidatePairState::Waiting);

    exchange(&mut strong, 5000, &mut weak, 6000, 2, 60).unwrap();
    assert_eq!(strong.role(), Role::Controlling);
    assert_eq!(weak.role(), Role::Controlled);
    assert_eq!(strong.connection_state(), ConnectionState::Connected);
    exchange(&mut weak, 6000, &mut strong, 5000, 3, 51).unwrap();
    exchange(&mut strong, 5000, &mut weak, 6000, 4, 61).unwrap();
    assert_eq!(weak.connection_state(), ConnectionState::Connected);
    assert_eq!(strong.role(), Role::Controlling);
    assert_eq!(weak.role(), Role::Controlled);
}

#[test]
fn role_conflict_on_a_request_switches_the_smaller_tie_breaker() {
    let (mut strong, mut weak) = two_agents(true, 7, true, 3);
    let stale = weak.tick(1, 50).unwrap();
    assert_eq!(stale.role, Role::Controlling);
    let reply = exchange(&mut strong, 5000, &mut weak, 6000, 2, 60).unwrap();
    assert_eq!(reply, InboundReply::Success { transaction_id: 60, mapped: address(5000) });
    assert_eq!(weak.role(), Role::Controlled);
    assert_eq!(strong.role(), Role::Controlling);
    assert_eq!(weak.on_error_response(50, 487), InboundReply::Nothing);
    assert_eq!(weak.role(), Role::Controlled);
}

#[test]
fn peer_reflexive_candidate_is_learned_from_a_request() {
    let (_a, mut b) = two_agents(true, 2, false, 1);
    let outside_address = SocketAddress { ip: IpAddress::V4(0xCB00_7109), port: 40000 };
    let learned = new_peer_reflexive(&b.get_local_candidates()[0], outside_address, false);
    let reply =
        b.on_binding_request(0, outside_address, 77, Some((Role::Controlling, 2)), true, learned, 5);
    assert_eq!(reply, InboundReply::Success { transaction_id: 77, mapped: outside_address });
    assert_eq!(b.get_remote_candidates().len(), 2);
    let prflx = &b.get_remote_candidates()[1];
    assert_eq!(prflx.candidate_type(), CandidateType::PeerReflexive);
    assert_eq!(prflx.address(), "203.0.113.9");
    assert_eq!(prflx.port(), 40000);
    assert_eq!(prflx.priority(), (1 << 24) * 110 + 65535 * 256 + (256 - 1));
    assert_eq!(prflx.last_received(), 5);
    assert_eq!(b.pair_count(), 2);
    let pair = b.pair(1).unwrap();
    assert_eq!((pair.local, pair.remote), (0, 1));
    assert_eq!(pair.remote_priority, 1862270975);

    let request = b.tick(6, 300).unwrap();
    assert_eq!(request.pair, 1);
    assert!(!request.use_candidate);
    let own = new_peer_reflexive(&b.get_local_candidates()[0], address(6000), true);
    b.on_success_response(0, outside_address, 300, address(6000), own, 7);
    assert_eq!(b.pair(1).unwrap().state, CandidatePairState::Succeeded);
    let learned = new_peer_reflexive(&b.get_local_candidates()[0], outside_address, false);
    b.on_binding_request(0, outside_address, 78, Some((Role::Controlling, 2)), true, learned, 8);
    assert_eq!(b.get_remote_candidates().len(), 2);
    assert_eq!(b.connection_state(), ConnectionState::Connected);
    assert_eq!(b.selected_pair().unwrap().remote, 1);
}

#[test]
fn success_from_another_address_teaches_a_local_candidate() {
    let (mut a, _b) = two_agents(true, 2, false, 1);
    a.tick(1, 9).unwrap();
    let outside = SocketAddress { ip: IpAddress::V4(0xC633_6407), port: 1234 };
    let learned = new_peer_reflexive(&a.get_local_candidates()[0], outside, true);
    assert_eq!(
        a.on_success_response(0, address(6000), 9, outside, learned, 2),
        InboundReply::Nothing
    );
    assert_eq!(a.pending_count(), 0);
    assert_eq!(a.get_local_candidates().len(), 2);
    let prflx = &a.get_local_candidates()[1];
    assert_eq!(prflx.candidate_type(), CandidateType::PeerReflexive);
    assert_eq!(prflx.address(), "198.51.100.7");
    assert_eq!(prflx.related_address().unwrap().address, "127.0.0.1");
    assert_eq!(a.get_remote_candidates()[0].last_received(), 2);
    assert_eq!(a.pair_count(), 2);
    let checked = a.pair(0).unwrap();
    assert_eq!(checked.state, CandidatePairState::Failed);
    assert!(!checked.nominated && !checked.selected);
    assert_eq!(a.connection_state(), ConnectionState::Checking);
    assert!(a.selected_pair().is_none());
    let made = a.pair(1).unwrap();
    assert_eq!((made.local, made.remote), (1, 0));
    assert_eq!(made.state, CandidatePairState::Waiting);

    let request = a.tick(3, 10).unwrap();
    assert_eq!(request.pair, 1);
    let again = new_peer_reflexive(&a.get_local_candidates()[0], outside, true);
    assert_eq!(
        a.on_success_response(0, address(6000), 10, outside, again, 4),
        InboundReply::Nothing
    );
    assert_eq!(a.get_local_candidates().len(), 2);
    assert_eq!(a.pair(1).unwrap().state, CandidatePairState::Succeeded);
    assert_eq!(a.connection_state(), ConnectionState::Connected);
    assert_eq!(a.selected_pair().unwrap().local, 1);
}

#[test]
fn a_response_must_arrive_for_the_local_candidate_of_its_pair() {
    let mut a = agent(true, 2, "A");
    a.add_local_candidate(host_on(5000, 1)).unwrap();
    a.add_local_candidate(host_on(5001, 1)).unwrap();
    a.add_remote_candidate(host_on(6000, 1)).unwrap();
    a.dial("ufragB".to_owned(), "pwdB".to_owned()).unwrap();
    let request = a.tick(1, 9).unwrap();
    assert_eq!(request.pair, 0);
    let learned = || new_peer_reflexive(&host_on(5000, 1), address(5000), true);
    assert_eq!(
        a.on_success_response(1, address(6000), 9, address(5000), learned(), 2),
        InboundReply::Dropped { reason: Error::InvalidCandidate }
    );
    assert_eq!(
        a.on_success_response(7, address(6000), 9, address(5000), learned(), 2),
        InboundReply::Dropped { reason: Error::InvalidCandidate }
    );
    assert_eq!(a.pair(0).unwrap().state, CandidatePairState::InProgress);
    assert_eq!(
        a.on_success_response(0, address(6000), 9, address(5000), learned(), 2),
        InboundReply::Nothing
    );
    assert_eq!(a.pair(0).unwrap().state, CandidatePairState::Succeeded);
}

#[test]
fn a_check_that_is_sent_again_states_the_present_role() {
    let (mut strong, mut weak) = two_agents(true, 7, true, 3);
    let first = weak.tick(0, 50).unwrap();
    assert_eq!(first.role, Role::Controlling);
    exchange(&mut strong, 5000, &mut weak, 6000, 1, 60).unwrap();
    assert_eq!(weak.role(), Role::Controlled);
    match weak.expire(INITIAL_RTO) {
        TimeoutOutcome::Retransmit { request } => {
            assert_eq!(request.transaction_id, 50);
            assert_eq!(request.role, Role::Controlled);
        },
        other => panic!("{:?}", other),
    }
    assert_eq!(weak.on_error_response(50, 487), InboundReply::Nothing);
    assert_eq!(weak.role(), Role::Controlling);
}

#[test]
fn answers_are_matched_to_checks() {
    let (mut a, _b) = two_agents(true, 2, false, 1);
    a.tick(1, 9).unwrap();
    assert_eq!(a.pending_count(), 1);
    let learned = || new_peer_reflexive(&host_on(5000, 1), address(5000), true);
    assert_eq!(
        a.on_success_response(0, address(6000), 10, address(5000), learned(), 2),
        InboundReply::Nothing
    );
    assert_eq!(a.pair(0).unwrap().state, CandidatePairState::InProgress);
    assert_eq!(
        a.on_success_response(0, address(6001), 9, address(5000), learned(), 2),
        InboundReply::Dropped { reason: Error::InvalidCandidate }
    );
    assert_eq!(a.pending_count(), 1);
    assert_eq!(a.on_error_response(9, 400), InboundReply::Nothing);
    assert_eq!(a.pending_count(), 0);
    assert_eq!(a.pair(0).unwrap().state, CandidatePairState::Failed);
}

#[test]
fn aggressive_nomination_runs_through_the_states() {
    let (mut a, mut b) = two_agents(true, 2, false, 1);
    let mut fresh = agent(true, 2, "A");
    assert_eq!(fresh.connection_state(), ConnectionState::New);
    assert!(fresh.tick(0, 1).is_none());
    fresh.start_connectivity_checks("u".to_owned(), "p".to_owned()).unwrap();
    assert_eq!(fresh.connection_state(), ConnectionState::Checking);

    let request = a.tick(1, 1).unwrap();
    assert!(request.use_candidate);
    assert_eq!(request.role, Role::Controlling);
    assert_eq!(request.tie_breaker, 2);
    assert_eq!(a.pair(0).unwrap().binding_request_count, 1);
    let learned = new_peer_reflexive(&b.get_local_candidates()[0], address(5000), false);
    b.on_binding_request(0, address(5000), 1, Some((Role::Controlling, 2)), true, learned, 1);
    let learned = new_peer_reflexive(&a.get_local_candidates()[0], address(5000), true);
    a.on_success_response(0, address(6000), 1, address(5000), learned, 2);
    assert_eq!(a.connection_state(), ConnectionState::Connected);
    assert!(a.pair(0).unwrap().nominated);
    assert!(a.tick(3, 2).is_none());
    assert_eq!(a.connection_state(), ConnectionState::Completed);
    assert!(a.selected_pair().is_some());
    assert!(a.tick(4, 3).is_none());
}

#[test]
fn regular_nomination_waits_for_a_success() {
    let mut config = AgentConfig::new(true, 2, "ufragA".to_owned(), "pwdA".to_owned());
    config.aggressive_nomination = false;
    let mut a = Agent::new(config);
    a.add_local_candidate(host_on(5000, 1)).unwrap();
    a.add_remote_candidate(host_on(6000, 1)).unwrap();
    a.start_connectivity_checks("ufragB".to_owned(), "pwdB".to_owned()).unwrap();
    assert!(a.nominate_best(0, 1).is_none());
    let request = a.tick(1, 2).unwrap();
    assert!(!request.use_candidate);
    let learned = new_peer_reflexive(&a.get_local_candidates()[0], address(5000), true);
    a.on_success_response(0, address(6000), 2, address(5000), learned, 2);
    assert_eq!(a.connection_state(), ConnectionState::Checking);
    assert!(!a.pair(0).unwrap().nominated);
    let nomination = a.nominate_best(3, 3).unwrap();
    assert!(nomination.use_candidate);
    assert_eq!(nomination.pair, 0);
    assert_eq!(a.pair(0).unwrap().state, CandidatePairState::Succeeded);
    let learned = new_peer_reflexive(&a.get_local_candidates()[0], address(5000), true);
    a.on_success_response(0, address(6000), 3, address(5000), learned, 4);
    assert_eq!(a.connection_state(), ConnectionState::Connected);
    assert!(a.selected_pair().unwrap().nominated);
}

#[test]
fn checks_take_the_best_waiting_pair_after_triggered_ones() {
    let mut a = agent(true, 1, "A");
    a.add_local_candidate(host_on(5000, 1)).unwrap();
    let mut low = host_on(6000, 1);
    low.priority_override = 10;
    low.foundation_override = "low".to_owned();
    let mut high = host_on(6001, 1);
    high.priority_override = 20;
    high.foundation_override = "high".to_owned();
    let mut mid = host_on(6002, 1);
    mid.priority_override = 15;
    mid.foundation_override = "mid".to_owned();
    a.add_remote_candidate(low).unwrap();
    a.add_remote_candidate(high).unwrap();
    a.add_remote_candidate(mid).unwrap();
    a.start_connectivity_checks("u".to_owned(), "p".to_owned()).unwrap();
    let learned = new_peer_reflexive(&a.get_local_candidates()[0], address(6000), false);
    a.on_binding_request(0, address(6000), 1, None, false, learned, 0);
    let learned = new_peer_reflexive(&a.get_local_candidates()[0], address(6000), false);
    a.on_binding_request(0, address(6000), 2, None, false, learned, 0);
    assert_eq!(a.tick(1, 10).unwrap().pair, 0);
    assert_eq!(a.tick(2, 11).unwrap().pair, 1);
    assert!(a.tick(3, 11).is_none());
    assert_eq!(a.tick(3, 12).unwrap().pair, 2);
    assert!(a.tick(4, 13).is_none());
    assert_eq!(a.pending_count(), 3);
}

#[test]
fn the_checklist_is_in_order_of_priority() {
    let mut a = agent(true, 1, "A");
    assert!(a.checklist().is_empty());
    a.add_local_candidate(host_on(5000, 1)).unwrap();
    for (port, priority) in [(6000u16, 10u32), (6001, 30), (6002, 20), (6003, 30), (6004, 5)] {
        let mut remote = host_on(port, 1);
        remote.priority_override = priority;
        a.add_remote_candidate(remote).unwrap();
    }
    assert_eq!(a.checklist(), vec![1, 3, 2, 0, 4]);
    let mut low_local = agent(false, 1, "B");
    let mut weak = host_on(5000, 1);
    weak.priority_override = 15;
    low_local.add_local_candidate(weak).unwrap();
    for (port, priority) in [(6000u16, 10u32), (6001, 20), (6002, 15)] {
        let mut remote = host_on(port, 1);
        remote.priority_override = priority;
        low_local.add_remote_candidate(remote).unwrap();
    }
    assert_eq!(low_local.checklist(), vec![1, 2, 0]);
}

#[test]
fn unanswered_checks_are_sent_again_and_given_up() {
    let (mut a, _b) = two_agents(true, 2, false, 1);
    let first = a.tick(0, 5).unwrap();
    assert_eq!(a.expire(INITIAL_RTO - 1), TimeoutOutcome::Nothing);
    let mut now = INITIAL_RTO;
    let mut wait = INITIAL_RTO;
    for _ in 0..MAX_RETRANSMITS {
        match a.expire(now) {
            TimeoutOutcome::Retransmit { request } => assert_eq!(request, first),
            other => panic!("{:?}", other),
        }
        wait *= 2;
        assert_eq!(a.expire(now + wait - 1), TimeoutOutcome::Nothing);
        now += wait;
    }
    assert_eq!(wait, 64 * SECOND);
    assert_eq!(a.expire(now), TimeoutOutcome::GaveUp { pair: 0 });
    assert_eq!(a.pair(0).unwrap().state, CandidatePairState::Failed);
    assert_eq!(a.pending_count(), 0);
    assert_eq!(a.expire(u64::MAX), TimeoutOutcome::Nothing);
}

#[test]
fn a_pair_gets_only_so_many_checks() {
    let mut config = AgentConfig::new(true, 2, "a".to_owned(), "b".to_owned());
    config.max_binding_requests = 2;
    let mut a = Agent::new(config);
    a.add_local_candidate(host_on(5000, 1)).unwrap();
    a.add_remote_candidate(host_on(6000, 1)).unwrap();
    a.start_connectivity_checks("u".to_owned(), "p".to_owned()).unwrap();
    assert!(a.tick(0, 1).is_some());
    assert_eq!(a.on_error_response(1, 487), InboundReply::Nothing);
    assert_eq!(a.role(), Role::Controlled);
    assert_eq!(a.pair(0).unwrap().state, CandidatePairState::Waiting);
    let second = a.tick(1, 2).unwrap();
    assert_eq!(second.role, Role::Controlled);
    assert_eq!(a.on_error_response(2, 487), InboundReply::Nothing);
    assert_eq!(a.role(), Role::Controlling);
    assert!(a.tick(2, 3).is_none());
    assert_eq!(a.pair(0).unwrap().state, CandidatePairState::Failed);
}

#[test]
fn consent_failure_disconnects_then_fails() {
    let (mut a, mut b) = two_agents(true, 2, false, 1);
    exchange(&mut a, 5000, &mut b, 6000, SECOND, 1).unwrap();
    assert_eq!(a.connection_state(), ConnectionState::Connected);
    assert_eq!(a.get_remote_candidates()[0].last_received(), SECOND);

    assert_eq!(a.keep_alive(2 * SECOND), LivenessAction::SendKeepalive { pair: 0 });
    assert_eq!(a.get_local_candidates()[0].last_sent(), 2 * SECOND);
    assert_eq!(a.keep_alive(3 * SECOND), LivenessAction::Nothing);
    assert_eq!(a.keep_alive(4 * SECOND), LivenessAction::SendKeepalive { pair: 0 });
    assert_eq!(a.keep_alive(6 * SECOND), LivenessAction::SendKeepalive { pair: 0 });
    assert_eq!(a.connection_state(), ConnectionState::Connected);

    assert_eq!(a.keep_alive(6 * SECOND + 1), LivenessAction::ConsentLost { pair: 0 });
    assert_eq!(a.connection_state(), ConnectionState::Disconnected);
    assert!(a.selected_pair().is_none());
    let lost = a.pair(0).unwrap();
    assert_eq!(lost.state, CandidatePairState::Failed);
    assert!(!lost.selected && !lost.nominated);
    assert_eq!(a.select_route(7 * SECOND), Err(Error::NoSelectedPair));

    assert_eq!(a.keep_alive(31 * SECOND + 1), LivenessAction::Nothing);
    assert_eq!(a.connection_state(), ConnectionState::Disconnected);
    assert_eq!(a.keep_alive(31 * SECOND + 2), LivenessAction::GaveUp);
    assert_eq!(a.connection_state(), ConnectionState::Failed);
    assert_eq!(a.read(), Err(Error::ConnectionFailed));
    assert_eq!(a.select_route(40 * SECOND), Err(Error::ConnectionFailed));
    assert_eq!(a.keep_alive(50 * SECOND), LivenessAction::Nothing);
    assert!(a.tick(50 * SECOND, 99).is_none());
}

#[test]
fn a_frozen_pair_thaws_when_nothing_holds_it_back() {
    let mut a = agent(true, 1, "A");
    a.add_local_candidate(host_on(5000, 1)).unwrap();
    a.add_remote_candidate(host_on(6000, 1)).unwrap();
    a.add_remote_candidate(host_on(6001, 1)).unwrap();
    assert_eq!(a.pair(1).unwrap().state, CandidatePairState::Frozen);
    a.start_connectivity_checks("u".to_owned(), "p".to_owned()).unwrap();
    assert_eq!(a.tick(0, 1).unwrap().pair, 0);
    assert!(a.tick(1, 2).is_none());
    assert_eq!(a.pair(1).unwrap().state, CandidatePairState::Frozen);
    assert_eq!(a.on_error_response(1, 400), InboundReply::Nothing);
    assert_eq!(a.pair(0).unwrap().state, CandidatePairState::Failed);
    assert_eq!(a.tick(2, 3).unwrap().pair, 1);
    assert_eq!(a.pair(1).unwrap().state, CandidatePairState::InProgress);
}

#[test]
fn a_disconnected_agent_connects_again() {
    let (mut a, mut b) = two_agents(true, 2, false, 1);
    exchange(&mut a, 5000, &mut b, 6000, SECOND, 1).unwrap();
    assert_eq!(a.keep_alive(7 * SECOND), LivenessAction::ConsentLost { pair: 0 });
    a.add_remote_candidate(host_on(6001, 1)).unwrap();
    let request = a.tick(8 * SECOND, 2).unwrap();
    assert_eq!(request.pair, 1);
    let learned = new_peer_reflexive(&a.get_local_candidates()[0], address(5000), true);
    a.on_success_response(0, address(6001), 2, address(5000), learned, 8 * SECOND);
    assert_eq!(a.connection_state(), ConnectionState::Connected);
    assert_eq!(a.selected_pair().unwrap().remote, 1);
}

#[test]
fn close_is_idempotent_and_silences_the_agent() {
    let (mut a, mut b) = two_agents(true, 2, false, 1);
    exchange(&mut a, 5000, &mut b, 6000, 1, 1).unwrap();
    a.tick(2, 2);
    assert!(!a.get_local_candidates()[0].is_closed());
    assert_eq!(a.close(), Ok(()));
    assert!(a.get_local_candidates()[0].is_closed());
    assert!(!a.get_local_candidates()[0].is_running());
    assert_eq!(a.connection_state(), ConnectionState::Closed);
    assert!(a.selected_pair().is_none());
    assert_eq!(a.pending_count(), 0);
    assert_eq!(a.close(), Err(Error::Closed));
    assert_eq!(a.close(), Err(Error::Closed));

    assert!(a.tick(3, 3).is_none());
    assert!(a.nominate_best(3, 3).is_none());
    assert_eq!(a.expire(u64::MAX), TimeoutOutcome::Nothing);
    assert_eq!(a.keep_alive(u64::MAX), LivenessAction::Nothing);
    assert_eq!(a.select_route(4), Err(Error::Closed));
    assert_eq!(a.read(), Err(Error::Closed));
    assert_eq!(a.deliver(b"late"), Err(Error::Closed));
    assert_eq!(a.add_remote_candidate(host_on(7000, 1)), Err(Error::Closed));
    assert_eq!(a.add_local_candidate(host_on(7000, 1)), Err(Error::Closed));
    assert_eq!(
        a.start_connectivity_checks("u".to_owned(), "p".to_owned()),
        Err(Error::Closed)
    );
    let learned = new_peer_reflexive(&host_on(5000, 1), address(6000), false);
    assert_eq!(
        a.on_binding_request(0, address(6000), 5, None, false, learned, 5),
        InboundReply::Nothing
    );
    assert_eq!(a.on_error_response(2, 487), InboundReply::Nothing);
    assert_eq!(
        a.handle_inbound_candidate_msg(0, b"data", address(6000), 5),
        InboundOutcome::Discarded
    );
    a.set_gathering_state(GatheringState::Complete);
    assert_eq!(a.gathering_state(), GatheringState::New);
    assert_eq!(a.connection_state(), ConnectionState::Closed);
}

#[test]
fn application_data_is_buffered_from_the_peer_only() {
    let (mut a, mut b) = two_agents(true, 2, false, 1);
    assert!(!a.validate_non_stun_traffic(address(6000)));
    assert_eq!(
        a.handle_inbound_candidate_msg(0, b"early", address(6000), 0),
        InboundOutcome::Discarded
    );
    exchange(&mut a, 5000, &mut b, 6000, 1, 1).unwrap();
    assert!(a.validate_non_stun_traffic(address(6000)));
    assert!(!a.validate_non_stun_traffic(address(6001)));
    assert_eq!(
        a.handle_inbound_candidate_msg(0, b"hello", address(6000), 2),
        InboundOutcome::Delivered
    );
    assert_eq!(
        a.handle_inbound_candidate_msg(0, b"intruder", address(6001), 2),
        InboundOutcome::Discarded
    );
    assert_eq!(
        a.handle_inbound_candidate_msg(0, b"world", address(6000), 3),
        InboundOutcome::Delivered
    );
    assert_eq!(a.read(), Ok(Some(b"hello".to_vec())));
    assert_eq!(a.read(), Ok(Some(b"world".to_vec())));
    assert_eq!(a.read(), Ok(None));

    assert_eq!(b.pair(0).unwrap().state, CandidatePairState::Waiting);
    exchange(&mut b, 6000, &mut a, 5000, 4, 2).unwrap();
    assert_eq!(b.connection_state(), ConnectionState::Checking);
    assert!(b.validate_non_stun_traffic(address(5000)));
    assert!(!b.validate_non_stun_traffic(address(5001)));

    let route = a.select_route(9).unwrap();
    assert_eq!((route.local, route.remote), (0, 0));
    assert_eq!(a.get_local_candidates()[0].last_sent(), 9);
}

#[test]
fn a_full_buffer_refuses_data() {
    let mut config = AgentConfig::new(true, 2, "ufragA".to_owned(), "pwdA".to_owned());
    config.buffer_capacity = 2;
    let mut a = Agent::new(config);
    assert_eq!(a.deliver(b"1"), Ok(()));
    assert_eq!(a.deliver(b"2"), Ok(()));
    assert_eq!(a.deliver(b"3"), Err(Error::QueueFull));
    assert_eq!(a.read(), Ok(Some(b"1".to_vec())));
    assert_eq!(a.deliver(b"3"), Ok(()));
    assert_eq!(a.read(), Ok(Some(b"2".to_vec())));
    assert_eq!(a.read(), Ok(Some(b"3".to_vec())));
}

#[test]
fn gathering_state_is_kept() {
    let mut a = agent(true, 1, "A");
    a.set_gathering_state(GatheringState::Gathering);
    assert_eq!(a.gathering_state(), GatheringState::Gathering);
    a.set_gathering_state(GatheringState::Complete);
    assert_eq!(a.gathering_state(), GatheringState::Complete);
    assert_eq!(a.request_username(), b"ufragA:".to_vec());
    a.start_connectivity_checks("far".to_owned(), "secret".to_owned()).unwrap();
    assert_eq!(a.request_username(), b"ufragA:far".to_vec());
}

#[test]
fn a_request_on_an_unknown_candidate_is_dropped() {
    let (mut a, _b) = two_agents(true, 2, false, 1);
    let learned = new_peer_reflexive(&host_on(5000, 1), address(6000), false);
    assert_eq!(
        a.on_binding_request(3, address(6000), 5, None, false, learned, 5),
        InboundReply::Dropped { reason: Error::InvalidCandidate }
    );
}
